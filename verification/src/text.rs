//! Character-level text handling shared by the collectors: whitespace,
//! trimming, searching, line and word splitting, decimal numbers.
//!
//! Every operation works on `Vec<char>` and is specified over `Seq<char>`
//! with the meaning that the standard library gives the `str` method of the
//! same name.
use vstd::prelude::*;

verus! {

/// `String::push` appends one character.
pub assume_specification[ String::push ](s: &mut String, ch: char)
    ensures
        final(s)@ == old(s)@.push(ch),
;

/// Unicode `White_Space`, the set that `char::is_whitespace` accepts.
pub open spec fn is_ws(c: char) -> bool {
    ||| ('\u{9}' <= c && c <= '\u{d}')
    ||| c == ' '
    ||| c == '\u{85}'
    ||| c == '\u{a0}'
    ||| c == '\u{1680}'
    ||| ('\u{2000}' <= c && c <= '\u{200a}')
    ||| c == '\u{2028}'
    ||| c == '\u{2029}'
    ||| c == '\u{202f}'
    ||| c == '\u{205f}'
    ||| c == '\u{3000}'
}

pub fn is_whitespace(c: char) -> (b: bool)
    ensures
        b == is_ws(c),
{
    ('\u{9}' <= c && c <= '\u{d}') || c == ' ' || c == '\u{85}' || c == '\u{a0}' || c
        == '\u{1680}' || ('\u{2000}' <= c && c <= '\u{200a}') || c == '\u{2028}' || c
        == '\u{2029}' || c == '\u{202f}' || c == '\u{205f}' || c == '\u{3000}'
}

/// The characters of a string slice.
pub fn chars_of(s: &str) -> (v: Vec<char>)
    ensures
        v@ == s@,
{
    let mut v: Vec<char> = Vec::new();
    for c in it: s.chars()
        invariant
            v@ == it.seq().take(it.index() as int),
            it.seq() == s@,
    {
        v.push(c);
    }
    v
}

/// A `String` holding the given characters.
pub fn string_of(v: &Vec<char>) -> (s: String)
    ensures
        s@ == v@,
{
    let mut s = String::new();
    let mut i: usize = 0;
    while i < v.len()
        invariant
            i <= v.len(),
            s@ == v@.take(i as int),
        decreases v.len() - i,
    {
        s.push(v[i]);
        proof {
            assert(v@.take(i + 1) == v@.take(i as int).push(v@[i as int]));
        }
        i = i + 1;
    }
    proof {
        assert(v@.take(v.len() as int) == v@);
    }
    s
}

/// Appends all of `w` to `out`.
pub fn push_all(out: &mut Vec<char>, w: &Vec<char>)
    ensures
        final(out)@ == old(out)@ + w@,
{
    let mut i: usize = 0;
    while i < w.len()
        invariant
            i <= w.len(),
            out@ == old(out)@ + w@.take(i as int),
        decreases w.len() - i,
    {
        out.push(w[i]);
        proof {
            assert(w@.take(i + 1) == w@.take(i as int).push(w@[i as int]));
        }
        i = i + 1;
    }
    proof {
        assert(w@.take(w.len() as int) == w@);
    }
}

/// Appends the characters of a string slice to `out`.
pub fn push_str(out: &mut Vec<char>, s: &str)
    ensures
        final(out)@ == old(out)@ + s@,
{
    let w = chars_of(s);
    push_all(out, &w);
}

/// The characters `v[lo..hi]`.
pub fn slice_of(v: &Vec<char>, lo: usize, hi: usize) -> (r: Vec<char>)
    requires
        lo <= hi <= v.len(),
    ensures
        r@ == v@.subrange(lo as int, hi as int),
{
    let mut r: Vec<char> = Vec::new();
    let mut i: usize = lo;
    while i < hi
        invariant
            lo <= i <= hi <= v.len(),
            r@ == v@.subrange(lo as int, i as int),
        decreases hi - i,
    {
        r.push(v[i]);
        proof {
            assert(v@.subrange(lo as int, i + 1) == v@.subrange(lo as int, i as int).push(
                v@[i as int],
            ));
        }
        i = i + 1;
    }
    r
}

// ---------------------------------------------------------------------------
// Trimming
// ---------------------------------------------------------------------------
/// `str::trim_start`: drops leading whitespace.
pub open spec fn trim_start(s: Seq<char>) -> Seq<char>
    decreases s.len(),
{
    if s.len() > 0 && is_ws(s[0]) {
        trim_start(s.drop_first())
    } else {
        s
    }
}

/// `str::trim_end`: drops trailing whitespace.
pub open spec fn trim_end(s: Seq<char>) -> Seq<char>
    decreases s.len(),
{
    if s.len() > 0 && is_ws(s.last()) {
        trim_end(s.drop_last())
    } else {
        s
    }
}

/// `str::trim`.
pub open spec fn trim(s: Seq<char>) -> Seq<char> {
    trim_end(trim_start(s))
}

/// A text that neither starts nor ends with whitespace is its own trim.
pub proof fn lemma_trim_plain(s: Seq<char>)
    requires
        s.len() > 0 ==> !is_ws(s[0]) && !is_ws(s.last()),
    ensures
        trim(s) == s,
{
}

/// Bounds of the trimmed part of `v[lo..hi]`.
pub fn trim_bounds(v: &Vec<char>, lo: usize, hi: usize) -> (r: (usize, usize))
    requires
        lo <= hi <= v.len(),
    ensures
        lo <= r.0 <= r.1 <= hi,
        v@.subrange(r.0 as int, r.1 as int) == trim(v@.subrange(lo as int, hi as int)),
        trim_start(v@.subrange(lo as int, hi as int)) == v@.subrange(r.0 as int, hi as int),
{
    let mut a = lo;
    while a < hi && is_whitespace(v[a])
        invariant
            lo <= a <= hi <= v.len(),
            trim_start(v@.subrange(lo as int, hi as int)) == trim_start(
                v@.subrange(a as int, hi as int),
            ),
        decreases hi - a,
    {
        proof {
            assert(v@.subrange(a as int, hi as int).drop_first() == v@.subrange(
                a + 1,
                hi as int,
            ));
        }
        a = a + 1;
    }
    let mut b = hi;
    while b > a && is_whitespace(v[b - 1])
        invariant
            lo <= a <= b <= hi <= v.len(),
            trim_start(v@.subrange(lo as int, hi as int)) == v@.subrange(a as int, hi as int),
            trim_end(v@.subrange(a as int, hi as int)) == trim_end(
                v@.subrange(a as int, b as int),
            ),
        decreases b - a,
    {
        proof {
            assert(v@.subrange(a as int, b as int).drop_last() == v@.subrange(
                a as int,
                b - 1,
            ));
        }
        b = b - 1;
    }
    (a, b)
}

/// `str::trim` on a whole character vector.
pub fn trimmed(v: &Vec<char>) -> (r: Vec<char>)
    ensures
        r@ == trim(v@),
{
    let (a, b) = trim_bounds(v, 0, v.len());
    proof {
        assert(v@.subrange(0, v.len() as int) == v@);
    }
    slice_of(v, a, b)
}

// ---------------------------------------------------------------------------
// Searching
// ---------------------------------------------------------------------------
/// `pat` occurs in `s` starting at position `i`.
pub open spec fn occurs_at(s: Seq<char>, pat: Seq<char>, i: int) -> bool {
    0 <= i && i + pat.len() <= s.len() && s.subrange(i, i + pat.len()) == pat
}

/// First position at or after `k` where `pat` occurs.
pub open spec fn find_from(s: Seq<char>, pat: Seq<char>, k: int) -> Option<int>
    decreases s.len() - k,
{
    if k < 0 || k + pat.len() > s.len() {
        None
    } else if occurs_at(s, pat, k) {
        Some(k)
    } else if k >= s.len() {
        None
    } else {
        find_from(s, pat, k + 1)
    }
}

/// `str::find` (as a position counted in characters).
pub open spec fn find(s: Seq<char>, pat: Seq<char>) -> Option<int> {
    find_from(s, pat, 0)
}

/// `str::contains`.
pub open spec fn contains(s: Seq<char>, pat: Seq<char>) -> bool {
    find(s, pat) is Some
}

/// `str::starts_with`.
pub open spec fn starts_with(s: Seq<char>, pat: Seq<char>) -> bool {
    pat.len() <= s.len() && s.take(pat.len() as int) == pat
}

pub proof fn lemma_find_from(s: Seq<char>, pat: Seq<char>, k: int)
    requires
        0 <= k,
    ensures
        find_from(s, pat, k) matches Some(i) ==> k <= i && occurs_at(s, pat, i) && forall|j: int|
            k <= j < i ==> !occurs_at(s, pat, j),
        find_from(s, pat, k) is None ==> forall|j: int| k <= j ==> !occurs_at(s, pat, j),
    decreases s.len() - k,
{
    if k + pat.len() > s.len() {
    } else if occurs_at(s, pat, k) {
    } else if k >= s.len() {
        assert(pat.len() == 0);
        assert(s.subrange(k, k) =~= pat);
    } else {
        lemma_find_from(s, pat, k + 1);
        assert forall|j: int| k <= j && !(k + 1 <= j) implies !occurs_at(s, pat, j) by {}
    }
}

/// The first occurrence of `pat` is at `i`: it occurs there and nowhere before.
pub proof fn lemma_find_is(s: Seq<char>, pat: Seq<char>)
    ensures
        find(s, pat) matches Some(i) ==> occurs_at(s, pat, i) && forall|j: int|
            0 <= j < i ==> !occurs_at(s, pat, j),
        find(s, pat) is None ==> forall|j: int| 0 <= j ==> !occurs_at(s, pat, j),
{
    lemma_find_from(s, pat, 0);
}

/// When `pat` occurs at `k` and nowhere before, `find` gives `k`.
pub proof fn lemma_find_at(s: Seq<char>, pat: Seq<char>, k: int)
    requires
        occurs_at(s, pat, k),
        forall|j: int| 0 <= j < k ==> !occurs_at(s, pat, j),
    ensures
        find(s, pat) == Some(k),
{
    lemma_find_is(s, pat);
}

/// Whether `pat` occurs in `v` at position `k`.
pub fn occurs_at_exec(v: &Vec<char>, pat: &Vec<char>, k: usize) -> (b: bool)
    ensures
        b == occurs_at(v@, pat@, k as int),
{
    if k > v.len() || pat.len() > v.len() - k {
        return false;
    }
    let mut j: usize = 0;
    while j < pat.len()
        invariant
            k + pat.len() <= v.len(),
            j <= pat.len(),
            forall|t: int| 0 <= t < j ==> v@[k + t] == pat@[t],
        decreases pat.len() - j,
    {
        if v[k + j] != pat[j] {
            proof {
                assert(v@.subrange(k as int, k + pat.len())[j as int] != pat@[j as int]);
            }
            return false;
        }
        j = j + 1;
    }
    proof {
        assert(v@.subrange(k as int, k + pat.len()) =~= pat@);
    }
    true
}

/// `str::find` on character vectors.
pub fn find_exec(v: &Vec<char>, pat: &Vec<char>) -> (r: Option<usize>)
    ensures
        r matches Some(i) ==> find(v@, pat@) == Some(i as int),
        r is None ==> find(v@, pat@) is None,
{
    if pat.len() > v.len() {
        return None;
    }
    if pat.len() == 0 {
        proof {
            assert(v@.subrange(0, 0) =~= pat@);
        }
        return Some(0);
    }
    let mut k: usize = 0;
    while k <= v.len() - pat.len()
        invariant
            1 <= pat.len() <= v.len(),
            k <= v.len() - pat.len() + 1,
            find(v@, pat@) == find_from(v@, pat@, k as int),
        decreases v.len() - k,
    {
        if occurs_at_exec(v, pat, k) {
            return Some(k);
        }
        k = k + 1;
    }
    None
}

/// `str::contains` on character vectors.
pub fn contains_exec(v: &Vec<char>, pat: &Vec<char>) -> (b: bool)
    ensures
        b == contains(v@, pat@),
{
    find_exec(v, pat).is_some()
}

/// `str::contains` with the pattern given as a string slice.
pub fn contains_str(v: &Vec<char>, pat: &str) -> (b: bool)
    ensures
        b == contains(v@, pat@),
{
    let p = chars_of(pat);
    contains_exec(v, &p)
}

/// `str::starts_with` on character vectors.
pub fn starts_with_exec(v: &Vec<char>, pat: &Vec<char>) -> (b: bool)
    ensures
        b == starts_with(v@, pat@),
{
    let b = occurs_at_exec(v, pat, 0);
    proof {
        assert(v@.subrange(0, pat.len() as int) == v@.take(pat.len() as int));
    }
    b
}

/// `str::starts_with` with the pattern given as a string slice.
pub fn starts_with_str(v: &Vec<char>, pat: &str) -> (b: bool)
    ensures
        b == starts_with(v@, pat@),
{
    let p = chars_of(pat);
    starts_with_exec(v, &p)
}

/// Equality of a character vector with a string slice.
pub fn eq_str(v: &Vec<char>, s: &str) -> (b: bool)
    ensures
        b == (v@ == s@),
{
    let p = chars_of(s);
    if v.len() != p.len() {
        return false;
    }
    let b = starts_with_exec(v, &p);
    proof {
        assert(v@.take(p.len() as int) == v@);
    }
    b
}

// ---------------------------------------------------------------------------
// Decimal numbers
// ---------------------------------------------------------------------------
/// The ASCII digit for `d < 10`.
pub open spec fn digit_char(d: nat) -> char {
    if d == 0 {
        '0'
    } else if d == 1 {
        '1'
    } else if d == 2 {
        '2'
    } else if d == 3 {
        '3'
    } else if d == 4 {
        '4'
    } else if d == 5 {
        '5'
    } else if d == 6 {
        '6'
    } else if d == 7 {
        '7'
    } else if d == 8 {
        '8'
    } else {
        '9'
    }
}

/// `n` written in decimal, without leading zeros (`Display` for integers).
pub open spec fn dec(n: nat) -> Seq<char>
    decreases n,
{
    if n < 10 {
        seq![digit_char(n)]
    } else {
        dec(n / 10).push(digit_char(n % 10))
    }
}

fn digit_exec(d: u128) -> (c: char)
    requires
        d < 10,
    ensures
        c == digit_char(d as nat),
{
    if d == 0 {
        '0'
    } else if d == 1 {
        '1'
    } else if d == 2 {
        '2'
    } else if d == 3 {
        '3'
    } else if d == 4 {
        '4'
    } else if d == 5 {
        '5'
    } else if d == 6 {
        '6'
    } else if d == 7 {
        '7'
    } else if d == 8 {
        '8'
    } else {
        '9'
    }
}

/// Appends `n` in decimal to `out`.
pub fn push_decimal(out: &mut Vec<char>, n: u128)
    ensures
        final(out)@ == old(out)@ + dec(n as nat),
    decreases n,
{
    if n >= 10 {
        push_decimal(out, n / 10);
    }
    let c = digit_exec(n % 10);
    out.push(c);
    proof {
        if n >= 10 {
            assert(old(out)@ + dec(n as nat) == (old(out)@ + dec((n / 10) as nat)).push(c));
        }
    }
}

/// Appends `n < 100` as exactly two decimal digits.
pub fn push_two_digits(out: &mut Vec<char>, n: u128)
    requires
        n < 100,
    ensures
        final(out)@ == old(out)@ + seq![digit_char((n / 10) as nat), digit_char((n % 10) as nat)],
{
    let c1 = digit_exec(n / 10);
    let c2 = digit_exec(n % 10);
    out.push(c1);
    out.push(c2);
    proof {
        assert(old(out)@ + seq![c1, c2] == old(out)@.push(c1).push(c2));
    }
}

/// `'0'..='9'`.
pub open spec fn is_digit(c: char) -> bool {
    '0' <= c && c <= '9'
}

/// The value of a decimal digit character.
pub open spec fn digit_value(c: char) -> nat {
    (c as int - '0' as int) as nat
}

/// The value of a string of decimal digits.
pub open spec fn decimal_value(d: Seq<char>) -> nat
    decreases d.len(),
{
    if d.len() == 0 {
        0
    } else {
        decimal_value(d.drop_last()) * 10 + digit_value(d.last())
    }
}

pub open spec fn all_digits(d: Seq<char>) -> bool {
    forall|i: int| 0 <= i < d.len() ==> is_digit(#[trigger] d[i])
}

/// `<uN as FromStr>::from_str` for an unsigned type whose largest value is
/// `max`: an optional `+`, then at least one decimal digit, and a value that
/// fits.
pub open spec fn parse_unsigned(s: Seq<char>, max: nat) -> Option<nat> {
    let d = if s.len() > 0 && s[0] == '+' {
        s.drop_first()
    } else {
        s
    };
    if d.len() > 0 && all_digits(d) && decimal_value(d) <= max {
        Some(decimal_value(d))
    } else {
        None
    }
}

/// `str::parse::<u64>`.
pub open spec fn parse_u64(s: Seq<char>) -> Option<u64> {
    match parse_unsigned(s, u64::MAX as nat) {
        Some(n) => Some(n as u64),
        None => None,
    }
}

/// `str::parse::<u32>`.
pub open spec fn parse_u32(s: Seq<char>) -> Option<u32> {
    match parse_unsigned(s, u32::MAX as nat) {
        Some(n) => Some(n as u32),
        None => None,
    }
}

proof fn lemma_decimal_prefix(d: Seq<char>, k: int)
    requires
        0 <= k <= d.len(),
    ensures
        decimal_value(d.take(k)) <= decimal_value(d),
    decreases d.len(),
{
    if k < d.len() {
        lemma_decimal_prefix(d.drop_last(), k);
        assert(d.drop_last().take(k) == d.take(k));
    } else {
        assert(d.take(k) == d);
    }
}

/// Parses a decimal number no larger than `max` (`str::parse` for unsigned types).
pub fn parse_unsigned_exec(v: &Vec<char>, max: u64) -> (r: Option<u64>)
    ensures
        r matches Some(n) ==> parse_unsigned(v@, max as nat) == Some(n as nat),
        r is None ==> parse_unsigned(v@, max as nat) is None,
{
    let start: usize = if v.len() > 0 && v[0] == '+' {
        1
    } else {
        0
    };
    let ghost d = if v@.len() > 0 && v@[0] == '+' {
        v@.drop_first()
    } else {
        v@
    };
    proof {
        assert(d == v@.subrange(start as int, v.len() as int));
    }
    if start >= v.len() {
        proof {
            assert(d.len() == 0);
        }
        return None;
    }
    let mut acc: u64 = 0;
    let mut i: usize = start;
    while i < v.len()
        invariant
            start <= i <= v.len(),
            d == v@.subrange(start as int, v.len() as int),
            d == (if v@.len() > 0 && v@[0] == '+' {
                v@.drop_first()
            } else {
                v@
            }),
            acc as nat == decimal_value(d.take(i - start)),
            acc <= max,
            all_digits(d.take(i - start)),
        decreases v.len() - i,
    {
        let c = v[i];
        if !('0' <= c && c <= '9') {
            proof {
                assert(d[i - start] == c);
                assert(!is_digit(d[i - start]));
            }
            return None;
        }
        let dv: u64 = (c as u32 - '0' as u32) as u64;
        proof {
            assert(d.take(i - start + 1).drop_last() == d.take(i - start));
            assert(d.take(i - start + 1).last() == c);
        }
        let next: u128 = acc as u128 * 10 + dv as u128;
        if next > max as u128 {
            proof {
                assert(decimal_value(d.take(i - start + 1)) == acc * 10 + dv);
                assert(decimal_value(d.take(i - start + 1)) > max);
                if all_digits(d) {
                    lemma_decimal_prefix(d, i - start + 1);
                    assert(decimal_value(d) > max);
                }
            }
            return None;
        }
        acc = next as u64;
        proof {
            assert forall|t: int| 0 <= t < d.take(i - start + 1).len() implies is_digit(
                #[trigger] d.take(i - start + 1)[t],
            ) by {
                if t < i - start {
                    assert(d.take(i - start + 1)[t] == d.take(i - start)[t]);
                }
            }
        }
        i = i + 1;
    }
    proof {
        assert(d.take(i - start) == d);
    }
    Some(acc)
}

/// `str::parse::<u64>` on a character vector.
pub fn parse_u64_exec(v: &Vec<char>) -> (r: Option<u64>)
    ensures
        r == parse_u64(v@),
{
    parse_unsigned_exec(v, u64::MAX)
}

/// `str::parse::<u32>` on a character vector.
pub fn parse_u32_exec(v: &Vec<char>) -> (r: Option<u32>)
    ensures
        r == parse_u32(v@),
{
    match parse_unsigned_exec(v, u32::MAX as u64) {
        Some(n) => Some(n as u32),
        None => None,
    }
}


// ---------------------------------------------------------------------------
// Splitting
// ---------------------------------------------------------------------------
/// The character sequences held by a sequence of character vectors.
pub open spec fn views(v: Seq<Vec<char>>) -> Seq<Seq<char>> {
    Seq::new(v.len(), |i: int| v[i]@)
}

pub proof fn lemma_views_push(v: Seq<Vec<char>>, x: Vec<char>)
    ensures
        views(v.push(x)) == views(v).push(x@),
{
    assert(views(v.push(x)) =~= views(v).push(x@));
}

// ---------------------------------------------------------------------------
/// `str::split` on a character: the pieces between occurrences of `c`,
/// empty ones included; there is always at least one piece.
pub open spec fn split_on(s: Seq<char>, c: char) -> Seq<Seq<char>>
    decreases s.len(),
{
    if s.len() == 0 {
        seq![Seq::<char>::empty()]
    } else {
        let p = split_on(s.drop_last(), c);
        if s.last() == c {
            p.push(Seq::<char>::empty())
        } else {
            p.update(p.len() - 1, p.last().push(s.last()))
        }
    }
}

pub proof fn lemma_split_on_len(s: Seq<char>, c: char)
    ensures
        split_on(s, c).len() >= 1,
    decreases s.len(),
{
    if s.len() > 0 {
        lemma_split_on_len(s.drop_last(), c);
    }
}

/// A text without the separator splits into itself alone.
pub proof fn lemma_split_on_absent(s: Seq<char>, c: char)
    requires
        !s.contains(c),
    ensures
        split_on(s, c) == seq![s],
    decreases s.len(),
{
    if s.len() == 0 {
        assert(s =~= Seq::<char>::empty());
        assert(split_on(s, c) =~= seq![s]);
    } else {
        assert(!s.drop_last().contains(c)) by {
            if s.drop_last().contains(c) {
                let i = choose|i: int| 0 <= i < s.drop_last().len() && s.drop_last()[i] == c;
                assert(s[i] == c);
            }
        }
        lemma_split_on_absent(s.drop_last(), c);
        assert(s.last() != c) by {
            assert(s[s.len() - 1] == s.last());
        }
        assert(s.drop_last().push(s.last()) =~= s);
        assert(split_on(s, c) =~= seq![s]);
    }
}

/// `str::split` on a character.
pub fn split_on_exec(v: &Vec<char>, c: char) -> (r: Vec<Vec<char>>)
    ensures
        views(r@) == split_on(v@, c),
{
    let mut done: Vec<Vec<char>> = Vec::new();
    let mut cur: Vec<char> = Vec::new();
    let mut i: usize = 0;
    proof {
        assert(v@.take(0).len() == 0);
    }
    while i < v.len()
        invariant
            i <= v.len(),
            views(done@).push(cur@) == split_on(v@.take(i as int), c),
        decreases v.len() - i,
    {
        let ghost before = v@.take(i as int);
        proof {
            assert(v@.take(i + 1).drop_last() == before);
            assert(v@.take(i + 1).last() == v@[i as int]);
            lemma_split_on_len(before, c);
        }
        if v[i] == c {
            let piece = cur;
            proof {
                lemma_views_push(done@, piece);
            }
            done.push(piece);
            cur = Vec::new();
            proof {
                assert(views(done@) == split_on(before, c));
                assert(views(done@).push(cur@) == split_on(before, c).push(Seq::<char>::empty()));
            }
        } else {
            let ghost old_done = views(done@);
            cur.push(v[i]);
            proof {
                assert(views(done@).push(cur@) =~= split_on(before, c).update(
                    split_on(before, c).len() - 1,
                    split_on(before, c).last().push(v@[i as int]),
                ));
            }
        }
        i = i + 1;
    }
    proof {
        lemma_views_push(done@, cur);
    }
    done.push(cur);
    proof {
        assert(v@.take(v.len() as int) == v@);
    }
    done
}

/// `str::splitn(2, c)`: the part before the first `c`, and the rest after it
/// if there is a `c`.
pub open spec fn split_once(s: Seq<char>, c: char) -> Seq<Seq<char>> {
    match find(s, seq![c]) {
        Some(i) => seq![s.take(i), s.skip(i + 1)],
        None => seq![s],
    }
}

/// `str::splitn(2, c)` on a character vector.
pub fn split_once_exec(v: &Vec<char>, c: char) -> (r: Vec<Vec<char>>)
    ensures
        views(r@) == split_once(v@, c),
        1 <= r.len() <= 2,
{
    let pat: Vec<char> = vec![c];
    proof {
        assert(pat@ == seq![c]);
    }
    match find_exec(v, &pat) {
        Some(i) => {
            proof {
                lemma_find_is(v@, pat@);
            }
            let a = slice_of(v, 0, i);
            let b = slice_of(v, i + 1, v.len());
            let r = vec![a, b];
            proof {
                assert(views(r@) =~= seq![v@.take(i as int), v@.skip(i + 1)]);
            }
            r
        },
        None => {
            let a = slice_of(v, 0, v.len());
            let r = vec![a];
            proof {
                assert(v@.subrange(0, v.len() as int) == v@);
                assert(views(r@) =~= seq![v@]);
            }
            r
        },
    }
}

/// `str::split_whitespace`: the maximal runs of non-whitespace characters.
pub open spec fn words(s: Seq<char>) -> Seq<Seq<char>>
    decreases s.len(),
{
    if s.len() == 0 {
        Seq::empty()
    } else {
        let w = words(s.drop_last());
        let ch = s.last();
        if is_ws(ch) {
            w
        } else if s.len() >= 2 && !is_ws(s[s.len() - 2]) {
            w.update(w.len() - 1, w.last().push(ch))
        } else {
            w.push(seq![ch])
        }
    }
}

proof fn lemma_words_nonempty(s: Seq<char>)
    requires
        s.len() > 0,
        !is_ws(s.last()),
    ensures
        words(s).len() > 0,
    decreases s.len(),
{
    if s.len() >= 2 && !is_ws(s[s.len() - 2]) {
        lemma_words_nonempty(s.drop_last());
    }
}

/// `str::split_whitespace` on a character vector.
pub fn words_exec(v: &Vec<char>) -> (r: Vec<Vec<char>>)
    ensures
        views(r@) == words(v@),
{
    let mut done: Vec<Vec<char>> = Vec::new();
    let mut cur: Vec<char> = Vec::new();
    let mut i: usize = 0;
    while i < v.len()
        invariant
            i <= v.len(),
            cur@.len() > 0 <==> (i > 0 && !is_ws(v@[i - 1])),
            cur@.len() > 0 ==> views(done@).push(cur@) == words(v@.take(i as int)),
            cur@.len() == 0 ==> views(done@) == words(v@.take(i as int)),
        decreases v.len() - i,
    {
        let ghost before = v@.take(i as int);
        proof {
            assert(v@.take(i + 1).drop_last() == before);
            assert(v@.take(i + 1).last() == v@[i as int]);
            if i > 0 {
                assert(v@.take(i + 1)[i - 1] == v@[i - 1]);
                assert(before.last() == v@[i - 1]);
            }
        }
        if is_whitespace(v[i]) {
            if cur.len() > 0 {
                let piece = cur;
                proof {
                    lemma_views_push(done@, piece);
                }
                done.push(piece);
                cur = Vec::new();
            }
        } else {
            let ghost old_cur = cur@;
            proof {
                if cur@.len() > 0 {
                    lemma_words_nonempty(before);
                } else {
                    assert(views(done@) == words(before));
                }
            }
            cur.push(v[i]);
            proof {
                if cur@.len() > 1 {
                    assert(views(done@).push(cur@) =~= words(before).update(
                        words(before).len() - 1,
                        words(before).last().push(v@[i as int]),
                    ));
                } else {
                    assert(old_cur.len() == 0);
                    assert(cur@ =~= seq![v@[i as int]]);
                    assert(words(v@.take(i + 1)) == words(before).push(seq![v@[i as int]]));
                    assert(views(done@).push(cur@) =~= words(before).push(seq![v@[i as int]]));
                }
            }
        }
        i = i + 1;
    }
    if cur.len() > 0 {
        proof {
            lemma_views_push(done@, cur);
        }
        done.push(cur);
    }
    proof {
        assert(v@.take(v.len() as int) == v@);
    }
    done
}

/// Drops one trailing carriage return.
pub open spec fn strip_cr(l: Seq<char>) -> Seq<char> {
    if l.len() > 0 && l.last() == '\r' {
        l.drop_last()
    } else {
        l
    }
}

/// `str::lines`: pieces between `'\n'`, without a final empty piece, each
/// with one trailing `'\r'` removed.
pub open spec fn lines(s: Seq<char>) -> Seq<Seq<char>> {
    let p = split_on(s, '\n');
    let q = if p.last().len() == 0 {
        p.drop_last()
    } else {
        p
    };
    q.map_values(|l: Seq<char>| strip_cr(l))
}

/// `str::lines` on a character vector.
pub fn lines_exec(v: &Vec<char>) -> (r: Vec<Vec<char>>)
    ensures
        views(r@) == lines(v@),
{
    let p = split_on_exec(v, '\n');
    proof {
        lemma_split_on_len(v@, '\n');
    }
    let n: usize = if p[p.len() - 1].len() == 0 {
        p.len() - 1
    } else {
        p.len()
    };
    let ghost q = if split_on(v@, '\n').last().len() == 0 {
        split_on(v@, '\n').drop_last()
    } else {
        split_on(v@, '\n')
    };
    proof {
        assert(views(p@)[p.len() - 1] == p[p.len() - 1 as int]@);
        assert(q.len() == n);
        assert forall|j: int| 0 <= j < n implies q[j] == views(p@)[j] by {}
    }
    let mut r: Vec<Vec<char>> = Vec::new();
    let mut j: usize = 0;
    while j < n
        invariant
            n <= p.len(),
            q.len() == n,
            forall|t: int| 0 <= t < n ==> q[t] == views(p@)[t],
            j <= n,
            views(r@) == q.take(j as int).map_values(|l: Seq<char>| strip_cr(l)),
        decreases n - j,
    {
        let l = &p[j];
        let line: Vec<char> = if l.len() > 0 && l[l.len() - 1] == '\r' {
            slice_of(l, 0, l.len() - 1)
        } else {
            slice_of(l, 0, l.len())
        };
        proof {
            assert(views(p@)[j as int] == l@);
            if l@.len() > 0 {
                assert(l@.drop_last() == l@.subrange(0, l.len() - 1));
            }
            assert(l@.subrange(0, l.len() as int) == l@);
            assert(line@ == strip_cr(q[j as int]));
            assert(q.take(j + 1).map_values(|l: Seq<char>| strip_cr(l)) =~= q.take(
                j as int,
            ).map_values(|l: Seq<char>| strip_cr(l)).push(strip_cr(q[j as int])));
            lemma_views_push(r@, line);
        }
        r.push(line);
        j = j + 1;
    }
    proof {
        assert(q.take(n as int) == q);
    }
    r
}

// ---------------------------------------------------------------------------
// Case folding and replacement
// ---------------------------------------------------------------------------
/// What `char::to_lowercase` gives for the characters that can take part in
/// matching an ASCII lowercase keyword: ASCII capitals, U+0130 (which
/// lowercases to `i` followed by U+0307) and the Kelvin sign U+212A (which
/// lowercases to `k`). Every other character is kept as it is; its real
/// lowercase form holds no ASCII character either, so searching for an ASCII
/// keyword finds the same matches in both.
pub open spec fn fold_char(c: char) -> Seq<char> {
    if 'A' <= c && c <= 'Z' {
        seq![((c as int) + 32) as char]
    } else if c == '\u{130}' {
        seq!['i', '\u{307}']
    } else if c == '\u{212a}' {
        seq!['k']
    } else {
        seq![c]
    }
}

/// Case folding of a whole string, character by character.
pub open spec fn fold_lower(s: Seq<char>) -> Seq<char>
    decreases s.len(),
{
    if s.len() == 0 {
        Seq::empty()
    } else {
        fold_lower(s.drop_last()) + fold_char(s.last())
    }
}

fn fold_char_exec(out: &mut Vec<char>, c: char)
    ensures
        final(out)@ == old(out)@ + fold_char(c),
{
    if 'A' <= c && c <= 'Z' {
        let b: u8 = c as u8;
        let l: char = (b + 32) as char;
        proof {
            assert(l as int == c as int + 32);
        }
        out.push(l);
        proof {
            assert(fold_char(c) =~= seq![l]);
        }
    } else if c == '\u{130}' {
        out.push('i');
        out.push('\u{307}');
        proof {
            assert(old(out)@ + fold_char(c) =~= old(out)@.push('i').push('\u{307}'));
        }
    } else if c == '\u{212a}' {
        out.push('k');
        proof {
            assert(fold_char(c) =~= seq!['k']);
        }
    } else {
        out.push(c);
        proof {
            assert(fold_char(c) =~= seq![c]);
        }
    }
}

/// Lowercase form of `v` for keyword matching (see `fold_char`).
pub fn fold_lower_exec(v: &Vec<char>) -> (r: Vec<char>)
    ensures
        r@ == fold_lower(v@),
{
    let mut r: Vec<char> = Vec::new();
    let mut i: usize = 0;
    while i < v.len()
        invariant
            i <= v.len(),
            r@ == fold_lower(v@.take(i as int)),
        decreases v.len() - i,
    {
        proof {
            assert(v@.take(i + 1).drop_last() == v@.take(i as int));
            assert(v@.take(i + 1).last() == v@[i as int]);
        }
        fold_char_exec(&mut r, v[i]);
        i = i + 1;
    }
    proof {
        assert(v@.take(v.len() as int) == v@);
    }
    r
}

/// `str::replace(pat, "")`: removes the non-overlapping occurrences of
/// `pat`, found from left to right.
pub open spec fn remove_all(s: Seq<char>, pat: Seq<char>) -> Seq<char>
    decreases s.len(),
{
    if pat.len() == 0 || s.len() == 0 {
        s
    } else if starts_with(s, pat) {
        remove_all(s.skip(pat.len() as int), pat)
    } else {
        seq![s[0]] + remove_all(s.drop_first(), pat)
    }
}

/// `str::replace(pat, "")` on character vectors.
pub fn remove_all_exec(v: &Vec<char>, pat: &Vec<char>) -> (r: Vec<char>)
    ensures
        r@ == remove_all(v@, pat@),
{
    if pat.len() == 0 {
        return slice_of(v, 0, v.len());
    }
    let mut out: Vec<char> = Vec::new();
    let mut i: usize = 0;
    proof {
        assert(v@.skip(0) == v@);
    }
    while i < v.len()
        invariant
            pat.len() > 0,
            i <= v.len(),
            out@ + remove_all(v@.skip(i as int), pat@) == remove_all(v@, pat@),
        decreases v.len() - i,
    {
        let ghost rest = v@.skip(i as int);
        if occurs_at_exec(v, pat, i) {
            proof {
                assert(rest.take(pat.len() as int) == v@.subrange(i as int, i + pat.len()));
                assert(rest.skip(pat.len() as int) == v@.skip(i + pat.len()));
            }
            i = i + pat.len();
        } else {
            proof {
                assert(rest.take(pat.len() as int) == v@.subrange(i as int, i + pat.len())
                    || pat.len() > rest.len());
                assert(rest.drop_first() == v@.skip(i + 1));
                assert(out@.push(v@[i as int]) + remove_all(v@.skip(i + 1), pat@) =~= out@ + (
                seq![rest[0]] + remove_all(rest.drop_first(), pat@)));
            }
            out.push(v[i]);
            i = i + 1;
        }
    }
    proof {
        assert(v@.skip(i as int).len() == 0);
        assert(out@ + v@.skip(i as int) =~= out@);
    }
    out
}

// ---------------------------------------------------------------------------
// Terminal escapes
// ---------------------------------------------------------------------------
/// The text holds no ESC character, so no terminal escape sequence (colour
/// or otherwise) can be in it.
pub open spec fn escape_free(s: Seq<char>) -> bool {
    !s.contains('\x1b')
}

/// Joining two escape-free texts gives an escape-free text.
pub proof fn lemma_escape_free_concat(a: Seq<char>, b: Seq<char>)
    requires
        escape_free(a),
        escape_free(b),
    ensures
        escape_free(a + b),
{
    if (a + b).contains('\x1b') {
        let i = choose|i: int| 0 <= i < (a + b).len() && (a + b)[i] == '\x1b';
        if i < a.len() {
            assert(a[i] == '\x1b');
        } else {
            assert(b[i - a.len()] == '\x1b');
        }
    }
}

/// Decimal numbers are escape-free.
pub proof fn lemma_dec_escape_free(n: nat)
    ensures
        escape_free(dec(n)),
    decreases n,
{
    if n < 10 {
        assert(dec(n) =~= seq![digit_char(n)]);
    } else {
        lemma_dec_escape_free(n / 10);
        lemma_escape_free_concat(dec(n / 10), seq![digit_char(n % 10)]);
        assert(dec(n) =~= dec(n / 10) + seq![digit_char(n % 10)]);
    }
}

} // verus!
