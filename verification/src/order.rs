//! Text order (as `str` compares: character by character, by code point,
//! a proper prefix first) and listing positions in that order.
use vstd::prelude::*;

verus! {

/// `a` sorts strictly before `b`: at the first place where they differ the
/// character of `a` has the lower code point, or `a` ends first.
pub open spec fn text_less(a: Seq<char>, b: Seq<char>) -> bool
    decreases a.len(),
{
    if b.len() == 0 {
        false
    } else if a.len() == 0 {
        true
    } else if a[0] != b[0] {
        a[0] < b[0]
    } else {
        text_less(a.drop_first(), b.drop_first())
    }
}

/// The order is transitive.
pub proof fn lemma_text_less_transitive(a: Seq<char>, b: Seq<char>, c: Seq<char>)
    requires
        text_less(a, b),
        text_less(b, c),
    ensures
        text_less(a, c),
    decreases a.len(),
{
    if a.len() > 0 && b.len() > 0 && c.len() > 0 && a[0] == b[0] && b[0] == c[0] {
        lemma_text_less_transitive(a.drop_first(), b.drop_first(), c.drop_first());
    }
}

/// Of two different texts exactly one sorts first; no text sorts before
/// itself.
pub proof fn lemma_text_less_total(a: Seq<char>, b: Seq<char>)
    ensures
        a != b ==> text_less(a, b) || text_less(b, a),
        !(text_less(a, b) && text_less(b, a)),
    decreases a.len(),
{
    if a.len() == 0 && b.len() == 0 {
        assert(a =~= b);
    }
    if a.len() > 0 && b.len() > 0 && a[0] == b[0] {
        lemma_text_less_total(a.drop_first(), b.drop_first());
        if a.drop_first() == b.drop_first() {
            assert forall|k: int| 0 <= k < a.len() implies a[k] == b[k] by {
                if k > 0 {
                    assert(a[k] == a.drop_first()[k - 1]);
                    assert(b[k] == b.drop_first()[k - 1]);
                }
            }
            assert(a =~= b);
        }
    }
}

proof fn lemma_text_less_skip(a: Seq<char>, b: Seq<char>, i: int)
    requires
        0 <= i <= a.len(),
        i <= b.len(),
        forall|k: int| 0 <= k < i ==> a[k] == b[k],
    ensures
        text_less(a, b) == text_less(a.skip(i), b.skip(i)),
    decreases i,
{
    if i > 0 {
        lemma_text_less_skip(a.drop_first(), b.drop_first(), i - 1);
        assert(a.drop_first().skip(i - 1) =~= a.skip(i));
        assert(b.drop_first().skip(i - 1) =~= b.skip(i));
    } else {
        assert(a.skip(0) =~= a);
        assert(b.skip(0) =~= b);
    }
}

/// Whether `a` sorts strictly before `b`.
pub fn text_less_exec(a: &Vec<char>, b: &Vec<char>) -> (r: bool)
    ensures
        r == text_less(a@, b@),
{
    let mut i: usize = 0;
    while i < a.len() && i < b.len() && a[i] == b[i]
        invariant
            i <= a.len(),
            i <= b.len(),
            forall|k: int| 0 <= k < i ==> a@[k] == b@[k],
        decreases a.len() - i,
    {
        i = i + 1;
    }
    proof {
        lemma_text_less_skip(a@, b@, i as int);
    }
    if i == b.len() {
        false
    } else if i == a.len() {
        true
    } else {
        a[i] < b[i]
    }
}

/// Position `i` comes before position `j` when its key pair sorts first (by
/// the first text, then the second), and by position where the pairs are
/// equal: the order of a stable sort by the pairs.
pub open spec fn pair_before(ks: Seq<(Seq<char>, Seq<char>)>, i: int, j: int) -> bool {
    text_less(ks[i].0, ks[j].0) || (ks[i].0 == ks[j].0 && (text_less(ks[i].1, ks[j].1) || (
    ks[i].1 == ks[j].1 && i < j)))
}

/// `r` lists every position of `ks` once, in the order of `pair_before`.
pub open spec fn is_pair_order(ks: Seq<(Seq<char>, Seq<char>)>, r: Seq<usize>) -> bool {
    &&& r.len() == ks.len()
    &&& forall|k: int| 0 <= k < r.len() ==> (#[trigger] r[k]) < ks.len()
    &&& forall|k: int, l: int| 0 <= k < l < r.len() ==> pair_before(ks, r[k] as int, r[l] as int)
    &&& forall|i: usize| i < ks.len() ==> #[trigger] r.contains(i)
}

proof fn lemma_pair_before_order(ks: Seq<(Seq<char>, Seq<char>)>, i: int, j: int, m: int)
    ensures
        i != j ==> pair_before(ks, i, j) || pair_before(ks, j, i),
        !(pair_before(ks, i, j) && pair_before(ks, j, i)),
        pair_before(ks, i, j) && pair_before(ks, j, m) ==> pair_before(ks, i, m),
{
    lemma_text_less_total(ks[i].0, ks[j].0);
    lemma_text_less_total(ks[i].1, ks[j].1);
    lemma_text_less_total(ks[j].0, ks[m].0);
    lemma_text_less_total(ks[j].1, ks[m].1);
    lemma_text_less_total(ks[i].0, ks[m].0);
    lemma_text_less_total(ks[i].1, ks[m].1);
    if text_less(ks[i].0, ks[j].0) && text_less(ks[j].0, ks[m].0) {
        lemma_text_less_transitive(ks[i].0, ks[j].0, ks[m].0);
    }
    if text_less(ks[i].1, ks[j].1) && text_less(ks[j].1, ks[m].1) {
        lemma_text_less_transitive(ks[i].1, ks[j].1, ks[m].1);
    }
}

/// The views of a list of key pairs.
pub open spec fn pair_views(ks: Seq<(Vec<char>, Vec<char>)>) -> Seq<(Seq<char>, Seq<char>)> {
    Seq::new(ks.len(), |i: int| (ks[i].0@, ks[i].1@))
}

fn pair_before_exec(ks: &Vec<(Vec<char>, Vec<char>)>, i: usize, j: usize) -> (b: bool)
    requires
        i < ks.len(),
        j < ks.len(),
    ensures
        b == pair_before(pair_views(ks@), i as int, j as int),
{
    let a = &ks[i];
    let c = &ks[j];
    if text_less_exec(&a.0, &c.0) {
        return true;
    }
    if text_less_exec(&c.0, &a.0) {
        return false;
    }
    proof {
        lemma_text_less_total(a.0@, c.0@);
    }
    if text_less_exec(&a.1, &c.1) {
        return true;
    }
    if text_less_exec(&c.1, &a.1) {
        return false;
    }
    proof {
        lemma_text_less_total(a.1@, c.1@);
    }
    i < j
}

/// The positions of `ks` in the order of a stable sort by the key pairs.
pub fn pair_order(ks: &Vec<(Vec<char>, Vec<char>)>) -> (r: Vec<usize>)
    ensures
        is_pair_order(pair_views(ks@), r@),
{
    let ghost vs = pair_views(ks@);
    let mut r: Vec<usize> = Vec::new();
    let mut i: usize = 0;
    while i < ks.len()
        invariant
            vs == pair_views(ks@),
            i <= ks.len(),
            r.len() == i,
            forall|k: int| 0 <= k < r.len() ==> (#[trigger] r[k]) < i,
            forall|k: int, l: int| 0 <= k < l < r.len() ==> pair_before(vs, r[k] as int, r[l] as int),
            forall|m: usize| m < i ==> #[trigger] r@.contains(m),
        decreases ks.len() - i,
    {
        let mut p: usize = 0;
        while p < r.len() && pair_before_exec(ks, r[p], i)
            invariant
                vs == pair_views(ks@),
                i < ks.len(),
                r.len() == i,
                forall|k: int| 0 <= k < r.len() ==> (#[trigger] r[k]) < i,
                p <= r.len(),
                forall|k: int| 0 <= k < p ==> pair_before(vs, #[trigger] r[k] as int, i as int),
            decreases r.len() - p,
        {
            p = p + 1;
        }
        proof {
            assert forall|k: int| p <= k < r.len() implies pair_before(vs, i as int, #[trigger] r[k] as int) by {
                lemma_pair_before_order(vs, r[p as int] as int, i as int, 0);
                if k > p {
                    lemma_pair_before_order(vs, i as int, r[p as int] as int, r[k] as int);
                }
            }
        }
        let ghost old_r = r@;
        r.insert(p, i);
        proof {
            assert(r@ == old_r.insert(p as int, i));
            assert forall|m: usize| m < i + 1 implies #[trigger] r@.contains(m) by {
                if m == i {
                    assert(r@[p as int] == i);
                } else {
                    assert(old_r.contains(m));
                    let k = choose|k: int| 0 <= k < old_r.len() && old_r[k] == m;
                    if k < p {
                        assert(r@[k] == m);
                    } else {
                        assert(r@[k + 1] == m);
                    }
                }
            }
        }
        i = i + 1;
    }
    r
}

} // verus!
