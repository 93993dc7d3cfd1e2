//! Human-readable quantities: byte counts and durations.
use vstd::prelude::*;

use crate::text::{dec, digit_char, push_decimal, push_str, push_two_digits, string_of};

verus! {

/// `2^e`.
pub open spec fn two_pow(e: nat) -> nat
    decreases e,
{
    if e == 0 {
        1
    } else {
        2 * two_pow((e - 1) as nat)
    }
}

/// `x / d` rounded to the nearest integer, ties to the even one.
pub open spec fn div_round_half_even(x: nat, d: nat) -> nat {
    let q = x / d;
    let r = x % d;
    if 2 * r > d || (2 * r == d && q % 2 == 1) {
        q + 1
    } else {
        q
    }
}

/// The smallest `e >= k` (and at most 11) with `b < 2^(53 + e)`: numbers
/// below `2^(53 + e)` and at least `2^(52 + e)` are spaced `2^e` apart in
/// `f64`.
pub open spec fn f64_exp_from(b: nat, k: nat) -> nat
    decreases 11 - k,
{
    if k >= 11 || b < two_pow(53 + k) {
        k
    } else {
        f64_exp_from(b, k + 1)
    }
}

/// The value of `b as f64` for a `u64` `b`: `b` rounded to the nearest
/// number with at most 53 significant bits, ties to an even significand.
pub open spec fn f64_of(b: nat) -> nat {
    let p = two_pow(f64_exp_from(b, 0));
    div_round_half_even(b, p) * p
}

/// The two ASCII digits of `n < 100`.
pub open spec fn two_digits(n: nat) -> Seq<char> {
    seq![digit_char(n / 10), digit_char(n % 10)]
}

/// `format!("{:.2}", m as f64 / d as f64)` for a value `m / d` that `f64`
/// holds exactly: the quotient rounded to two decimals, ties to even.
pub open spec fn fixed2(m: nat, d: nat) -> Seq<char> {
    let n = div_round_half_even(m * 100, d);
    dec(n / 100) + seq!['.'] + two_digits(n % 100)
}

/// The text of a byte count: below 1024 the plain number of bytes, then
/// KB, MB and GB (powers of 1024) with two decimals.
pub open spec fn human_bytes_text(b: u64) -> Seq<char> {
    if b >= 1073741824 {
        fixed2(f64_of(b as nat), 1073741824) + " GB"@
    } else if b >= 1048576 {
        fixed2(f64_of(b as nat), 1048576) + " MB"@
    } else if b >= 1024 {
        fixed2(f64_of(b as nat), 1024) + " KB"@
    } else {
        dec(b as nat) + " B"@
    }
}

fn div_round_half_even_exec(x: u128, d: u128) -> (r: u128)
    requires
        1 <= d <= 0x1_0000_0000_0000_0000,
        x <= 0x10_0000_0000_0000_0000_0000_0000,
    ensures
        r == div_round_half_even(x as nat, d as nat),
        r <= x,
{
    let q = x / d;
    let r = x % d;
    proof {
        assert(q <= x) by (nonlinear_arith)
            requires
                q == x / d,
                d >= 1,
        ;
        assert(d >= 2 ==> q < x || x == 0) by (nonlinear_arith)
            requires
                q == x / d,
                d >= 1,
        ;
    }
    if 2 * r > d || (2 * r == d && q % 2 == 1) {
        proof {
            assert(d >= 2);
            assert(x >= q + 1) by (nonlinear_arith)
                requires
                    q == x / d,
                    r == x % d,
                    d >= 2,
                    r >= 1,
            ;
        }
        q + 1
    } else {
        q
    }
}

proof fn lemma_two_pow_mono(a: nat, b: nat)
    requires
        a <= b,
    ensures
        1 <= two_pow(a) <= two_pow(b),
    decreases b,
{
    if b > a {
        lemma_two_pow_mono(a, (b - 1) as nat);
    } else if a > 0 {
        lemma_two_pow_mono(0, (a - 1) as nat);
    }
}

proof fn lemma_two_pow_constants()
    ensures
        two_pow(11) == 0x800,
        two_pow(53) == 0x20_0000_0000_0000,
{
    reveal_with_fuel(two_pow, 12);
    assert(two_pow(11) == 0x800);
    reveal_with_fuel(two_pow, 54);
}

/// `b as f64`, as the exact integer it stands for.
fn f64_of_exec(b: u64) -> (m: u128)
    ensures
        m == f64_of(b as nat),
        m <= 0x8000_0000_0000_0000_0000,
{
    proof {
        lemma_two_pow_constants();
    }
    let mut lim: u128 = 0x20_0000_0000_0000;
    let mut e: usize = 0;
    let mut p: u128 = 1;
    while e < 11 && (b as u128) >= lim
        invariant
            e <= 11,
            p == two_pow(e as nat),
            lim == two_pow((53 + e) as nat),
            lim == p * 0x20_0000_0000_0000,
            two_pow(11) == 0x800,
            f64_exp_from(b as nat, 0) == f64_exp_from(b as nat, e as nat),
        decreases 11 - e,
    {
        proof {
            assert(two_pow((53 + e + 1) as nat) == 2 * two_pow((53 + e) as nat));
            assert(two_pow((e + 1) as nat) == 2 * two_pow(e as nat));
            lemma_two_pow_mono((e + 1) as nat, 11);
        }
        e = e + 1;
        p = p * 2;
        lim = lim * 2;
    }
    proof {
        lemma_two_pow_mono(e as nat, 11);
    }
    let q = div_round_half_even_exec(b as u128, p);
    proof {
        assert(q * p <= 0x8000_0000_0000_0000_0000) by (nonlinear_arith)
            requires
                q <= b,
                b < 0x1_0000_0000_0000_0000,
                1 <= p <= 0x800,
        ;
    }
    q * p
}

/// Appends `fixed2(m, d)`.
fn push_fixed2(out: &mut Vec<char>, m: u128, d: u128)
    requires
        m <= 0x8000_0000_0000_0000_0000,
        1 <= d <= 0x1_0000_0000_0000_0000,
    ensures
        final(out)@ == old(out)@ + fixed2(m as nat, d as nat),
{
    let n = div_round_half_even_exec(m * 100, d);
    push_decimal(out, n / 100);
    out.push('.');
    push_two_digits(out, n % 100);
    proof {
        assert(old(out)@ + fixed2(m as nat, d as nat) =~= old(out)@ + dec((n / 100) as nat) + seq!['.'] + two_digits((n % 100) as nat));
    }
}

/// Human-readable byte count: `500 B`, `1.00 KB`, `1.46 MB`, `1.00 GB`.
pub fn human_bytes(b: u64) -> (s: String)
    ensures
        s@ == human_bytes_text(b),
{
    let mut out: Vec<char> = Vec::new();
    if b >= 1073741824 {
        let m = f64_of_exec(b);
        push_fixed2(&mut out, m, 1073741824);
        push_str(&mut out, " GB");
    } else if b >= 1048576 {
        let m = f64_of_exec(b);
        push_fixed2(&mut out, m, 1048576);
        push_str(&mut out, " MB");
    } else if b >= 1024 {
        let m = f64_of_exec(b);
        push_fixed2(&mut out, m, 1024);
        push_str(&mut out, " KB");
    } else {
        push_decimal(&mut out, b as u128);
        push_str(&mut out, " B");
    }
    proof {
        assert(out@ == human_bytes_text(b));
    }
    string_of(&out)
}

/// The text of an uptime: whole hours, then minutes and seconds.
pub open spec fn uptime_text(secs: u64) -> Seq<char> {
    dec((secs / 3600) as nat) + "h "@ + dec(((secs % 3600) / 60) as nat) + "m "@ + dec(
        (secs % 60) as nat,
    ) + "s"@
}

/// Uptime as `{hours}h {minutes}m {seconds}s`.
pub fn format_uptime(secs: u64) -> (s: String)
    ensures
        s@ == uptime_text(secs),
{
    let mut out: Vec<char> = Vec::new();
    push_decimal(&mut out, (secs / 3600) as u128);
    push_str(&mut out, "h ");
    push_decimal(&mut out, ((secs % 3600) / 60) as u128);
    push_str(&mut out, "m ");
    push_decimal(&mut out, (secs % 60) as u128);
    push_str(&mut out, "s");
    string_of(&out)
}

/// `n` hundredths of a unit of `d` bytes is the nearest to `x` hundredths
/// of a byte: off by at most half a hundredth of the unit.
pub open spec fn nearest_hundredths(n: nat, x: nat, d: nat) -> bool {
    2 * n * d <= 2 * x + d && 2 * x <= 2 * n * d + d
}

proof fn lemma_rounding_nearest(x: nat, d: nat)
    requires
        d >= 2,
    ensures
        nearest_hundredths(div_round_half_even(x, d), x, d),
{
    let q = x / d;
    let r = x % d;
    vstd::arithmetic::div_mod::lemma_fundamental_div_mod(x as int, d as int);
    vstd::arithmetic::div_mod::lemma_mod_bound(x as int, d as int);
    let n = div_round_half_even(x, d);
    assert(n == q + 1 ==> 2 * r >= d);
    assert(n == q ==> 2 * r <= d);
    assert(2 * n * d <= 2 * x + d && 2 * x <= 2 * n * d + d) by (nonlinear_arith)
        requires
            x == d * q + r,
            0 <= r < d,
            n == q || n == q + 1,
            n == q + 1 ==> 2 * r >= d,
            n == q ==> 2 * r <= d,
    ;
}

/// A byte count below 2^53 (so that `f64` holds it exactly) is shown in the
/// largest of B, KB, MB, GB that it reaches, with the value rounded to the
/// nearest hundredth of that unit.
pub proof fn law_human_bytes_nearest(b: u64)
    requires
        b < 0x20_0000_0000_0000,
    ensures
        b < 1024 ==> human_bytes_text(b) == dec(b as nat) + " B"@,
        1024 <= b < 1048576 ==> exists|n: nat|
            human_bytes_text(b) == dec(n / 100) + seq!['.'] + two_digits(n % 100) + " KB"@
                && #[trigger] nearest_hundredths(n, 100 * b as nat, 1024),
        1048576 <= b < 1073741824 ==> exists|n: nat|
            human_bytes_text(b) == dec(n / 100) + seq!['.'] + two_digits(n % 100) + " MB"@
                && #[trigger] nearest_hundredths(n, 100 * b as nat, 1048576),
        1073741824 <= b ==> exists|n: nat|
            human_bytes_text(b) == dec(n / 100) + seq!['.'] + two_digits(n % 100) + " GB"@
                && #[trigger] nearest_hundredths(n, 100 * b as nat, 1073741824),
{
    lemma_two_pow_constants();
    assert(f64_exp_from(b as nat, 0) == 0);
    assert(two_pow(0) == 1);
    assert(div_round_half_even(b as nat, 1) == b) by {
        vstd::arithmetic::div_mod::lemma_fundamental_div_mod(b as int, 1);
    }
    assert(f64_of(b as nat) == b);
    if 1024 <= b < 1048576 {
        lemma_rounding_nearest(100 * b as nat, 1024);
        let n = div_round_half_even(100 * b as nat, 1024);
        assert(human_bytes_text(b) == dec(n / 100) + seq!['.'] + two_digits(n % 100) + " KB"@);
    } else if 1048576 <= b < 1073741824 {
        lemma_rounding_nearest(100 * b as nat, 1048576);
        let n = div_round_half_even(100 * b as nat, 1048576);
        assert(human_bytes_text(b) == dec(n / 100) + seq!['.'] + two_digits(n % 100) + " MB"@);
    } else if 1073741824 <= b {
        lemma_rounding_nearest(100 * b as nat, 1073741824);
        let n = div_round_half_even(100 * b as nat, 1073741824);
        assert(human_bytes_text(b) == dec(n / 100) + seq!['.'] + two_digits(n % 100) + " GB"@);
    }
}

/// The uptime text reads back to the uptime: it names hours, minutes and
/// seconds that add up to it, with minutes and seconds below 60 (the
/// hours take the rest, not rounded).
pub proof fn law_uptime_parts(secs: u64, h: nat, m: nat, s: nat)
    requires
        h * 3600 + m * 60 + s == secs,
        m < 60,
        s < 60,
    ensures
        uptime_text(secs) == dec(h) + "h "@ + dec(m) + "m "@ + dec(s) + "s"@,
{
    let r = m * 60 + s;
    assert(r < 3600);
    vstd::arithmetic::div_mod::lemma_fundamental_div_mod_converse(secs as int, 3600, h as int, r as int);
    vstd::arithmetic::div_mod::lemma_fundamental_div_mod_converse(r as int, 60, m as int, s as int);
    vstd::arithmetic::div_mod::lemma_fundamental_div_mod_converse(
        secs as int,
        60,
        (h * 60 + m) as int,
        s as int,
    );
}

} // verus!
