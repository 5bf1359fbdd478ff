//! Byte counts for people to read.
//!
//! Sizes are shown in decimal (SI) units with one digit after the point, and
//! the shown value is that of the quotient in double precision: the nearest
//! binary64 number to `bytes / unit`, rounded half to even. Everything here
//! computes it with integers.

use crate::number::{decimal, push_decimal};
use vstd::arithmetic::power2::{lemma_pow2_adds, lemma_pow2_pos, lemma_pow2_strictly_increases, lemma2_to64, pow2};
use vstd::prelude::*;

verus! {

/// One kilobyte.
pub const KB: u64 = 1_000;

/// One megabyte.
pub const MB: u64 = 1_000_000;

/// One gigabyte.
pub const GB: u64 = 1_000_000_000;

/// Two to the power of fifty-two: a double has this many steps between two
/// consecutive powers of two.
pub const STEPS: u128 = 0x10_0000_0000_0000;

/// `n / d` rounded to the nearest integer, a tie going to the even one.
pub open spec fn round_half_even(n: nat, d: nat) -> nat {
    let q = n / d;
    let r = n % d;
    if 2 * r < d || (2 * r == d && q % 2 == 0) {
        q
    } else {
        q + 1
    }
}

/// The exponent of the leading binary digit of `n / d`: the largest `e` with
/// `d * 2^e <= n`, or zero where `n` is below `d`.
pub open spec fn exponent(n: nat, d: nat) -> nat
    decreases n - d,
{
    if d == 0 || n < 2 * d {
        0
    } else {
        1 + exponent(n, 2 * d)
    }
}

/// The binary64 number nearest to `n / d`, for `n` not below `d`, counted in
/// units of `1 / STEPS`.
pub open spec fn binary64(n: nat, d: nat) -> nat {
    let k = pow2(exponent(n, d));
    round_half_even(n * STEPS as nat, d * k) * k
}

/// The quotient `bytes / unit` as a double, counted in units of `1 / STEPS`.
pub open spec fn quotient(bytes: nat, unit: nat) -> nat {
    binary64(binary64(bytes, 1) / STEPS as nat, unit)
}

/// A byte count in words.
pub open spec fn size_text(bytes: int) -> Seq<char> {
    if bytes <= 0 {
        "unknown size"@
    } else if bytes >= GB {
        tenths_text(round_half_even(10 * quotient(bytes as nat, GB as nat), STEPS as nat)) + " GB"@
    } else if bytes >= MB {
        tenths_text(round_half_even(10 * quotient(bytes as nat, MB as nat), STEPS as nat)) + " MB"@
    } else if bytes >= KB {
        decimal(round_half_even(quotient(bytes as nat, KB as nat), STEPS as nat)) + " KB"@
    } else {
        decimal(bytes as nat) + " B"@
    }
}

/// A number of tenths, written with one digit after the point.
pub open spec fn tenths_text(tenths: nat) -> Seq<char> {
    decimal(tenths / 10) + "."@ + decimal(tenths % 10)
}

fn rounded(n: u128, d: u128) -> (r: u128)
    requires
        d > 0,
        d <= 0x8000_0000_0000_0000_0000_0000,
    ensures
        r == round_half_even(n as nat, d as nat),
{
    let q: u128 = n / d;
    let r: u128 = n % d;
    if 2 * r < d || (2 * r == d && q % 2 == 0) {
        q
    } else {
        proof {
            assert(q < u128::MAX) by (nonlinear_arith)
                requires
                    q == n / d,
                    d > 0,
                    n <= u128::MAX,
                    n % d > 0 || d > 1 || q < u128::MAX,
                    2 * (n % d) >= d,
            ;
        }
        q + 1
    }
}

/// The binary64 number nearest to `n / d`, counted in units of `1 / STEPS`.
fn nearest(n: u128, d: u128) -> (r: u128)
    requires
        0 < d <= GB,
        n <= 0x1_0000_0000_0000_0000,
    ensures
        r == binary64(n as nat, d as nat),
        r <= 0x20_0000_0000_0000 || r * d <= 0x20_0000_0000_0000 * n,
{
    let mut k: u128 = 1;
    let mut scaled: u128 = d;
    let ghost mut e: nat = 0;
    proof {
        lemma2_to64();
    }
    while scaled * 2 <= n
        invariant
            0 < d <= GB,
            n <= 0x1_0000_0000_0000_0000,
            scaled == d * k,
            k == pow2(e),
            1 <= k <= scaled,
            scaled <= n || k == 1,
            scaled <= 0x1_0000_0000_0000_0000,
            exponent(n as nat, d as nat) == e + exponent(n as nat, scaled as nat),
        decreases n - scaled,
    {
        proof {
            lemma_pow2_adds(1, e);
            lemma2_to64();
            assert(d * (k * 2) == (d * k) * 2) by (nonlinear_arith);
            e = e + 1;
        }
        k = k * 2;
        scaled = scaled * 2;
    }
    proof {
        assert(n * STEPS <= 0x1_0000_0000_0000_0000 * STEPS) by (nonlinear_arith)
            requires
                n <= 0x1_0000_0000_0000_0000,
                STEPS == 0x10_0000_0000_0000,
        ;
    }
    let m: u128 = rounded(n * STEPS, scaled);
    proof {
        assert((n * STEPS) / scaled as int <= 0x20_0000_0000_0000 - 1) by (nonlinear_arith)
            requires
                n < scaled * 2,
                STEPS == 0x10_0000_0000_0000,
                scaled > 0,
        ;
        assert(m <= 0x20_0000_0000_0000);
        assert(m * k <= 0x20_0000_0000_0000 * 0x1_0000_0000_0000_0000) by (nonlinear_arith)
            requires
                m <= 0x20_0000_0000_0000,
                k <= 0x1_0000_0000_0000_0000,
        ;
        if k == 1 {
            assert(m * k == m) by (nonlinear_arith)
                requires
                    k == 1,
            ;
        } else {
            assert((m * k) * d <= 0x20_0000_0000_0000 * n) by (nonlinear_arith)
                requires
                    m <= 0x20_0000_0000_0000,
                    d * k <= n,
            ;
        }
    }
    m * k
}

/// The quotient `bytes / unit` as a double, counted in units of `1 / STEPS`.
fn double_quotient(bytes: u64, unit: u64) -> (r: u128)
    requires
        KB <= unit <= GB,
        0 < bytes < 0x8000_0000_0000_0000,
    ensures
        r == quotient(bytes as nat, unit as nat),
        r <= 0x100_0000_0000_0000 * STEPS,
{
    let whole: u128 = nearest(bytes as u128, 1) / STEPS;
    assert(whole <= 0x1_0000_0000_0000_0000);
    let q = nearest(whole, unit as u128);
    proof {
        if q > 0x20_0000_0000_0000 {
            assert(q * 1000 <= q * unit) by (nonlinear_arith)
                requires
                    unit >= 1000,
            ;
        }
    }
    q
}

/// Appends a number of tenths, with one digit after the point.
fn push_tenths(out: &mut String, tenths: u64)
    ensures
        final(out)@ == old(out)@ + tenths_text(tenths as nat),
{
    push_decimal(out, tenths / 10);
    out.append(".");
    push_decimal(out, tenths % 10);
    assert(out@ =~= old(out)@ + tenths_text(tenths as nat));
}

/// Formats a byte count for status and confirmation messages.
///
/// Decimal units match the download cap and the Finder, so a file just over the
/// cap never reads as under it.
pub fn human_size(bytes: i64) -> (r: String)
    ensures
        r@ == size_text(bytes as int),
{
    if bytes <= 0 {
        return "unknown size".to_owned();
    }
    let b: u64 = bytes as u64;
    let mut out = String::new();
    assert(forall|s: Seq<char>| #[trigger] (Seq::<char>::empty() + s) =~= s);
    if b >= GB {
        push_tenths(&mut out, rounded(10 * double_quotient(b, GB), STEPS) as u64);
        out.append(" GB");
    } else if b >= MB {
        push_tenths(&mut out, rounded(10 * double_quotient(b, MB), STEPS) as u64);
        out.append(" MB");
    } else if b >= KB {
        push_decimal(&mut out, rounded(double_quotient(b, KB), STEPS) as u64);
        out.append(" KB");
    } else {
        push_decimal(&mut out, b);
        out.append(" B");
    }
    out
}

proof fn lemma_exponent(n: nat, d: nat)
    requires
        0 < d <= n,
    ensures
        d * pow2(exponent(n, d)) <= n < 2 * (d * pow2(exponent(n, d))),
    decreases n - d,
{
    lemma2_to64();
    if n >= 2 * d {
        lemma_exponent(n, 2 * d);
        let e = exponent(n, 2 * d);
        lemma_pow2_adds(1, e);
        assert((2 * d) * pow2(e) == d * (2 * pow2(e))) by (nonlinear_arith);
    } else {
        assert(d * 1 == d);
    }
}

/// An integer below two to the power of fifty-three is a double.
proof fn lemma_double_of_integer(n: nat)
    requires
        0 < n < 0x20_0000_0000_0000,
    ensures
        binary64(n, 1) == n * STEPS as nat,
{
    lemma_exponent(n, 1);
    let e = exponent(n, 1);
    let k = pow2(e);
    lemma_pow2_is(53, 0x20_0000_0000_0000);
    lemma_pow2_is(52, 0x10_0000_0000_0000);
    if e > 52 {
        if e > 53 {
            lemma_pow2_strictly_increases(53, e);
        }
    }
    let rest = pow2((52 - e) as nat);
    lemma_pow2_adds(e, (52 - e) as nat);
    lemma_pow2_pos(e);
    assert(n * (k * rest) == k * (n * rest)) by (nonlinear_arith);
    lemma_exact_division(k, n * rest);
    assert(1 * k == k);
    assert(round_half_even(n * STEPS as nat, k) == n * rest);
    assert((n * rest) * k == n * (k * rest)) by (nonlinear_arith);
}

proof fn lemma_pow2_is(e: nat, v: nat)
    requires
        (e == 53 && v == 0x20_0000_0000_0000) || (e == 52 && v == 0x10_0000_0000_0000),
    ensures
        pow2(e) == v,
{
    lemma2_to64();
    lemma_pow2_adds(32, (e - 32) as nat);
}

proof fn lemma_exact_division(k: nat, q: nat)
    requires
        k > 0,
    ensures
        (k * q) / k == q,
        (k * q) % k == 0,
{
    assert((k * q) / k == q && (k * q) % k == 0) by (nonlinear_arith)
        requires
            k > 0,
    ;
}

/// A size of at least `whole` megabytes never reads as less than that: a file
/// just over the twenty-megabyte cap is not shown as "19.x MB".
pub proof fn law_size_never_reads_low(bytes: nat, whole: nat)
    requires
        MB <= bytes < GB,
        whole * MB <= bytes,
    ensures
        size_text(bytes as int) == tenths_text(
            round_half_even(10 * quotient(bytes, MB as nat), STEPS as nat),
        ) + " MB"@,
        round_half_even(10 * quotient(bytes, MB as nat), STEPS as nat) >= 10 * whole,
{
    lemma_double_of_integer(bytes);
    lemma_exact_division(STEPS as nat, bytes);
    assert(binary64(bytes, 1) / STEPS as nat == bytes) by {
        assert(bytes * STEPS as nat == STEPS as nat * bytes) by (nonlinear_arith);
    }
    lemma_exponent(bytes, MB as nat);
    let e = exponent(bytes, MB as nat);
    let k = pow2(e);
    lemma_pow2_pos(e);
    lemma2_to64();
    lemma_pow2_is(52, 0x10_0000_0000_0000);
    if e > 10 {
        lemma_pow2_strictly_increases(10, e);
        assert(false);
    }
    let rest = pow2((52 - e) as nat);
    lemma_pow2_adds(e, (52 - e) as nat);
    let n = bytes * STEPS as nat;
    let d = MB as nat * k;
    assert(n >= (whole * rest) * d) by (nonlinear_arith)
        requires
            n == bytes * (k * rest),
            d == MB * k,
            whole * MB <= bytes,
    ;
    assert(n / d >= whole * rest) by (nonlinear_arith)
        requires
            n >= (whole * rest) * d,
            d > 0,
    ;
    let m = round_half_even(n, d);
    assert(m * k >= whole * STEPS) by (nonlinear_arith)
        requires
            m >= whole * rest,
            STEPS == k * rest,
    ;
}

/// A size that is not known says so, and a small one is given to the byte.
pub proof fn law_small_sizes_are_exact(bytes: int)
    ensures
        bytes <= 0 ==> size_text(bytes) == "unknown size"@,
        0 < bytes < 1000 ==> size_text(bytes) == decimal(bytes as nat) + " B"@,
{
}

} // verus!
