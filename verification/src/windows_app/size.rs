//! Sizes as they are shown to the user.
//!
//! A size is shown with one decimal in the largest unit of which there is at
//! least one. It is first rounded to 53 significant bits, and ties go to the
//! even neighbour both there and at the last decimal.

use crate::digits::{decimal, decimal_u64};
use crate::text::concat2;
use vstd::prelude::*;

verus! {

/// `n / d` rounded to the nearest integer, ties to the even one.
pub open spec fn rounded(n: nat, d: nat) -> nat {
    let quotient = n / d;
    let rest = n % d;
    if 2 * rest < d || (2 * rest == d && quotient % 2 == 0) {
        quotient
    } else {
        quotient + 1
    }
}

/// The distance of the numbers of 53 significant bits around `n`.
pub open spec fn spacing(n: nat) -> nat
    decreases n,
{
    if n < 0x20_0000_0000_0000 {
        1
    } else {
        2 * spacing(n / 2)
    }
}

/// The number of 53 significant bits that is nearest to `n`.
pub open spec fn significant(n: nat) -> nat {
    if n < 0x20_0000_0000_0000 {
        n
    } else {
        rounded(n, spacing(n)) * spacing(n)
    }
}

/// The size of each unit: a byte, and four steps of 1024.
pub open spec fn unit_size(unit: nat) -> nat
    decreases unit,
{
    if unit == 0 {
        1
    } else {
        1024 * unit_size((unit - 1) as nat)
    }
}

/// The largest of the five units of which `n` holds at least one.
pub open spec fn unit_for(n: nat) -> nat {
    if n >= 0x100_0000_0000 {
        4
    } else if n >= 0x4000_0000 {
        3
    } else if n >= 0x10_0000 {
        2
    } else if n >= 0x400 {
        1
    } else {
        0
    }
}

pub open spec fn unit_name(unit: nat) -> Seq<char> {
    if unit == 0 {
        "B"@
    } else if unit == 1 {
        "KB"@
    } else if unit == 2 {
        "MB"@
    } else if unit == 3 {
        "GB"@
    } else {
        "TB"@
    }
}

/// A number of tenths with its decimal.
pub open spec fn tenths_text(tenths: nat) -> Seq<char> {
    decimal(tenths / 10) + "."@ + decimal(tenths % 10)
}

/// A size as it is shown to the user.
pub open spec fn size_text(bytes: nat) -> Seq<char> {
    let value = significant(bytes);
    let unit = unit_for(value);
    if unit == 0 {
        decimal(bytes) + " B"@
    } else {
        tenths_text(rounded(10 * value, unit_size(unit))) + " "@ + unit_name(unit)
    }
}

fn round(n: u128, d: u128) -> (r: u128)
    requires
        0 < d <= 0x100_0000_0000,
        n <= 0x1000_0000_0000_0000_0000,
    ensures
        r == rounded(n as nat, d as nat),
        r <= n / d + 1,
        r * d <= n + d,
{
    let quotient: u128 = n / d;
    let rest: u128 = n % d;
    proof {
        vstd::arithmetic::div_mod::lemma_fundamental_div_mod(n as int, d as int);
        assert(quotient <= n && quotient * d <= n && (quotient + 1) * d <= n + d)
            by (nonlinear_arith)
            requires
                n == d * quotient + rest,
                rest >= 0,
                d > 0,
                quotient >= 0,
        ;
    }
    if 2 * rest < d || (2 * rest == d && quotient % 2 == 0) {
        quotient
    } else {
        quotient + 1
    }
}

fn spacing_of(n: u64) -> (r: u64)
    ensures
        r == spacing(n as nat),
        0 < r <= 4096,
        n >= 0x20_0000_0000_0000 ==> r <= n / 0x10_0000_0000_0000,
    decreases n,
{
    if n < 0x20_0000_0000_0000 {
        1
    } else {
        let half: u64 = spacing_of(n / 2);
        2 * half
    }
}

fn significant_of(n: u64) -> (r: u128)
    ensures
        r == significant(n as nat),
        r <= n + 4096,
{
    if n < 0x20_0000_0000_0000 {
        return n as u128;
    }
    let step: u64 = spacing_of(n);
    let steps: u128 = round(n as u128, step as u128);
    steps * (step as u128)
}

/// A size as it is shown to the user.
pub fn format_bytes(bytes: u64) -> (r: String)
    ensures
        r@ == size_text(bytes as nat),
{
    let value: u128 = significant_of(bytes);
    proof {
        reveal_with_fuel(unit_size, 5);
    }
    if value < 0x400 {
        return concat2(decimal_u64(bytes).as_str(), " B");
    }
    let (size, name): (u128, &str) = if value >= 0x100_0000_0000 {
        (0x100_0000_0000, "TB")
    } else if value >= 0x4000_0000 {
        (0x4000_0000, "GB")
    } else if value >= 0x10_0000 {
        (0x10_0000, "MB")
    } else {
        (0x400, "KB")
    };
    let tenths: u128 = round(10 * value, size);
    assert(10 * value / size as int <= 0x1_0000_0000_0000_0000) by (nonlinear_arith)
        requires
            value <= 0x1_0000_0000_0000_0000 + 4096,
            size >= 1024,
    ;
    let whole = decimal_u64((tenths / 10) as u64);
    let rest = decimal_u64((tenths % 10) as u64);
    let mut text = whole;
    text.append(".");
    text.append(rest.as_str());
    text.append(" ");
    text.append(name);
    text
}

/// A size is shown in the largest unit of which it holds at least one.
pub proof fn law_unit_is_the_largest(n: nat)
    ensures
        unit_for(n) > 0 ==> unit_size(unit_for(n)) <= n,
        unit_for(n) < 4 ==> n < unit_size(unit_for(n) + 1),
{
    reveal_with_fuel(unit_size, 6);
}

/// Rounding moves a value by no more than half a step.
pub proof fn law_rounding_is_nearest(n: nat, d: nat)
    requires
        d > 0,
    ensures
        -(d as int) <= 2 * (rounded(n, d) * d - n) <= d,
{
    let quotient = n / d;
    vstd::arithmetic::div_mod::lemma_fundamental_div_mod(n as int, d as int);
    assert(quotient * d == d * quotient && (quotient + 1) * d == d * quotient + d)
        by (nonlinear_arith);
}

/// Rounding to 53 significant bits moves a size by no more than half the distance
/// of such numbers, and sizes below eight pebibytes not at all.
pub proof fn law_significant_is_near(n: nat)
    ensures
        n < 0x20_0000_0000_0000 ==> significant(n) == n,
        -(spacing(n) as int) <= 2 * (significant(n) - n) <= spacing(n),
{
    if n >= 0x20_0000_0000_0000 {
        lemma_spacing_positive(n);
        law_rounding_is_nearest(n, spacing(n));
    }
}

proof fn lemma_spacing_positive(n: nat)
    ensures
        spacing(n) > 0,
    decreases n,
{
    if n >= 0x20_0000_0000_0000 {
        lemma_spacing_positive(n / 2);
    }
}

} // verus!
