//! Arithmetic on counters that stops at the ends of the 64-bit range.

use vstd::prelude::*;

verus! {

/// Addition that stops at the largest 64-bit value.
pub open spec fn capped_sum(a: u64, b: u64) -> u64 {
    if a + b > u64::MAX {
        u64::MAX
    } else {
        (a + b) as u64
    }
}

/// Subtraction that stops at zero.
pub open spec fn floored_difference(a: u64, b: u64) -> u64 {
    if a < b {
        0
    } else {
        (a - b) as u64
    }
}

/// Multiplication that stops at the largest 64-bit value.
pub open spec fn capped_product(a: u64, b: u64) -> u64 {
    if a * b > u64::MAX {
        u64::MAX
    } else {
        (a * b) as u64
    }
}

/// The larger of two values.
pub open spec fn larger(a: u64, b: u64) -> u64 {
    if a < b {
        b
    } else {
        a
    }
}

/// The smaller of two values.
pub open spec fn smaller(a: u64, b: u64) -> u64 {
    if a < b {
        a
    } else {
        b
    }
}

/// Adds, stopping at the largest 64-bit value.
pub fn plus(a: u64, b: u64) -> (r: u64)
    ensures
        r == capped_sum(a, b),
        a + b <= u64::MAX ==> r == a + b,
        a + b > u64::MAX ==> r == u64::MAX,
{
    if a > u64::MAX - b {
        u64::MAX
    } else {
        a + b
    }
}

/// Subtracts, stopping at zero.
pub fn minus(a: u64, b: u64) -> (r: u64)
    ensures
        r == floored_difference(a, b),
        a >= b ==> r + b == a,
        a < b ==> r == 0,
{
    if a < b {
        0
    } else {
        a - b
    }
}

/// Multiplies, stopping at the largest 64-bit value.
pub fn times(a: u64, b: u64) -> (r: u64)
    ensures
        r == capped_product(a, b),
        a * b <= u64::MAX ==> r == a * b,
        a * b > u64::MAX ==> r == u64::MAX,
{
    match a.checked_mul(b) {
        Some(product) => product,
        None => u64::MAX,
    }
}

/// Returns the larger of two values.
pub fn max_of(a: u64, b: u64) -> (r: u64)
    ensures
        r == larger(a, b),
        a <= r && b <= r && (r == a || r == b),
{
    if a < b {
        b
    } else {
        a
    }
}

/// Returns the smaller of two values.
pub fn min_of(a: u64, b: u64) -> (r: u64)
    ensures
        r == smaller(a, b),
        r <= a && r <= b && (r == a || r == b),
{
    if a < b {
        a
    } else {
        b
    }
}

/// Capped addition does not depend on the order of its terms.
pub proof fn capped_sum_commutes(a: u64, b: u64)
    ensures
        capped_sum(a, b) == capped_sum(b, a),
{
}

/// Capped addition does not depend on how its terms are grouped.
pub proof fn capped_sum_associates(a: u64, b: u64, c: u64)
    ensures
        capped_sum(capped_sum(a, b), c) == capped_sum(a, capped_sum(b, c)),
{
}

/// Counters are exact as long as the result fits, and stop at the nearest end where it does not.
pub proof fn counters_are_exact_within_range(a: u64, b: u64)
    ensures
        a + b <= u64::MAX ==> capped_sum(a, b) == a + b,
        a + b > u64::MAX ==> capped_sum(a, b) == u64::MAX,
        a >= b ==> floored_difference(a, b) + b == a,
        a < b ==> floored_difference(a, b) == 0,
        a * b <= u64::MAX ==> capped_product(a, b) == a * b,
        a * b > u64::MAX ==> capped_product(a, b) == u64::MAX,
        a <= larger(a, b) && b <= larger(a, b) && (larger(a, b) == a || larger(a, b) == b),
        smaller(a, b) <= a && smaller(a, b) <= b && (smaller(a, b) == a || smaller(a, b) == b),
{
}

} // verus!
