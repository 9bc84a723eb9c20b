//! The order in which a bulk load writes its records.

use crate::workloads::chance::below;
use rand::rngs::StdRng;
use vstd::arithmetic::div_mod::{lemma_fundamental_div_mod, lemma_small_mod};
use vstd::prelude::*;

verus! {

/// The greatest common divisor of two numbers.
pub open spec fn gcd(a: nat, b: nat) -> nat
    decreases b,
{
    if b == 0 {
        a
    } else {
        gcd(b, a % b)
    }
}

fn common_divisor(a: u64, b: u64) -> (r: u64)
    ensures
        r == gcd(a as nat, b as nat),
{
    let mut x: u64 = a;
    let mut y: u64 = b;
    while y != 0
        invariant
            gcd(x as nat, y as nat) == gcd(a as nat, b as nat),
        decreases y,
    {
        let rest: u64 = x % y;
        x = y;
        y = rest;
    }
    x
}

/// One more than the largest 64-bit number.
pub open spec fn word() -> int {
    0x1_0000_0000_0000_0000
}

/// The record that is written at a place of the order; the product wraps around.
pub open spec fn bulk_record(sequence: u64, multiplier: u64, offset: u64, count: u64) -> int {
    (sequence * multiplier + offset) % word() % (count as int)
}

/// Returns the record that is written at a place of the order.
pub fn bulk_id(sequence: u64, multiplier: u64, offset: u64, count: u64) -> (r: u64)
    requires
        sequence < count,
        offset < count,
    ensures
        r == bulk_record(sequence, multiplier, offset, count),
        r < count,
{
    proof {
        assert(sequence * multiplier <= 0xffff_ffff_ffff_ffff * 0xffff_ffff_ffff_ffff)
            by (nonlinear_arith)
            requires
                sequence <= 0xffff_ffff_ffff_ffff,
                multiplier <= 0xffff_ffff_ffff_ffff,
        ;
        assert(0 <= sequence * multiplier) by (nonlinear_arith)
            requires
                0 <= sequence,
                0 <= multiplier,
        ;
    }
    let place: u128 = sequence as u128 * multiplier as u128 + offset as u128;
    let wrapped: u128 = place % 0x1_0000_0000_0000_0000;
    (wrapped % count as u128) as u64
}

/// A start and a stride through the records that meets each once.
#[derive(Debug, Clone, Copy, PartialEq, Eq, Structural)]
pub struct BulkOrder {
    pub count: u64,
    pub multiplier: u64,
    pub offset: u64,
}

impl BulkOrder {
    /// The stride has no divisor in common with the number of records.
    pub open spec fn wf(self) -> bool {
        &&& self.count > 0 ==> self.offset < self.count
        &&& gcd(self.multiplier as nat, self.count as nat) == 1 || self.count == 0
    }
}

/// The stride that a start leads to: the next number below a count that has no divisor in common
/// with it, or one where there is none.
pub open spec fn stride_from(start: nat, count: nat) -> nat
    decreases count - start,
{
    if start >= count {
        1
    } else if gcd(start, count) == 1 {
        start
    } else {
        stride_from(start + 1, count)
    }
}

/// A stride is the least number from its start on, and below the count, that has no divisor in
/// common with the count; where there is none it is one. Either way the two have none in common.
pub proof fn strides_are_least(start: nat, count: nat)
    requires
        count > 0,
    ensures
        gcd(stride_from(start, count), count) == 1,
        forall|m: nat|
            start <= m < count && #[trigger] gcd(m, count) == 1 ==> start <= stride_from(
                start,
                count,
            ) <= m,
        (forall|m: nat| start <= m < count ==> #[trigger] gcd(m, count) != 1) ==> stride_from(
            start,
            count,
        ) == 1,
    decreases count - start,
{
    if start >= count {
        one_is_coprime(count);
    } else if gcd(start, count) != 1 {
        strides_are_least(start + 1, count);
    }
}

/// Finds the stride that a start leads to.
fn coprime_from(start: u64, count: u64) -> (r: u64)
    requires
        1 <= start,
        count >= 1,
        start <= count,
    ensures
        r == stride_from(start as nat, count as nat),
        gcd(r as nat, count as nat) == 1,
{
    proof {
        strides_are_least(start as nat, count as nat);
    }
    let mut candidate: u64 = start;
    while candidate < count
        invariant
            1 <= candidate <= count,
            stride_from(start as nat, count as nat) == stride_from(
                candidate as nat,
                count as nat,
            ),
        decreases count - candidate,
    {
        if common_divisor(candidate, count) == 1 {
            return candidate;
        }
        candidate += 1;
    }
    1
}

proof fn one_is_coprime(n: nat)
    requires
        n >= 1,
    ensures
        gcd(1, n) == 1,
{
    reveal_with_fuel(gcd, 3);
    if n == 1 {
        assert(1nat % 1nat == 0);
    } else {
        lemma_small_mod(1, n);
        assert(n % 1 == 0);
    }
}

/// Makes the order of a load from a number that its stride is looked for from, and its first
/// record.
pub fn order_from(count: u64, start: u64, offset: u64) -> (r: BulkOrder)
    requires
        count > 0,
        1 <= start <= count,
        offset < count,
    ensures
        r.wf(),
        r.count == count,
        r.offset == offset,
        r.multiplier == stride_from(start as nat, count as nat),
{
    BulkOrder { count, multiplier: coprime_from(start, count), offset }
}

/// Whether an order can be drawn for a number of records.
pub open spec fn can_order(count: u64, order: BulkOrder) -> bool {
    order.count == count && order.offset < count && exists|start: u64|
        1 <= start <= count && order.multiplier == #[trigger] stride_from(
            start as nat,
            count as nat,
        )
}

/// Draws a start and a stride for a number of records.
///
/// Which are drawn is left to the generator.
pub fn choose_order(count: u64, rng: &mut StdRng) -> (r: BulkOrder)
    ensures
        r.wf(),
        count > 0 ==> can_order(count, r),
        count == 0 ==> r == (BulkOrder { count: 0, multiplier: 1, offset: 0 }),
{
    if count == 0 {
        return BulkOrder { count, multiplier: 1, offset: 0 };
    }
    let start: u64 = 1 + below(rng, count).0;
    let offset: u64 = below(rng, count).0;
    order_from(count, start, offset)
}

/// Numbers x and y with a * x + b * y equal to the greatest common divisor of a and b.
proof fn bezout(a: nat, b: nat) -> (r: (int, int))
    ensures
        a * r.0 + b * r.1 == gcd(a, b),
    decreases b,
{
    if b == 0 {
        assert(a * 1 + b * 0 == a) by (nonlinear_arith)
            requires
                b == 0,
        ;
        (1, 0)
    } else {
        let (x, y) = bezout(b, a % b);
        let q = a / b;
        lemma_fundamental_div_mod(a as int, b as int);
        let m = a % b;
        assert(a * y + b * (x - q * y) == b * x + m * y) by (nonlinear_arith)
            requires
                a == b * q + m,
        ;
        (y, x - q * y)
    }
}

/// A bulk load writes every record once, as long as its products do not wrap around: two places
/// of the order never have the same record.
pub proof fn bulk_loads_write_each_record_once(order: BulkOrder, i: u64, j: u64)
    requires
        order.wf(),
        i < j < order.count,
        j * order.multiplier + order.offset < word(),
    ensures
        bulk_record(i, order.multiplier, order.offset, order.count) != bulk_record(
            j,
            order.multiplier,
            order.offset,
            order.count,
        ),
        0 <= bulk_record(i, order.multiplier, order.offset, order.count) < order.count,
{
    let n = order.count as int;
    let m = order.multiplier as int;
    let o = order.offset as int;
    if m == 0 {
        reveal_with_fuel(gcd, 3);
        assert(n > 1);
        lemma_small_mod(0, order.count as nat);
    }
    let a = i * m + o;
    let b = j * m + o;
    let d = j - i;
    assert(0 <= a < b) by (nonlinear_arith)
        requires
            a == i * m + o,
            b == j * m + o,
            i < j,
            m >= 1,
            0 <= i,
            0 <= o,
    ;
    lemma_small_mod(a as nat, word() as nat);
    lemma_small_mod(b as nat, word() as nat);
    if a % n == b % n {
        lemma_fundamental_div_mod(a, n);
        lemma_fundamental_div_mod(b, n);
        let k = b / n - a / n;
        assert(d * m == n * k) by (nonlinear_arith)
            requires
                a == i * m + o,
                b == j * m + o,
                d == j - i,
                a == n * (a / n) + a % n,
                b == n * (b / n) + b % n,
                a % n == b % n,
                k == b / n - a / n,
        ;
        let (x, y) = bezout(order.multiplier as nat, order.count as nat);
        assert(d == n * (k * x + d * y)) by (nonlinear_arith)
            requires
                m * x + n * y == 1,
                d * m == n * k,
        ;
        let t = k * x + d * y;
        assert(t >= 1) by (nonlinear_arith)
            requires
                d == n * t,
                d > 0,
                n > 0,
        ;
        assert(n * t >= n) by (nonlinear_arith)
            requires
                t >= 1,
                n > 0,
        ;
    }
}

} // verus!
