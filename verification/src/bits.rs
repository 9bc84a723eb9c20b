//! Order and range of double-precision numbers, over their bit patterns.
//!
//! A measured value is carried as the 64-bit pattern of its IEEE 754 binary64 form: the sign in
//! the top bit, then the magnitude.

use vstd::prelude::*;

verus! {

/// The pattern with nothing but the sign set.
pub const SIGN: u64 = 0x8000_0000_0000_0000;

/// The least magnitude that is not finite.
pub const INFINITE: u64 = 0x7ff0_0000_0000_0000;

/// The pattern without its sign.
pub open spec fn magnitude(bits: u64) -> u64 {
    if bits >= SIGN {
        (bits - SIGN) as u64
    } else {
        bits
    }
}

/// Whether a number is finite.
pub open spec fn is_finite(bits: u64) -> bool {
    magnitude(bits) < INFINITE
}

/// Whether a pattern stands for no number.
pub open spec fn is_nan(bits: u64) -> bool {
    magnitude(bits) > INFINITE
}

/// A rank by which numbers compare; both zeros have the same rank.
pub open spec fn rank(bits: u64) -> int {
    if bits >= SIGN {
        -(bits - SIGN)
    } else {
        bits as int
    }
}

/// A rank by which patterns are sorted; negative zero comes before positive zero.
pub open spec fn sort_rank(bits: u64) -> int {
    if bits >= SIGN {
        -(bits - SIGN) - 1
    } else {
        bits as int
    }
}

/// Whether one number is no more than another; false where either is not a number.
pub open spec fn at_most(a: u64, b: u64) -> bool {
    !is_nan(a) && !is_nan(b) && rank(a) <= rank(b)
}

/// Whether two patterns stand for the same number; both zeros do.
pub open spec fn same_number(a: u64, b: u64) -> bool {
    at_most(a, b) && at_most(b, a)
}

/// Whether a number is finite and not negative.
pub open spec fn is_plain(bits: u64) -> bool {
    is_finite(bits) && rank(bits) >= 0
}

/// Whether patterns are in sorting order.
pub open spec fn is_sorted(values: Seq<u64>) -> bool {
    forall|i: int, j: int|
        0 <= i < j < values.len() ==> sort_rank(#[trigger] values[i]) <= sort_rank(
            #[trigger] values[j],
        )
}

/// Tells whether a number is finite.
pub fn finite(bits: u64) -> (r: bool)
    ensures
        r == is_finite(bits),
{
    let m: u64 = if bits >= SIGN {
        bits - SIGN
    } else {
        bits
    };
    m < INFINITE
}

/// Tells whether a number is finite and not negative.
pub fn plain(bits: u64) -> (r: bool)
    ensures
        r == is_plain(bits),
{
    bits < INFINITE || bits == SIGN
}

/// Tells whether one number is no more than another.
pub fn no_more_than(a: u64, b: u64) -> (r: bool)
    ensures
        r == at_most(a, b),
{
    let ma: u64 = if a >= SIGN {
        a - SIGN
    } else {
        a
    };
    let mb: u64 = if b >= SIGN {
        b - SIGN
    } else {
        b
    };
    if ma > INFINITE || mb > INFINITE {
        return false;
    }
    if a >= SIGN {
        if b >= SIGN {
            ma >= mb
        } else {
            true
        }
    } else if b >= SIGN {
        ma == 0 && mb == 0
    } else {
        ma <= mb
    }
}

/// Tells whether two patterns stand for the same number.
pub fn equal(a: u64, b: u64) -> (r: bool)
    ensures
        r == same_number(a, b),
{
    no_more_than(a, b) && no_more_than(b, a)
}

/// Tells whether one pattern is sorted no later than another.
fn sorts_before(a: u64, b: u64) -> (r: bool)
    ensures
        r == (sort_rank(a) <= sort_rank(b)),
{
    if a >= SIGN {
        b < SIGN || a >= b
    } else {
        b < SIGN && a <= b
    }
}

/// Patterns with the same sorting rank are the same.
pub proof fn sort_rank_is_unique(a: u64, b: u64)
    requires
        sort_rank(a) == sort_rank(b),
    ensures
        a == b,
{
}

/// Sorting a sequence has one outcome.
pub proof fn sorting_is_determined(a: Seq<u64>, b: Seq<u64>)
    requires
        is_sorted(a),
        is_sorted(b),
        a.to_multiset() == b.to_multiset(),
    ensures
        a == b,
    decreases a.len(),
{
    broadcast use vstd::seq_lib::group_to_multiset_ensures;

    assert(a.len() == a.to_multiset().len() && b.len() == b.to_multiset().len());
    if a.len() == 0 {
        assert(a =~= b);
    } else {
        let x = a.last();
        let y = b.last();
        assert(a.contains(x) && b.contains(y));
        assert(a.to_multiset().count(x) > 0 && b.to_multiset().count(y) > 0);
        assert(b.contains(x) && a.contains(y));
        let i = choose|i: int| 0 <= i < a.len() && a[i] == y;
        let j = choose|j: int| 0 <= j < b.len() && b[j] == x;
        assert(sort_rank(a[i]) <= sort_rank(a[a.len() - 1]) || i == a.len() - 1);
        assert(sort_rank(b[j]) <= sort_rank(b[b.len() - 1]) || j == b.len() - 1);
        sort_rank_is_unique(x, y);
        let a2 = a.drop_last();
        let b2 = b.drop_last();
        assert(a =~= a2.push(x));
        assert(b =~= b2.push(y));
        assert(a2.to_multiset() =~= a.to_multiset().remove(x));
        assert(b2.to_multiset() =~= b.to_multiset().remove(y));
        sorting_is_determined(a2, b2);
    }
}

/// Sorts patterns.
pub fn sorted(values: &Vec<u64>) -> (r: Vec<u64>)
    ensures
        is_sorted(r@),
        r@.to_multiset() == values@.to_multiset(),
{
    broadcast use vstd::seq_lib::group_to_multiset_ensures;

    let mut out: Vec<u64> = Vec::new();
    let mut i: usize = 0;
    proof {
        assert(values@.take(0) =~= out@);
    }
    while i < values.len()
        invariant
            i <= values.len(),
            is_sorted(out@),
            out@.to_multiset() == values@.take(i as int).to_multiset(),
        decreases values.len() - i,
    {
        let v: u64 = values[i];
        let mut at: usize = out.len();
        while at > 0 && !sorts_before(out[at - 1], v)
            invariant
                at <= out.len(),
                is_sorted(out@),
                forall|k: int| at <= k < out.len() ==> sort_rank(v) <= sort_rank(#[trigger] out@[k]),
            decreases at,
        {
            at -= 1;
        }
        let ghost before = out@;
        out.insert(at, v);
        proof {
            assert(out@ =~= before.insert(at as int, v));
            assert(values@.take(i + 1) =~= values@.take(i as int).push(v));
            vstd::seq_lib::to_multiset_insert(before, at as int, v);
            vstd::seq_lib::to_multiset_build(values@.take(i as int), v);
            assert forall|p: int, q: int| 0 <= p < q < out.len() implies sort_rank(
                #[trigger] out@[p],
            ) <= sort_rank(#[trigger] out@[q]) by {
                let p2 = if p < at { p } else { p - 1 };
                let q2 = if q < at { q } else { q - 1 };
                if p != at && q != at {
                    assert(out@[p] == before[p2] && out@[q] == before[q2]);
                } else if p == at {
                    assert(out@[q] == before[q2]);
                } else {
                    assert(out@[p] == before[p2]);
                    if p2 < at - 1 {
                        assert(sort_rank(before[p2]) <= sort_rank(before[at - 1]));
                    }
                }
            }
        }
        i += 1;
    }
    proof {
        assert(values@.take(i as int) =~= values@);
    }
    out
}

/// Bit patterns are ordered as the numbers they stand for: a sign comes first, then the magnitude;
/// both zeros are equal, and a pattern above infinity is no number.
pub proof fn patterns_are_ordered_as_numbers(a: u64, b: u64)
    ensures
        is_finite(a) <==> a < 0x7ff0_0000_0000_0000 || (0x8000_0000_0000_0000 <= a
            < 0xfff0_0000_0000_0000),
        is_nan(a) <==> 0x7ff0_0000_0000_0000 < a < 0x8000_0000_0000_0000 || a
            > 0xfff0_0000_0000_0000,
        is_finite(a) && is_finite(b) && a < 0x8000_0000_0000_0000 && b < 0x8000_0000_0000_0000 ==> (
        at_most(a, b) <==> a <= b),
        is_finite(a) && is_finite(b) && a >= 0x8000_0000_0000_0000 && b >= 0x8000_0000_0000_0000
            ==> (at_most(a, b) <==> a >= b),
        is_finite(a) && is_finite(b) && a >= 0x8000_0000_0000_0000 && b < 0x8000_0000_0000_0000
            ==> at_most(a, b),
        is_plain(a) <==> a < 0x7ff0_0000_0000_0000 || a == 0x8000_0000_0000_0000,
        is_nan(a) ==> !at_most(a, b) && !at_most(b, a) && !same_number(a, b),
        same_number(0, 0x8000_0000_0000_0000),
        !is_nan(a) && !is_nan(b) && a != b && !(a == 0 && b == 0x8000_0000_0000_0000) && !(b == 0
            && a == 0x8000_0000_0000_0000) ==> !same_number(a, b),
{
}

} // verus!
