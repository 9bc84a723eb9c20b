//! Checks that name the first thing that is wrong.

use vstd::prelude::*;

verus! {

/// The first fault of a row of checks.
pub open spec fn first_of<E>(faults: Seq<Option<E>>) -> Option<E>
    decreases faults.len(),
{
    if faults.len() == 0 {
        None
    } else if first_of(faults.drop_last()) is Some {
        first_of(faults.drop_last())
    } else {
        faults.last()
    }
}

/// The first of two faults.
pub open spec fn first<E>(a: Option<E>, b: Option<E>) -> Option<E> {
    if a is Some {
        a
    } else {
        b
    }
}

/// A fault where a condition does not hold.
pub open spec fn unless<E>(holds: bool, fault: E) -> Option<E> {
    if holds {
        None
    } else {
        Some(fault)
    }
}

/// Returns a fault where a condition does not hold.
pub fn fault_unless<E>(holds: bool, fault: E) -> (r: Option<E>)
    ensures
        r == unless(holds, fault),
{
    if holds {
        None
    } else {
        Some(fault)
    }
}

/// Where the checks before one find nothing, and it finds a fault, that is the first.
pub proof fn found_here<E>(faults: Seq<Option<E>>, i: int)
    requires
        0 <= i < faults.len(),
        first_of(faults.take(i)) is None,
        faults[i] is Some,
    ensures
        first_of(faults) == faults[i],
{
    stays_found(faults, i, faults.len() as int);
    assert(faults.take(faults.len() as int) =~= faults);
}

proof fn stays_found<E>(faults: Seq<Option<E>>, i: int, j: int)
    requires
        0 <= i < j <= faults.len(),
        first_of(faults.take(i)) is None,
        faults[i] is Some,
    ensures
        first_of(faults.take(j)) == faults[i],
    decreases j,
{
    assert(faults.take(j).drop_last() =~= faults.take(j - 1));
    if j > i + 1 {
        stays_found(faults, i, j - 1);
    }
}

/// Where the checks before one find nothing, and neither does it, nothing is found so far.
pub proof fn nothing_yet<E>(faults: Seq<Option<E>>, i: int)
    requires
        0 <= i < faults.len(),
        first_of(faults.take(i)) is None,
        faults[i] is None,
    ensures
        first_of(faults.take(i + 1)) is None,
{
    assert(faults.take(i + 1).drop_last() =~= faults.take(i));
}

/// Where no check of a row finds anything, the row has no fault.
pub proof fn nothing_at_all<E>(faults: Seq<Option<E>>)
    requires
        first_of(faults.take(faults.len() as int)) is None,
    ensures
        first_of(faults) is None,
{
    assert(faults.take(faults.len() as int) =~= faults);
}

/// Where the checks before a position find nothing, and the one there finds a fault or there is
/// none, the first fault is known.
pub proof fn settled<E>(faults: Seq<Option<E>>, i: int)
    requires
        0 <= i <= faults.len(),
        first_of(faults.take(i)) is None,
        i < faults.len() ==> faults[i] is Some,
    ensures
        i < faults.len() ==> first_of(faults) == faults[i],
        i == faults.len() ==> first_of(faults) is None,
{
    if i == faults.len() {
        nothing_at_all(faults);
    } else {
        found_here(faults, i);
    }
}

/// Where a row has no fault, none of its checks found one.
pub proof fn none_found<E>(faults: Seq<Option<E>>, i: int)
    requires
        first_of(faults) is None,
        0 <= i < faults.len(),
    ensures
        faults[i] is None,
    decreases faults.len(),
{
    if i < faults.len() - 1 {
        none_found(faults.drop_last(), i);
    }
}

/// Checks after one that finds a fault do not matter.
pub proof fn later_checks_do_not_matter<E>(a: Seq<Option<E>>, b: Seq<Option<E>>, i: int)
    requires
        0 <= i < a.len(),
        i < b.len(),
        a.take(i + 1) == b.take(i + 1),
        a[i] is Some,
    ensures
        first_of(a) == first_of(b),
    decreases i,
{
    assert(a[i] == a.take(i + 1)[i] && b[i] == b.take(i + 1)[i]);
    assert(a.take(i) =~= a.take(i + 1).take(i));
    assert(b.take(i) =~= b.take(i + 1).take(i));
    if first_of(a.take(i)) is None {
        found_here(a, i);
        found_here(b, i);
    } else {
        let j = earlier(a, i);
        assert(a.take(j + 1) =~= a.take(i + 1).take(j + 1));
        assert(b.take(j + 1) =~= b.take(i + 1).take(j + 1));
        later_checks_do_not_matter(a, b, j);
    }
}

proof fn earlier<E>(faults: Seq<Option<E>>, i: int) -> (j: int)
    requires
        0 <= i <= faults.len(),
        first_of(faults.take(i)) is Some,
    ensures
        0 <= j < i,
        faults[j] is Some,
    decreases i,
{
    assert(faults.take(i).drop_last() =~= faults.take(i - 1));
    if faults[i - 1] is Some {
        i - 1
    } else {
        earlier(faults, i - 1)
    }
}

/// Returns the first fault of a list.
pub fn first_listed<E: Copy>(faults: &Vec<Option<E>>) -> (r: Option<E>)
    ensures
        r == first_of(faults@),
{
    let mut i: usize = 0;
    assert(faults@.take(0).len() == 0);
    while i < faults.len()
        invariant
            i <= faults.len(),
            first_of(faults@.take(i as int)) is None,
        decreases faults.len() - i,
    {
        if faults[i].is_some() {
            proof {
                found_here(faults@, i as int);
            }
            return faults[i];
        }
        proof {
            nothing_yet(faults@, i as int);
        }
        i += 1;
    }
    proof {
        nothing_at_all(faults@);
    }
    None
}

/// A row of checks passes exactly where each of them does, and else gives the fault of a check that
/// found one, with none found before it.
pub proof fn rows_pass_where_every_check_does<E>(faults: Seq<Option<E>>)
    ensures
        first_of(faults) is None <==> forall|i: int|
            0 <= i < faults.len() ==> #[trigger] faults[i] is None,
        first_of(faults) is Some ==> exists|i: int|
            {
                &&& 0 <= i < faults.len()
                &&& #[trigger] faults[i] == first_of(faults)
                &&& forall|k: int| 0 <= k < i ==> #[trigger] faults[k] is None
            },
    decreases faults.len(),
{
    if faults.len() > 0 {
        let rest = faults.drop_last();
        rows_pass_where_every_check_does(rest);
        if first_of(rest) is Some {
            let i = choose|i: int|
                {
                    &&& 0 <= i < rest.len()
                    &&& #[trigger] rest[i] == first_of(rest)
                    &&& forall|k: int| 0 <= k < i ==> #[trigger] rest[k] is None
                };
            assert(faults[i] == rest[i]);
            assert forall|k: int| 0 <= k < i implies #[trigger] faults[k] is None by {
                assert(rest[k] is None);
            }
        } else {
            assert forall|k: int| 0 <= k < rest.len() implies #[trigger] faults[k] is None by {
                assert(rest[k] is None);
            }
            assert(faults[faults.len() - 1] == faults.last());
        }
    }
}

/// The first of two faults is the earlier one, and a condition that holds is no fault.
pub proof fn faults_come_in_turn<E>(a: Option<E>, b: Option<E>, holds: bool, fault: E)
    ensures
        first(a, b) is None <==> a is None && b is None,
        a is Some ==> first(a, b) == a,
        a is None ==> first(a, b) == b,
        unless(holds, fault) is None <==> holds,
        !holds ==> unless(holds, fault) == Some(fault),
{
}

} // verus!
