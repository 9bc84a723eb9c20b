//! An ordered collection of values addressed by name.

use crate::text::{precedence, Precedence};
use vstd::prelude::*;

verus! {

/// Values addressed by name and kept in lexicographic order of their names.
///
/// No name occurs twice.
pub struct Named<V> {
    entries: Vec<(String, V)>,
}

/// Whether a sequence of names is strictly increasing.
pub open spec fn names_increase(names: Seq<Seq<char>>) -> bool {
    forall|i: int, j: int| 0 <= i < j < names.len() ==> crate::text::text_lt(#[trigger] names[i], #[trigger] names[j])
}

/// Strictly increasing names that have the same members are the same sequence.
pub proof fn increasing_names_are_determined(a: Seq<Seq<char>>, b: Seq<Seq<char>>)
    requires
        names_increase(a),
        names_increase(b),
        forall|n: Seq<char>| a.contains(n) <==> b.contains(n),
    ensures
        a == b,
    decreases a.len(),
{
    if a.len() == 0 {
        if b.len() > 0 {
            assert(b.contains(b[0]));
        }
        assert(a =~= b);
    } else if b.len() == 0 {
        assert(a.contains(a[0]));
    } else {
        let x = a.last();
        let y = b.last();
        assert(a.contains(x) && b.contains(y));
        assert(b.contains(x) && a.contains(y));
        let i = choose|i: int| 0 <= i < a.len() && a[i] == y;
        let j = choose|j: int| 0 <= j < b.len() && b[j] == x;
        if i < a.len() - 1 && j < b.len() - 1 {
            crate::text::text_lt_transitive(x, y, x);
            crate::text::text_lt_irreflexive(x);
        }
        assert(x == y);
        let a2 = a.drop_last();
        let b2 = b.drop_last();
        assert forall|n: Seq<char>| a2.contains(n) <==> b2.contains(n) by {
            crate::text::text_lt_irreflexive(x);
            if a2.contains(n) {
                let p = choose|p: int| 0 <= p < a2.len() && a2[p] == n;
                assert(a[p] == n && crate::text::text_lt(a[p], a[a.len() - 1]));
                assert(a.contains(n));
                let q = choose|q: int| 0 <= q < b.len() && b[q] == n;
                assert(b2[q] == n);
            }
            if b2.contains(n) {
                let p = choose|p: int| 0 <= p < b2.len() && b2[p] == n;
                assert(b[p] == n && crate::text::text_lt(b[p], b[b.len() - 1]));
                assert(b.contains(n));
                let q = choose|q: int| 0 <= q < a.len() && a[q] == n;
                assert(a2[q] == n);
            }
        }
        increasing_names_are_determined(a2, b2);
        assert(a =~= a2.push(x));
        assert(b =~= b2.push(y));
    }
}

/// In strictly increasing names, a name has one position.
pub proof fn position_is_unique(names: Seq<Seq<char>>, k: int)
    requires
        names_increase(names),
        0 <= k < names.len(),
    ensures
        names.contains(names[k]),
        names.index_of(names[k]) == k,
{
    assert(names.contains(names[k]));
    let q = names.index_of(names[k]);
    crate::text::text_lt_irreflexive(names[k]);
    if q < k {
        assert(crate::text::text_lt(names[q], names[k]));
    }
    if k < q {
        assert(crate::text::text_lt(names[k], names[q]));
    }
}

impl<V> Named<V> {
    /// The names, in order.
    pub closed spec fn names(&self) -> Seq<Seq<char>> {
        Seq::new(self.entries@.len(), |i: int| self.entries@[i].0@)
    }

    /// The values, in the order of their names.
    pub closed spec fn values(&self) -> Seq<V> {
        Seq::new(self.entries@.len(), |i: int| self.entries@[i].1)
    }

    /// Names are strictly increasing, and each has one value.
    pub open spec fn wf(&self) -> bool {
        names_increase(self.names()) && self.names().len() == self.values().len()
    }

    /// Whether a name is present.
    pub open spec fn has(&self, name: Seq<char>) -> bool {
        self.names().contains(name)
    }

    /// The position of a present name.
    pub open spec fn position(&self, name: Seq<char>) -> int {
        self.names().index_of(name)
    }

    /// The value under a present name.
    pub open spec fn at(&self, name: Seq<char>) -> V {
        self.values()[self.position(name)]
    }

    /// The value of each name.
    pub open spec fn map(&self) -> Map<Seq<char>, V> {
        Map::new(|name: Seq<char>| self.has(name), |name: Seq<char>| self.at(name))
    }

    /// Replacing the value at a position keeps the order and changes that name only.
    pub proof fn value_replaced(before: Self, after: Self, i: int, value: V)
        requires
            before.wf(),
            0 <= i < before.names().len(),
            after.names() == before.names(),
            after.values() == before.values().update(i, value),
        ensures
            after.wf(),
            after.map() == before.map().insert(before.names()[i], value),
    {
        position_is_unique(before.names(), i);
        assert forall|n: Seq<char>| after.has(n) implies after.at(n) == before.map().insert(
            before.names()[i],
            value,
        )[n] by {
            let k = choose|k: int| 0 <= k < before.names().len() && before.names()[k] == n;
            position_is_unique(before.names(), k);
        }
        assert(after.map() =~= before.map().insert(before.names()[i], value));
    }

    /// The name at a position has the value at that position.
    pub proof fn entry(self, i: int)
        requires
            self.wf(),
            0 <= i < self.names().len(),
        ensures
            self.map().dom().contains(self.names()[i]),
            self.map()[self.names()[i]] == self.values()[i],
    {
        position_is_unique(self.names(), i);
    }

    /// There are as many names as positions.
    pub proof fn names_are_counted(self)
        requires
            self.wf(),
        ensures
            self.map().dom().finite(),
            self.map().dom().len() == self.names().len(),
    {
        assert(self.names().no_duplicates()) by {
            assert forall|i: int, j: int|
                0 <= i < self.names().len() && 0 <= j < self.names().len() && i
                    != j implies self.names()[i] != self.names()[j] by {
                position_is_unique(self.names(), i);
                position_is_unique(self.names(), j);
            }
        }
        self.names().unique_seq_to_set();
        assert(self.map().dom() =~= self.names().to_set());
    }

    /// An empty collection.
    pub fn new() -> (r: Self)
        ensures
            r.wf(),
            r.names() == Seq::<Seq<char>>::empty(),
            r.values() == Seq::<V>::empty(),
            r.map() == Map::<Seq<char>, V>::empty(),
    {
        let r = Named { entries: Vec::new() };
        assert(r.names() =~= Seq::<Seq<char>>::empty());
        assert(r.values() =~= Seq::<V>::empty());
        assert(r.map() =~= Map::<Seq<char>, V>::empty());
        r
    }

    /// The number of names.
    pub fn len(&self) -> (r: usize)
        ensures
            r == self.names().len(),
            r == self.values().len(),
    {
        self.entries.len()
    }

    /// The name at a position.
    pub fn name_at(&self, i: usize) -> (r: &String)
        requires
            i < self.names().len(),
        ensures
            r@ == self.names()[i as int],
    {
        &self.entries[i].0
    }

    /// The value at a position.
    pub fn value_at(&self, i: usize) -> (r: &V)
        requires
            i < self.values().len(),
        ensures
            *r == self.values()[i as int],
    {
        &self.entries[i].1
    }

    /// The position of the first name that does not precede `name`, and whether it is `name`.
    pub fn locate(&self, name: &str) -> (r: (usize, bool))
        requires
            self.wf(),
        ensures
            r.0 <= self.names().len(),
            r.1 == self.has(name@),
            r.1 ==> r.0 < self.names().len() && self.names()[r.0 as int] == name@ && r.0
                == self.position(name@),
            forall|k: int| 0 <= k < r.0 ==> crate::text::text_lt(self.names()[k], name@),
            forall|k: int|
                r.0 <= k < self.names().len() && !r.1 ==> crate::text::text_lt(name@, self.names()[k]),
    {
        let mut i: usize = 0;
        while i < self.entries.len()
            invariant
                names_increase(self.names()),
                i <= self.entries.len(),
                self.entries.len() == self.names().len(),
                forall|k: int| 0 <= k < i ==> crate::text::text_lt(self.names()[k], name@),
            decreases self.entries.len() - i,
        {
            let p = precedence(self.entries[i].0.as_str(), name);
            assert(self.entries@[i as int].0@ == self.names()[i as int]);
            match p {
                Precedence::Same => {
                    proof {
                        let n = self.names();
                        assert(n[i as int] == name@);
                        assert(n.contains(name@));
                        let q = n.index_of(name@);
                        crate::text::text_lt_irreflexive(name@);
                        if q < i {
                            assert(crate::text::text_lt(n[q], name@));
                        }
                        if q > i {
                            assert(crate::text::text_lt(n[i as int], n[q]));
                        }
                    }
                    return (i, true);
                },
                Precedence::After => {
                    proof {
                        let n = self.names();
                        assert forall|k: int| i <= k < n.len() implies crate::text::text_lt(name@, n[k]) by {
                            if k > i {
                                crate::text::text_lt_transitive(name@, n[i as int], n[k]);
                            }
                        }
                        crate::text::text_lt_irreflexive(name@);
                        if n.contains(name@) {
                            let q = choose|q: int| 0 <= q < n.len() && n[q] == name@;
                            assert(false);
                        }
                    }
                    return (i, false);
                },
                Precedence::Before => {},
            }
            i += 1;
        }
        proof {
            crate::text::text_lt_irreflexive(name@);
            if self.names().contains(name@) {
                let q = choose|q: int| 0 <= q < self.names().len() && self.names()[q] == name@;
                assert(crate::text::text_lt(self.names()[q], name@));
            }
        }
        (i, false)
    }

    /// The value under a name, if the name is present.
    pub fn get(&self, name: &str) -> (r: Option<&V>)
        requires
            self.wf(),
        ensures
            r is Some <==> self.map().dom().contains(name@),
            r matches Some(v) ==> *v == self.map()[name@],
    {
        let (i, found) = self.locate(name);
        if found {
            Some(&self.entries[i].1)
        } else {
            None
        }
    }

    /// Puts a value under a name, in place of the one that was there.
    pub fn put(&mut self, name: String, value: V)
        requires
            old(self).wf(),
        ensures
            final(self).wf(),
            final(self).map() == old(self).map().insert(name@, value),
    {
        let (i, found) = self.locate(name.as_str());
        let ghost before = *self;
        let mut entries: Vec<(String, V)> = Vec::new();
        std::mem::swap(&mut entries, &mut self.entries);
        if found {
            entries.set(i, (name, value));
        } else {
            entries.insert(i, (name, value));
        }
        let ghost names = Seq::new(entries@.len(), |k: int| entries@[k].0@);
        let ghost values = Seq::new(entries@.len(), |k: int| entries@[k].1);
        proof {
            if found {
                assert(names =~= before.names());
                assert(values =~= before.values().update(i as int, value));
            } else {
                assert(names =~= before.names().insert(i as int, name@));
                assert(values =~= before.values().insert(i as int, value));
                crate::text::text_lt_irreflexive(name@);
                assert forall|a: int, b: int| 0 <= a < b < names.len() implies crate::text::text_lt(
                    #[trigger] names[a],
                    #[trigger] names[b],
                ) by {
                    let a2 = if a < i { a } else { a - 1 };
                    let b2 = if b < i { b } else { b - 1 };
                    if a != i {
                        assert(names[a] == before.names()[a2]);
                    }
                    if b != i {
                        assert(names[b] == before.names()[b2]);
                    }
                }
            }
        }
        let r = Named { entries };
        proof {
            assert(r.names() =~= names);
            assert(r.values() =~= values);
            let m = before.map().insert(name@, value);
            assert(r.names()[i as int] == name@);
            assert forall|n: Seq<char>| r.names().contains(n) <==> m.dom().contains(n) by {
                if r.names().contains(n) {
                    let k = choose|k: int| 0 <= k < r.names().len() && r.names()[k] == n;
                    if k != i {
                        let k2 = if found || k < i { k } else { k - 1 };
                        assert(before.names()[k2] == n);
                    }
                }
                if before.names().contains(n) {
                    let k = choose|k: int| 0 <= k < before.names().len() && before.names()[k] == n;
                    let k2 = if found || k < i { k } else { k + 1 };
                    assert(r.names()[k2] == n);
                }
            }
            assert forall|n: Seq<char>| r.names().contains(n) implies r.at(n) == m[n] by {
                let k = choose|k: int| 0 <= k < r.names().len() && r.names()[k] == n;
                position_is_unique(r.names(), k);
                if k != i {
                    let k2 = if found || k < i { k } else { k - 1 };
                    assert(before.names()[k2] == n);
                    position_is_unique(before.names(), k2);
                    assert(r.values()[k] == before.values()[k2]);
                    crate::text::text_lt_irreflexive(name@);
                    if k < i {
                        assert(crate::text::text_lt(r.names()[k], r.names()[i as int]));
                    } else {
                        assert(crate::text::text_lt(r.names()[i as int], r.names()[k]));
                    }
                } else {
                    assert(r.values()[i as int] == value);
                }
            }
            assert(r.map() =~= m);
        }
        *self = r;
    }

    /// Takes out the last name and its value.
    pub fn pop(&mut self) -> (r: Option<(String, V)>)
        requires
            old(self).wf(),
        ensures
            final(self).wf(),
            r is None <==> old(self).names().len() == 0,
            r is None ==> final(self).map() == old(self).map(),
            r matches Some(e) ==> {
                &&& e.0@ == old(self).names().last()
                &&& old(self).map().dom().contains(e.0@)
                &&& e.1 == old(self).map()[e.0@]
                &&& final(self).map() == old(self).map().remove(e.0@)
                &&& final(self).names() == old(self).names().drop_last()
            },
    {
        if self.entries.len() == 0 {
            return None;
        }
        let ghost before = *self;
        let i: usize = self.entries.len() - 1;
        proof {
            before.entry(i as int);
        }
        match self.entries.pop() {
            Some((name, value)) => {
                proof {
                    assert(self.names() =~= before.names().drop_last());
                    assert(self.values() =~= before.values().drop_last());
                    let m = before.map().remove(name@);
                    crate::text::text_lt_irreflexive(name@);
                    assert forall|n: Seq<char>|
                        self.names().contains(n) <==> m.dom().contains(n) by {
                        if self.names().contains(n) {
                            let k = choose|k: int|
                                0 <= k < self.names().len() && self.names()[k] == n;
                            assert(before.names()[k] == n);
                            assert(crate::text::text_lt(
                                before.names()[k],
                                before.names()[i as int],
                            ));
                        }
                        if m.dom().contains(n) {
                            let k = choose|k: int|
                                0 <= k < before.names().len() && before.names()[k] == n;
                            assert(self.names()[k] == n);
                        }
                    }
                    assert forall|n: Seq<char>| self.names().contains(n) implies self.at(n)
                        == m[n] by {
                        let k = choose|k: int|
                            0 <= k < self.names().len() && self.names()[k] == n;
                        position_is_unique(self.names(), k);
                        position_is_unique(before.names(), k);
                        assert(before.names()[k] == n);
                    }
                    assert(self.map() =~= m);
                }
                Some((name, value))
            },
            None => None,
        }
    }

    /// Adds the values of another collection, in place of those under the same names.
    pub fn extend(&mut self, other: Self)
        requires
            old(self).wf(),
            other.wf(),
        ensures
            final(self).wf(),
            final(self).map() == old(self).map().union_prefer_right(other.map()),
    {
        let ghost before = self.map();
        let ghost added = other.map();
        let mut rest = other;
        assert(self.map().union_prefer_right(rest.map()) =~= before.union_prefer_right(added));
        while rest.len() > 0
            invariant
                self.wf(),
                rest.wf(),
                self.map().union_prefer_right(rest.map()) == before.union_prefer_right(added),
            decreases rest.names().len(),
        {
            let ghost mine = self.map();
            let ghost theirs = rest.map();
            if let Some((name, value)) = rest.pop() {
                self.put(name, value);
                assert(self.map().union_prefer_right(rest.map()) =~= mine.union_prefer_right(
                    theirs,
                ));
            }
        }
        proof {
            assert(rest.map().dom() =~= Set::<Seq<char>>::empty());
            assert(self.map() =~= before.union_prefer_right(added));
        }
    }

    /// Takes out the value under a name, if the name is present.
    pub fn remove(&mut self, name: &str) -> (r: Option<V>)
        requires
            old(self).wf(),
        ensures
            final(self).wf(),
            final(self).map() == old(self).map().remove(name@),
            r is Some <==> old(self).map().dom().contains(name@),
            r matches Some(v) ==> v == old(self).map()[name@],
    {
        let (i, found) = self.locate(name);
        let ghost before = *self;
        if !found {
            assert(self.map() =~= before.map().remove(name@));
            return None;
        }
        let (_, value) = self.entries.remove(i);
        proof {
            assert(self.names() =~= before.names().remove(i as int));
            assert(self.values() =~= before.values().remove(i as int));
            let names = self.names();
            assert forall|a: int, b: int| 0 <= a < b < names.len() implies crate::text::text_lt(
                #[trigger] names[a],
                #[trigger] names[b],
            ) by {
                let a2 = if a < i { a } else { a + 1 };
                let b2 = if b < i { b } else { b + 1 };
                assert(names[a] == before.names()[a2] && names[b] == before.names()[b2]);
            }
            before.entry(i as int);
            let m = before.map().remove(name@);
            crate::text::text_lt_irreflexive(name@);
            assert forall|n: Seq<char>| names.contains(n) <==> m.dom().contains(n) by {
                if names.contains(n) {
                    let k = choose|k: int| 0 <= k < names.len() && names[k] == n;
                    let k2 = if k < i { k } else { k + 1 };
                    assert(before.names()[k2] == n);
                    if k2 < i {
                        assert(crate::text::text_lt(before.names()[k2], before.names()[i as int]));
                    } else {
                        assert(crate::text::text_lt(before.names()[i as int], before.names()[k2]));
                    }
                }
                if m.dom().contains(n) {
                    let k = choose|k: int| 0 <= k < before.names().len() && before.names()[k] == n;
                    let k2 = if k < i { k } else { k - 1 };
                    assert(names[k2] == n);
                }
            }
            assert forall|n: Seq<char>| names.contains(n) implies self.at(n) == m[n] by {
                let k = choose|k: int| 0 <= k < names.len() && names[k] == n;
                let k2 = if k < i { k } else { k + 1 };
                position_is_unique(names, k);
                position_is_unique(before.names(), k2);
                assert(before.names()[k2] == n);
                assert(self.values()[k] == before.values()[k2]);
            }
            assert(self.map() =~= m);
        }
        Some(value)
    }

    /// Gives access to the value at a position.
    pub fn value_mut(&mut self, i: usize) -> (r: &mut V)
        requires
            old(self).wf(),
            i < old(self).names().len(),
        ensures
            *r == old(self).values()[i as int],
            final(self).names() == old(self).names(),
            final(self).values() == old(self).values().update(i as int, *final(r)),
    {
        &mut self.entries[i].1
    }
}

} // verus!
