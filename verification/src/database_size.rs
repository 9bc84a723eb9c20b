//! The live size of a database, from the tables of its manifest.

use crate::count;
use crate::count::plus;
use vstd::prelude::*;

verus! {

/// What identifies a physical table.
#[derive(Debug, Clone, Copy, PartialEq, Eq, Structural)]
pub enum TableId {
    /// A table of the write-ahead log.
    Wal(u64),
    /// A table of the tree.
    Compacted(u128),
}

/// A view of a physical table, with its compressed size.
#[derive(Debug, Clone, Copy, PartialEq, Eq, Structural)]
pub struct TableView {
    pub id: TableId,
    pub size: u64,
}

/// The levels of a manifest or of one of its segments.
pub struct Levels {
    pub l0: Vec<TableView>,
    pub compacted: Vec<Vec<TableView>>,
}

/// The live tables of a manifest.
pub struct ManifestTables {
    pub tree: Levels,
    pub segments: Vec<Levels>,
}

/// Whether a table occurs among views.
pub open spec fn occurs(views: Seq<TableView>, id: TableId) -> bool {
    exists|i: int| 0 <= i < views.len() && (#[trigger] views[i]).id == id
}

/// The sizes of all tables among views, each counted where it first occurs.
pub open spec fn charged(views: Seq<TableView>) -> u64
    decreases views.len(),
{
    if views.len() == 0 {
        0
    } else if occurs(views.drop_last(), views.last().id) {
        charged(views.drop_last())
    } else {
        count::capped_sum(charged(views.drop_last()), views.last().size)
    }
}

/// The views of the first sorted runs, one after the other.
pub open spec fn run_views(runs: Seq<Vec<TableView>>, k: int) -> Seq<TableView>
    decreases k,
{
    if k <= 0 {
        Seq::empty()
    } else {
        run_views(runs, k - 1) + runs[k - 1]@
    }
}

impl Levels {
    /// All views of the levels.
    pub open spec fn views(&self) -> Seq<TableView> {
        self.l0@ + run_views(self.compacted@, self.compacted.len() as int)
    }
}

/// The views of the first segments, one after the other.
pub open spec fn segment_views(segments: Seq<Levels>, k: int) -> Seq<TableView>
    decreases k,
{
    if k <= 0 {
        Seq::empty()
    } else {
        segment_views(segments, k - 1) + segments[k - 1].views()
    }
}

impl ManifestTables {
    /// All views of a manifest.
    pub open spec fn views(&self) -> Seq<TableView> {
        self.tree.views() + segment_views(self.segments@, self.segments.len() as int)
    }
}

fn collect(all: &mut Vec<TableView>, views: &Vec<TableView>)
    ensures
        final(all)@ == old(all)@ + views@,
{
    let mut i: usize = 0;
    assert(all@ =~= old(all)@ + views@.take(0));
    while i < views.len()
        invariant
            i <= views.len(),
            all@ == old(all)@ + views@.take(i as int),
        decreases views.len() - i,
    {
        all.push(views[i]);
        proof {
            assert(old(all)@ + views@.take(i + 1) =~= (old(all)@ + views@.take(i as int)).push(
                views@[i as int],
            ));
        }
        i += 1;
    }
    assert(views@.take(views.len() as int) =~= views@);
}

fn collect_levels(all: &mut Vec<TableView>, levels: &Levels)
    ensures
        final(all)@ == old(all)@ + levels.views(),
{
    collect(all, &levels.l0);
    let ghost base = old(all)@ + levels.l0@;
    assert(all@ =~= base + run_views(levels.compacted@, 0));
    let mut i: usize = 0;
    while i < levels.compacted.len()
        invariant
            i <= levels.compacted.len(),
            all@ == base + run_views(levels.compacted@, i as int),
        decreases levels.compacted.len() - i,
    {
        collect(all, &levels.compacted[i]);
        proof {
            assert(base + run_views(levels.compacted@, i + 1) =~= base + run_views(
                levels.compacted@,
                i as int,
            ) + levels.compacted@[i as int]@);
        }
        i += 1;
    }
    assert(all@ =~= old(all)@ + levels.views());
}

fn found(views: &Vec<TableView>, upto: usize, id: TableId) -> (r: bool)
    requires
        upto <= views.len(),
    ensures
        r == occurs(views@.take(upto as int), id),
{
    let ghost part = views@.take(upto as int);
    let mut i: usize = 0;
    while i < upto
        invariant
            i <= upto <= views.len(),
            part == views@.take(upto as int),
            forall|k: int| 0 <= k < i ==> (#[trigger] part[k]).id != id,
        decreases upto - i,
    {
        if views[i].id == id {
            assert(part[i as int].id == id);
            return true;
        }
        i += 1;
    }
    false
}

/// Returns the compressed size of the physical tables that a manifest refers to.
///
/// A table is counted once, although several views may refer to it.
pub fn live_database_size_bytes(manifest: &ManifestTables) -> (r: u64)
    ensures
        r == charged(manifest.views()),
{
    let mut all: Vec<TableView> = Vec::new();
    collect_levels(&mut all, &manifest.tree);
    let ghost base = manifest.tree.views();
    assert(all@ =~= base + segment_views(manifest.segments@, 0));
    let mut i: usize = 0;
    while i < manifest.segments.len()
        invariant
            i <= manifest.segments.len(),
            all@ == base + segment_views(manifest.segments@, i as int),
        decreases manifest.segments.len() - i,
    {
        collect_levels(&mut all, &manifest.segments[i]);
        proof {
            assert(base + segment_views(manifest.segments@, i + 1) =~= base + segment_views(
                manifest.segments@,
                i as int,
            ) + manifest.segments@[i as int].views());
        }
        i += 1;
    }
    let mut total: u64 = 0;
    let mut k: usize = 0;
    while k < all.len()
        invariant
            k <= all.len(),
            total == charged(all@.take(k as int)),
        decreases all.len() - k,
    {
        proof {
            assert(all@.take(k + 1).drop_last() =~= all@.take(k as int));
        }
        if !found(&all, k, all[k].id) {
            total = plus(total, all[k].size);
        }
        k += 1;
    }
    assert(all@.take(all.len() as int) =~= all@);
    total
}

proof fn runs_hold_their_views(runs: Seq<Vec<TableView>>, k: int, v: TableView)
    requires
        0 <= k <= runs.len(),
    ensures
        run_views(runs, k).contains(v) <==> exists|j: int|
            0 <= j < k && (#[trigger] runs[j])@.contains(v),
    decreases k,
{
    if k > 0 {
        runs_hold_their_views(runs, k - 1, v);
        let before = run_views(runs, k - 1);
        let last = runs[k - 1]@;
        concatenation_holds_both(before, last, v);
        if exists|j: int| 0 <= j < k && (#[trigger] runs[j])@.contains(v) {
            let j = choose|j: int| 0 <= j < k && (#[trigger] runs[j])@.contains(v);
            assert(j == k - 1 || j < k - 1);
        }
    }
}

proof fn concatenation_holds_both(a: Seq<TableView>, b: Seq<TableView>, v: TableView)
    ensures
        (a + b).contains(v) <==> a.contains(v) || b.contains(v),
{
    if a.contains(v) {
        let i = choose|i: int| 0 <= i < a.len() && a[i] == v;
        assert((a + b)[i] == v);
    }
    if b.contains(v) {
        let i = choose|i: int| 0 <= i < b.len() && b[i] == v;
        assert((a + b)[a.len() + i] == v);
    }
    if (a + b).contains(v) {
        let i = choose|i: int| 0 <= i < (a + b).len() && (a + b)[i] == v;
        if i < a.len() {
            assert(a[i] == v);
        } else {
            assert(b[i - a.len()] == v);
        }
    }
}

/// The views of levels are those of the first level and of every sorted run, and no others.
pub proof fn levels_hold_every_table(levels: Levels, v: TableView)
    ensures
        levels.views().contains(v) <==> levels.l0@.contains(v) || exists|j: int|
            0 <= j < levels.compacted@.len() && (#[trigger] levels.compacted@[j])@.contains(v),
        levels.views().take(levels.l0@.len() as int) == levels.l0@,
{
    runs_hold_their_views(levels.compacted@, levels.compacted@.len() as int, v);
    concatenation_holds_both(
        levels.l0@,
        run_views(levels.compacted@, levels.compacted@.len() as int),
        v,
    );
    assert(levels.views().take(levels.l0@.len() as int) =~= levels.l0@);
}

proof fn segments_hold_their_views(segments: Seq<Levels>, k: int, v: TableView)
    requires
        0 <= k <= segments.len(),
    ensures
        segment_views(segments, k).contains(v) <==> exists|s: int|
            0 <= s < k && (#[trigger] segments[s]).views().contains(v),
    decreases k,
{
    if k > 0 {
        segments_hold_their_views(segments, k - 1, v);
        concatenation_holds_both(segment_views(segments, k - 1), segments[k - 1].views(), v);
        if exists|s: int| 0 <= s < k && (#[trigger] segments[s]).views().contains(v) {
            let s = choose|s: int| 0 <= s < k && (#[trigger] segments[s]).views().contains(v);
            assert(s == k - 1 || s < k - 1);
        }
    }
}

/// The views of a manifest are those of every level of its tree and of each of its segments, and no
/// others.
pub proof fn manifests_hold_every_table(manifest: ManifestTables, v: TableView)
    ensures
        manifest.views().contains(v) <==> {
            ||| manifest.tree.l0@.contains(v)
            ||| exists|j: int|
                0 <= j < manifest.tree.compacted@.len() && (
                #[trigger] manifest.tree.compacted@[j])@.contains(v)
            ||| exists|s: int|
                0 <= s < manifest.segments@.len() && (
                #[trigger] manifest.segments@[s]).l0@.contains(v)
            ||| exists|s: int, j: int|
                0 <= s < manifest.segments@.len() && 0 <= j < manifest.segments@[s].compacted@.len()
                    && (#[trigger] manifest.segments@[s].compacted@[j])@.contains(v)
        },
{
    let segments = manifest.segments@;
    segments_hold_their_views(segments, segments.len() as int, v);
    concatenation_holds_both(
        manifest.tree.views(),
        segment_views(segments, segments.len() as int),
        v,
    );
    levels_hold_every_table(manifest.tree, v);
    if exists|s: int| 0 <= s < segments.len() && (#[trigger] segments[s]).views().contains(v) {
        let s = choose|s: int|
            0 <= s < segments.len() && (#[trigger] segments[s]).views().contains(v);
        levels_hold_every_table(segments[s], v);
        if !segments[s].l0@.contains(v) {
            let j = choose|j: int|
                0 <= j < segments[s].compacted@.len() && (
                #[trigger] segments[s].compacted@[j])@.contains(v);
            assert(segments[s].compacted@[j]@.contains(v));
        }
    }
    if exists|s: int| 0 <= s < segments.len() && (#[trigger] segments[s]).l0@.contains(v) {
        let s = choose|s: int| 0 <= s < segments.len() && (#[trigger] segments[s]).l0@.contains(v);
        levels_hold_every_table(segments[s], v);
    }
    if exists|s: int, j: int|
        0 <= s < segments.len() && 0 <= j < segments[s].compacted@.len() && (
        #[trigger] segments[s].compacted@[j])@.contains(v) {
        let (s, j) = choose|s: int, j: int|
            0 <= s < segments.len() && 0 <= j < segments[s].compacted@.len() && (
            #[trigger] segments[s].compacted@[j])@.contains(v);
        levels_hold_every_table(segments[s], v);
    }
}

/// Nothing is charged where there is no table.
pub proof fn no_tables_take_no_space()
    ensures
        charged(Seq::<TableView>::empty()) == 0,
{
}

/// A table whose size changes changes the total by as much, wherever it stands, as long as it
/// occurs once and the total does not reach the largest value.
pub proof fn sizes_add_up(views: Seq<TableView>, i: int, size: u64)
    requires
        0 <= i < views.len(),
        forall|k: int| 0 <= k < views.len() && k != i ==> (#[trigger] views[k]).id != views[i].id,
        charged(views) < u64::MAX,
        charged(views.update(i, TableView { id: views[i].id, size })) < u64::MAX,
    ensures
        charged(views.update(i, TableView { id: views[i].id, size })) + views[i].size == charged(
            views,
        ) + size,
    decreases views.len(),
{
    let changed = views.update(i, TableView { id: views[i].id, size });
    let rest = views.drop_last();
    if i == views.len() - 1 {
        assert(changed.drop_last() =~= rest);
        assert(!occurs(rest, views[i].id));
    } else {
        assert(changed.drop_last() =~= rest.update(i, TableView { id: rest[i].id, size }));
        let id = views.last().id;
        assert(occurs(rest, id) == occurs(changed.drop_last(), id)) by {
            if occurs(rest, id) {
                let k = choose|k: int| 0 <= k < rest.len() && (#[trigger] rest[k]).id == id;
                assert(changed.drop_last()[k].id == id);
            }
            if occurs(changed.drop_last(), id) {
                let k = choose|k: int|
                    0 <= k < rest.len() && (#[trigger] changed.drop_last()[k]).id == id;
                assert(rest[k].id == id);
            }
        }
        assert forall|k: int| 0 <= k < rest.len() && k != i implies (#[trigger] rest[k]).id
            != rest[i].id by {
            assert(rest[k] == views[k]);
        }
        sizes_add_up(rest, i, size);
    }
}

/// A further view of a table that is already counted adds nothing.
pub proof fn repeated_views_add_nothing(views: Seq<TableView>, again: TableView)
    requires
        occurs(views, again.id),
    ensures
        charged(views.push(again)) == charged(views),
{
    assert(views.push(again).drop_last() =~= views);
}

/// A table that is not yet counted adds its size.
pub proof fn new_tables_add_their_size(views: Seq<TableView>, new: TableView)
    requires
        !occurs(views, new.id),
    ensures
        charged(views.push(new)) == count::capped_sum(charged(views), new.size),
{
    assert(views.push(new).drop_last() =~= views);
}

} // verus!
