//! When the accepted writes of a suite became durable.

use crate::count;
use crate::count::{max_of, minus, times};
use crate::histogram;
use crate::histogram::{LatencyHistogram, Recorded};
use crate::suite::encoding;
use crate::suite::encoding::{summarize, LatencySummary};
use crate::workloads::durability::AcceptedWrite;
use vstd::prelude::*;

verus! {

/// The length of a window, in nanoseconds.
pub const WINDOW_NS: u64 = 1_000_000_000;

/// The writes that became durable in a window.
#[derive(Debug, Clone, Copy, PartialEq, Eq, Structural)]
pub struct DurabilityWindow {
    pub start_offset_ns: u64,
    pub duration_ns: u64,
    pub writes_made_durable: u64,
    pub durability_lag: Option<LatencySummary>,
}

/// The state of a collector, as values.
#[verifier::ext_equal]
pub struct WindowsView {
    pub started: u64,
    pub current_index: u64,
    pub current: Recorded,
    pub overall: Recorded,
    pub windows: Seq<DurabilityWindow>,
}

/// The window that a collector is in, as it is when it ends.
pub open spec fn ended_window(v: WindowsView, duration_ns: u64) -> DurabilityWindow {
    DurabilityWindow {
        start_offset_ns: count::capped_product(v.current_index, WINDOW_NS),
        duration_ns,
        writes_made_durable: v.current.total,
        durability_lag: if v.current.total > 0 {
            Some(encoding::summary_of(v.current))
        } else {
            None
        },
    }
}

/// The state after the current window ended.
pub open spec fn ended(v: WindowsView, duration_ns: u64) -> WindowsView {
    WindowsView {
        current: Recorded::none(),
        overall: v.overall.merged(v.current),
        windows: v.windows.push(ended_window(v, duration_ns)),
        ..v
    }
}

/// The state with every window ended that precedes one.
pub open spec fn advanced(v: WindowsView, target: u64) -> WindowsView
    decreases target - v.current_index,
{
    if v.current_index < target {
        let e = ended(v, WINDOW_NS);
        advanced(WindowsView { current_index: (v.current_index + 1) as u64, ..e }, target)
    } else {
        v
    }
}

/// The window that a time belongs to.
pub open spec fn window_at(v: WindowsView, time: u64) -> u64 {
    count::floored_difference(time, v.started) / WINDOW_NS
}

/// The state after a write became durable.
pub open spec fn with_lag(v: WindowsView, covered_at: u64, lag_ns: u64) -> WindowsView {
    let a = advanced(v, window_at(v, covered_at));
    WindowsView { current: a.current.with(histogram::clamped_micros(lag_ns), 1), ..a }
}

/// The state at the end, when the last window has ended too.
pub open spec fn finished(v: WindowsView, covered_at: u64) -> WindowsView {
    let elapsed = count::floored_difference(covered_at, v.started);
    let a = advanced(v, window_at(v, covered_at));
    let partial = count::floored_difference(
        elapsed,
        count::capped_product(a.current_index, WINDOW_NS),
    );
    if partial > 0 || a.current.total > 0 {
        ended(a, count::larger(partial, 1))
    } else {
        a
    }
}

/// Collects the lag of durability in windows of a second.
pub struct WindowedDurability {
    started: u64,
    current_index: u64,
    current: LatencyHistogram,
    overall: LatencyHistogram,
    windows: Vec<DurabilityWindow>,
}

impl View for WindowedDurability {
    type V = WindowsView;

    closed spec fn view(&self) -> WindowsView {
        WindowsView {
            started: self.started,
            current_index: self.current_index,
            current: self.current@,
            overall: self.overall@,
            windows: self.windows@,
        }
    }
}

/// The state of a collector that starts at a time.
pub open spec fn started_at(started: u64) -> WindowsView {
    WindowsView {
        started,
        current_index: 0,
        current: Recorded::none(),
        overall: Recorded::none(),
        windows: Seq::empty(),
    }
}

impl WindowedDurability {
    /// Starts to collect.
    pub fn new(started: u64) -> (r: Self)
        ensures
            r@ == started_at(started),
    {
        let r = WindowedDurability {
            started,
            current_index: 0,
            current: LatencyHistogram::new(),
            overall: LatencyHistogram::new(),
            windows: Vec::new(),
        };
        assert(r@ =~= started_at(started));
        r
    }

    /// Returns the number of lags of the current window.
    pub fn pending_lags(&self) -> (r: u64)
        ensures
            r == self@.current.total,
    {
        self.current.len()
    }

    fn finish_current(&mut self, duration_ns: u64)
        requires
            old(self)@.current.total < u64::MAX,
        ensures
            final(self)@ == ended(old(self)@, duration_ns),
    {
        let ghost before = *self;
        let mut current = LatencyHistogram::new();
        std::mem::swap(&mut current, &mut self.current);
        let durability_lag: Option<LatencySummary> = if current.is_empty() {
            None
        } else {
            Some(summarize(&current))
        };
        self.overall.add(&current);
        let window = DurabilityWindow {
            start_offset_ns: times(self.current_index, WINDOW_NS),
            duration_ns,
            writes_made_durable: current.len(),
            durability_lag,
        };
        self.windows.push(window);
        assert(self@ =~= ended(before@, duration_ns));
    }

    fn advance_to(&mut self, target: u64)
        requires
            old(self)@.current.total < u64::MAX,
        ensures
            final(self)@ == advanced(old(self)@, target),
            final(self)@.current.total <= old(self)@.current.total,
    {
        let ghost whole = advanced(self@, target);
        let ghost most = self@.current.total;
        while self.current_index < target
            invariant
                advanced(self@, target) == whole,
                self@.current.total <= most < u64::MAX,
            decreases target - self.current_index,
        {
            let ghost before = self@;
            self.finish_current(WINDOW_NS);
            self.current_index = self.current_index + 1;
            assert(self@ =~= (WindowsView {
                current_index: (before.current_index + 1) as u64,
                ..ended(before, WINDOW_NS)
            }));
        }
    }

    /// Records that a write became durable at a time, with its lag.
    pub fn record(&mut self, covered_at: u64, lag_ns: u64)
        requires
            old(self)@.current.total < u64::MAX,
        ensures
            final(self)@ == with_lag(old(self)@, covered_at, lag_ns),
            final(self)@.current.total <= old(self)@.current.total + 1,
    {
        let ghost before = *self;
        let offset: u64 = minus(covered_at, self.started);
        self.advance_to(offset / WINDOW_NS);
        self.current.record(lag_ns);
        assert(self@ =~= with_lag(before@, covered_at, lag_ns));
    }

    /// Ends the last window.
    pub fn finish(self, covered_at: u64) -> (r: (LatencyHistogram, Vec<DurabilityWindow>))
        requires
            self@.current.total < u64::MAX,
        ensures
            r.0@ == finished(self@, covered_at).overall,
            r.1@ == finished(self@, covered_at).windows,
    {
        let mut whole = self;
        let elapsed: u64 = minus(covered_at, whole.started);
        whole.advance_to(elapsed / WINDOW_NS);
        let partial: u64 = minus(elapsed, times(whole.current_index, WINDOW_NS));
        if partial > 0 || !whole.current.is_empty() {
            whole.finish_current(max_of(partial, 1));
        }
        (whole.overall, whole.windows)
    }
}

/// The number of writes of some windows.
pub open spec fn writes_in(windows: Seq<DurabilityWindow>) -> int
    decreases windows.len(),
{
    if windows.len() == 0 {
        0
    } else {
        writes_in(windows.drop_last()) + windows.last().writes_made_durable
    }
}

/// Whether the windows follow each other, and hold what the overall distribution does.
pub open spec fn in_order(v: WindowsView) -> bool {
    &&& v.windows.len() == v.current_index
    &&& forall|i: int|
        0 <= i < v.windows.len() ==> (#[trigger] v.windows[i]).duration_ns == WINDOW_NS
            && v.windows[i].start_offset_ns == count::capped_product(i as u64, WINDOW_NS)
    &&& writes_in(v.windows) == v.overall.total
}

proof fn ending_keeps_order(v: WindowsView)
    requires
        in_order(v),
        v.overall.total + v.current.total <= u64::MAX,
        v.current_index < u64::MAX,
    ensures
        in_order(WindowsView {
            current_index: (v.current_index + 1) as u64,
            ..ended(v, WINDOW_NS)
        }),
        ended(v, WINDOW_NS).overall.total == v.overall.total + v.current.total,
{
    let e = ended(v, WINDOW_NS);
    assert(e.windows.drop_last() =~= v.windows);
}

proof fn advancing_keeps_order(v: WindowsView, target: u64)
    requires
        in_order(v),
        v.overall.total + v.current.total <= u64::MAX,
    ensures
        in_order(advanced(v, target)),
        advanced(v, target).overall.total + advanced(v, target).current.total == v.overall.total
            + v.current.total,
        advanced(v, target).started == v.started,
        advanced(v, target).current_index == count::larger(v.current_index, target),
    decreases target - v.current_index,
{
    if v.current_index < target {
        ending_keeps_order(v);
        let e = ended(v, WINDOW_NS);
        advancing_keeps_order(
            WindowsView { current_index: (v.current_index + 1) as u64, ..e },
            target,
        );
    }
}

/// The windows of a collector are consecutive seconds from its start, and what became durable in
/// them is what became durable at all.
pub proof fn windows_follow_coverage(v: WindowsView, covered_at: u64, lag_ns: u64)
    requires
        in_order(v),
        v.overall.total + v.current.total < u64::MAX,
    ensures
        in_order(started_at(v.started)),
        in_order(with_lag(v, covered_at, lag_ns)),
        with_lag(v, covered_at, lag_ns).overall.total + with_lag(
            v,
            covered_at,
            lag_ns,
        ).current.total == v.overall.total + v.current.total + 1,
{
    advancing_keeps_order(v, window_at(v, covered_at));
}

/// At the end every lag that was recorded is in a window, and only the last window may be short.
pub proof fn every_lag_is_in_a_window(v: WindowsView, covered_at: u64)
    requires
        in_order(v),
        v.overall.total + v.current.total <= u64::MAX,
    ensures
        finished(v, covered_at).overall.total == v.overall.total + v.current.total,
        writes_in(finished(v, covered_at).windows) == v.overall.total + v.current.total,
        forall|i: int|
            0 <= i < finished(v, covered_at).windows.len() - 1 ==> (#[trigger] finished(
                v,
                covered_at,
            ).windows[i]).duration_ns == WINDOW_NS,
{
    let a = advanced(v, window_at(v, covered_at));
    advancing_keeps_order(v, window_at(v, covered_at));
    let f = finished(v, covered_at);
    if f.windows.len() > a.windows.len() {
        assert(f.windows.drop_last() =~= a.windows);
    }
}

/// A write that became durable at a time, with its lag.
#[derive(Debug, Clone, Copy, PartialEq, Eq, Structural)]
pub struct Coverage {
    pub covered_at: u64,
    pub lag_ns: u64,
}

/// The state of a collector after writes became durable, one after the other.
pub open spec fn collected(started: u64, coverage: Seq<Coverage>) -> WindowsView
    decreases coverage.len(),
{
    if coverage.len() == 0 {
        started_at(started)
    } else {
        with_lag(
            collected(started, coverage.drop_last()),
            coverage.last().covered_at,
            coverage.last().lag_ns,
        )
    }
}

/// Whether times do not go back, from a start on.
pub open spec fn times_rise(started: u64, coverage: Seq<Coverage>) -> bool {
    &&& forall|i: int| 0 <= i < coverage.len() ==> started <= (#[trigger] coverage[i]).covered_at
    &&& forall|i: int, j: int|
        0 <= i <= j < coverage.len() ==> (#[trigger] coverage[i]).covered_at <= (
        #[trigger] coverage[j]).covered_at
}

/// The number of writes that became durable in a second after a start.
pub open spec fn covered_in(started: u64, coverage: Seq<Coverage>, second: int) -> nat
    decreases coverage.len(),
{
    if coverage.len() == 0 {
        0
    } else {
        covered_in(started, coverage.drop_last(), second) + if (coverage.last().covered_at
            - started) / WINDOW_NS as int == second {
            1nat
        } else {
            0nat
        }
    }
}

/// Whether each window of a collector holds the writes of its second.
pub open spec fn holds_coverage(v: WindowsView, coverage: Seq<Coverage>) -> bool {
    &&& forall|i: int|
        0 <= i < v.windows.len() ==> (#[trigger] v.windows[i]).writes_made_durable == covered_in(
            v.started,
            coverage,
            i,
        ) && (v.windows[i].durability_lag is Some <==> v.windows[i].writes_made_durable > 0)
    &&& v.current.total == covered_in(v.started, coverage, v.current_index as int)
    &&& forall|i: int|
        i > v.current_index ==> #[trigger] covered_in(v.started, coverage, i) == 0
}

proof fn advancing_keeps_coverage(v: WindowsView, coverage: Seq<Coverage>, target: u64)
    requires
        in_order(v),
        v.overall.total + v.current.total <= u64::MAX,
        holds_coverage(v, coverage),
    ensures
        holds_coverage(advanced(v, target), coverage),
    decreases target - v.current_index,
{
    if v.current_index < target {
        ending_keeps_order(v);
        let e = ended(v, WINDOW_NS);
        let next = WindowsView { current_index: (v.current_index + 1) as u64, ..e };
        assert(covered_in(v.started, coverage, v.current_index + 1) == 0);
        assert forall|i: int| 0 <= i < next.windows.len() implies (
        #[trigger] next.windows[i]).writes_made_durable == covered_in(next.started, coverage, i)
            && (next.windows[i].durability_lag is Some <==> next.windows[i].writes_made_durable
            > 0) by {
            if i < v.windows.len() {
                assert(next.windows[i] == v.windows[i]);
            }
        }
        advancing_keeps_coverage(next, coverage, target);
    }
}

proof fn collecting_keeps_coverage(started: u64, coverage: Seq<Coverage>)
    requires
        times_rise(started, coverage),
        coverage.len() < u64::MAX,
    ensures
        ({
            let v = collected(started, coverage);
            &&& in_order(v)
            &&& v.started == started
            &&& v.overall.total + v.current.total == coverage.len()
            &&& holds_coverage(v, coverage)
            &&& v.current_index == (if coverage.len() == 0 {
                0
            } else {
                (coverage.last().covered_at - started) / WINDOW_NS as int
            })
        }),
    decreases coverage.len(),
{
    if coverage.len() > 0 {
        let before = coverage.drop_last();
        let last = coverage.last();
        assert(times_rise(started, before));
        collecting_keeps_coverage(started, before);
        let v = collected(started, before);
        let second = window_at(v, last.covered_at);
        assert(second == (last.covered_at - started) / WINDOW_NS as int);
        if before.len() > 0 {
            assert(coverage[coverage.len() - 2].covered_at <= coverage[coverage.len()
                - 1].covered_at);
        }
        advancing_keeps_order(v, second);
        advancing_keeps_coverage(v, before, second);
        windows_follow_coverage(v, last.covered_at, last.lag_ns);
        let a = advanced(v, second);
        let w = collected(started, coverage);
        assert(w == with_lag(v, last.covered_at, last.lag_ns));
        assert forall|i: int| #[trigger] covered_in(started, coverage, i) == covered_in(
            started,
            before,
            i,
        ) + if i == second {
            1nat
        } else {
            0nat
        } by {}
        assert forall|i: int| i > w.current_index implies #[trigger] covered_in(
            started,
            coverage,
            i,
        ) == 0 by {
            assert(covered_in(started, before, i) == 0);
        }
    }
}

/// Whatever became durable after a start, and up to an end, at times that do not go back: every
/// write is in the window of its second. The windows are consecutive seconds, of which only the
/// last may be short, and one has a lag exactly where it has a write.
pub proof fn windows_hold_the_writes_of_their_second(
    started: u64,
    coverage: Seq<Coverage>,
    ended_at: u64,
)
    requires
        times_rise(started, coverage),
        started <= ended_at,
        forall|i: int| 0 <= i < coverage.len() ==> (#[trigger] coverage[i]).covered_at <= ended_at,
        coverage.len() < u64::MAX,
    ensures
        ({
            let f = finished(collected(started, coverage), ended_at);
            &&& f.overall.total == coverage.len()
            &&& writes_in(f.windows) == coverage.len()
            &&& forall|i: int|
                0 <= i < f.windows.len() ==> {
                    &&& (#[trigger] f.windows[i]).start_offset_ns == i * WINDOW_NS
                    &&& f.windows[i].writes_made_durable == covered_in(started, coverage, i)
                    &&& f.windows[i].durability_lag is Some <==> covered_in(started, coverage, i)
                        > 0
                    &&& 1 <= f.windows[i].duration_ns <= WINDOW_NS
                    &&& i < f.windows.len() - 1 ==> f.windows[i].duration_ns == WINDOW_NS
                }
        }),
{
    let v = collected(started, coverage);
    collecting_keeps_coverage(started, coverage);
    every_lag_is_in_a_window(v, ended_at);
    let elapsed = (ended_at - started) as u64;
    let second = window_at(v, ended_at);
    if coverage.len() > 0 {
        assert(coverage.last().covered_at <= ended_at);
    }
    advancing_keeps_order(v, second);
    advancing_keeps_coverage(v, coverage, second);
    let a = advanced(v, second);
    let f = finished(v, ended_at);
    assert(a.current_index == second);
    assert(second * WINDOW_NS <= elapsed < (second + 1) * WINDOW_NS);
    assert forall|i: int| 0 <= i < f.windows.len() implies {
        &&& (#[trigger] f.windows[i]).start_offset_ns == i * WINDOW_NS
        &&& f.windows[i].writes_made_durable == covered_in(started, coverage, i)
        &&& f.windows[i].durability_lag is Some <==> covered_in(started, coverage, i) > 0
        &&& 1 <= f.windows[i].duration_ns <= WINDOW_NS
        &&& i < f.windows.len() - 1 ==> f.windows[i].duration_ns == WINDOW_NS
    } by {
        if i < a.windows.len() {
            assert(f.windows[i] == a.windows[i]);
        }
        assert(i <= second);
        assert(i * WINDOW_NS <= elapsed);
    }
}

/// The writes that wait to become durable, in the order of their sequences.
pub open spec fn sequences_increase(pending: Seq<AcceptedWrite>) -> bool {
    forall|i: int, j: int|
        0 <= i < j < pending.len() ==> (#[trigger] pending[i]).sequence < (
        #[trigger] pending[j]).sequence
}

/// The number of writes that a frontier covers.
pub open spec fn covered_count(pending: Seq<AcceptedWrite>, durable: u64) -> int
    decreases pending.len(),
{
    if pending.len() == 0 {
        0
    } else if pending.last().sequence <= durable {
        pending.len() as int
    } else {
        covered_count(pending.drop_last(), durable)
    }
}

/// The state of the windows after some writes became durable at one time.
pub open spec fn with_covered(
    v: WindowsView,
    covered: Seq<AcceptedWrite>,
    covered_at: u64,
) -> WindowsView
    decreases covered.len(),
{
    if covered.len() == 0 {
        v
    } else {
        with_lag(
            with_covered(v, covered.drop_last(), covered_at),
            covered_at,
            count::floored_difference(covered_at, covered.last().returned_at),
        )
    }
}

/// The writes with one more, in place of one with the same sequence.
pub open spec fn with_pending(pending: Seq<AcceptedWrite>, write: AcceptedWrite) -> Seq<
    AcceptedWrite,
>
    decreases pending.len(),
{
    if pending.len() == 0 || pending.last().sequence < write.sequence {
        pending.push(write)
    } else if pending.last().sequence == write.sequence {
        pending.drop_last().push(write)
    } else {
        with_pending(pending.drop_last(), write).push(pending.last())
    }
}

proof fn adding_keeps_order(pending: Seq<AcceptedWrite>, write: AcceptedWrite)
    requires
        sequences_increase(pending),
    ensures
        sequences_increase(with_pending(pending, write)),
        with_pending(pending, write).len() > 0,
        pending.len() > 0 ==> with_pending(pending, write).last().sequence == count::larger(
            pending.last().sequence,
            write.sequence,
        ),
        pending.len() == 0 ==> with_pending(pending, write).last().sequence == write.sequence,
        with_pending(pending, write).len() <= pending.len() + 1,
    decreases pending.len(),
{
    if pending.len() > 0 && pending.last().sequence > write.sequence {
        adding_keeps_order(pending.drop_last(), write);
        let rest = pending.drop_last();
        if rest.len() > 0 {
            assert(pending[pending.len() - 2].sequence < pending[pending.len() - 1].sequence);
        }
    }
}

proof fn splits_at(pending: Seq<AcceptedWrite>, durable: u64)
    requires
        sequences_increase(pending),
    ensures
        0 <= covered_count(pending, durable) <= pending.len(),
        forall|i: int|
            0 <= i < pending.len() ==> (i < covered_count(pending, durable) <==> (
            #[trigger] pending[i]).sequence <= durable),
    decreases pending.len(),
{
    if pending.len() > 0 && pending.last().sequence > durable {
        splits_at(pending.drop_last(), durable);
        assert forall|i: int| 0 <= i < pending.len() implies (i < covered_count(pending, durable)
            <==> (#[trigger] pending[i]).sequence <= durable) by {
            if i < pending.len() - 1 {
                assert(pending.drop_last()[i] == pending[i]);
            }
        }
    }
}

/// Follows accepted writes until the durable frontier covers them.
pub struct DurabilityTracker {
    pending: Vec<AcceptedWrite>,
    lag: WindowedDurability,
    input_closed: bool,
}

/// The state of a tracker, as values.
#[verifier::ext_equal]
pub struct TrackerView {
    pub pending: Seq<AcceptedWrite>,
    pub lag: WindowsView,
    pub input_closed: bool,
}

impl View for DurabilityTracker {
    type V = TrackerView;

    closed spec fn view(&self) -> TrackerView {
        TrackerView { pending: self.pending@, lag: self.lag@, input_closed: self.input_closed }
    }
}

/// What a tracker found.
pub struct TrackedDurability {
    pub lag: LatencyHistogram,
    pub windows: Vec<DurabilityWindow>,
    pub final_durable_sequence: u64,
    pub covered_at: u64,
}

impl DurabilityTracker {
    /// The sequences of the writes that wait are in order, and none occurs twice.
    pub open spec fn wf(&self) -> bool {
        sequences_increase(self@.pending)
    }

    /// Starts to follow writes.
    pub fn start(measured_started: u64) -> (r: Self)
        ensures
            r.wf(),
            r@ == (TrackerView {
                pending: Seq::empty(),
                lag: started_at(measured_started),
                input_closed: false,
            }),
    {
        let r = DurabilityTracker {
            pending: Vec::new(),
            lag: WindowedDurability::new(measured_started),
            input_closed: false,
        };
        assert(r@.pending =~= Seq::empty());
        r
    }

    /// Returns the number of writes that wait.
    pub fn waiting(&self) -> (r: usize)
        ensures
            r == self@.pending.len(),
    {
        self.pending.len()
    }

    /// Follows another write.
    pub fn accepted(&mut self, write: AcceptedWrite)
        requires
            old(self).wf(),
        ensures
            final(self).wf(),
            final(self)@ == (TrackerView {
                pending: with_pending(old(self)@.pending, write),
                ..old(self)@
            }),
    {
        let ghost before = self.pending@;
        let mut i: usize = self.pending.len();
        proof {
            adding_keeps_order(before, write);
            assert(before.take(i as int) =~= before);
            assert(before.skip(i as int) =~= Seq::<AcceptedWrite>::empty());
            assert(with_pending(before, write) =~= with_pending(before.take(i as int), write)
                + before.skip(i as int));
        }
        while i > 0 && self.pending[i - 1].sequence > write.sequence
            invariant
                self.pending@ == before,
                i <= before.len(),
                with_pending(before, write) == with_pending(before.take(i as int), write)
                    + before.skip(i as int),
            decreases i,
        {
            proof {
                let head = before.take(i as int);
                assert(head.last() == before[i - 1]);
                assert(head.drop_last() =~= before.take(i - 1));
                assert(seq![before[i - 1]] + before.skip(i as int) =~= before.skip(i - 1));
                assert(with_pending(before, write) =~= with_pending(before.take(i - 1), write)
                    + before.skip(i - 1));
            }
            i -= 1;
        }
        if i > 0 && self.pending[i - 1].sequence == write.sequence {
            self.pending.set(i - 1, write);
            proof {
                let head = before.take(i as int);
                assert(head.last() == before[i - 1]);
                assert(self.pending@ =~= head.drop_last().push(write) + before.skip(i as int));
            }
        } else {
            self.pending.insert(i, write);
            proof {
                let head = before.take(i as int);
                assert(i > 0 ==> head.last() == before[i - 1]);
                assert(self.pending@ =~= head.push(write) + before.skip(i as int));
            }
        }
    }

    /// No more writes follow.
    pub fn close(&mut self)
        ensures
            final(self)@ == (TrackerView { input_closed: true, ..old(self)@ }),
    {
        self.input_closed = true;
    }

    /// Takes note of the durable frontier: the writes that it covers are durable now.
    pub fn observe(&mut self, durable: u64, covered_at: u64)
        requires
            old(self).wf(),
            old(self)@.lag.current.total + old(self)@.pending.len() < u64::MAX,
        ensures
            final(self).wf(),
            final(self)@ == (TrackerView {
                pending: old(self)@.pending.skip(covered_count(old(self)@.pending, durable)),
                lag: with_covered(
                    old(self)@.lag,
                    old(self)@.pending.take(covered_count(old(self)@.pending, durable)),
                    covered_at,
                ),
                ..old(self)@
            }),
            forall|i: int|
                0 <= i < final(self)@.pending.len() ==> (
                #[trigger] final(self)@.pending[i]).sequence > durable,
            final(self)@.lag.current.total + final(self)@.pending.len() <= old(
                self,
            )@.lag.current.total + old(self)@.pending.len(),
    {
        let ghost before = self@;
        let ghost n = covered_count(before.pending, durable);
        let ghost mut done: int = 0;
        proof {
            splits_at(before.pending, durable);
            assert(self@.pending =~= before.pending.skip(0));
        }
        while self.pending.len() > 0 && self.pending[0].sequence <= durable
            invariant
                sequences_increase(before.pending),
                n == covered_count(before.pending, durable),
                0 <= n <= before.pending.len(),
                forall|i: int|
                    0 <= i < before.pending.len() ==> (i < n <==> (
                    #[trigger] before.pending[i]).sequence <= durable),
                0 <= done <= n,
                self@.pending == before.pending.skip(done),
                self@.input_closed == before.input_closed,
                self@.lag == with_covered(before.lag, before.pending.take(done), covered_at),
                self@.lag.current.total + self@.pending.len() <= before.lag.current.total
                    + before.pending.len() < u64::MAX,
            decreases self.pending.len(),
        {
            proof {
                assert(self.pending@[0] == before.pending[done]);
                assert(before.pending.take(done + 1).drop_last() =~= before.pending.take(done));
                assert(before.pending.skip(done).skip(1) =~= before.pending.skip(done + 1));
            }
            let write = self.pending.remove(0);
            self.lag.record(covered_at, minus(covered_at, write.returned_at));
            proof {
                assert(self.pending@ =~= before.pending.skip(done + 1));
                done = done + 1;
            }
        }
        proof {
            if done < n {
                assert(self.pending@[0] == before.pending[done]);
            }
            assert forall|i: int| 0 <= i < self@.pending.len() implies (
            #[trigger] self@.pending[i]).sequence > durable by {
                assert(self@.pending[i] == before.pending[n + i]);
            }
        }
    }

    /// Returns whether every write is durable and no more follow.
    pub fn is_done(&self) -> (r: bool)
        ensures
            r == (self@.input_closed && self@.pending.len() == 0),
    {
        self.input_closed && self.pending.len() == 0
    }

    /// Returns what was found when every write is durable.
    pub fn finish(self, durable: u64, covered_at: u64) -> (r: TrackedDurability)
        requires
            self@.lag.current.total < u64::MAX,
        ensures
            r.lag@ == finished(self@.lag, covered_at).overall,
            r.windows@ == finished(self@.lag, covered_at).windows,
            r.final_durable_sequence == durable,
            r.covered_at == covered_at,
    {
        let (lag, windows) = self.lag.finish(covered_at);
        TrackedDurability { lag, windows, final_durable_sequence: durable, covered_at }
    }
}

/// A tracker that is done has the lag of every write that it followed.
pub proof fn every_covered_write_is_measured(
    v: WindowsView,
    covered: Seq<AcceptedWrite>,
    covered_at: u64,
)
    requires
        in_order(v),
        v.overall.total + v.current.total + covered.len() <= u64::MAX,
    ensures
        in_order(with_covered(v, covered, covered_at)),
        with_covered(v, covered, covered_at).overall.total + with_covered(
            v,
            covered,
            covered_at,
        ).current.total == v.overall.total + v.current.total + covered.len(),
    decreases covered.len(),
{
    if covered.len() > 0 {
        every_covered_write_is_measured(v, covered.drop_last(), covered_at);
        windows_follow_coverage(
            with_covered(v, covered.drop_last(), covered_at),
            covered_at,
            count::floored_difference(covered_at, covered.last().returned_at),
        );
    }
}

/// A write's lag is the time from its return to the observation that covers it, and it is recorded
/// in the window of that observation.
pub proof fn covered_writes_are_recorded(
    v: WindowsView,
    covered: Seq<AcceptedWrite>,
    write: AcceptedWrite,
    covered_at: u64,
)
    requires
        write.returned_at <= covered_at,
    ensures
        with_covered(v, covered.push(write), covered_at) == with_lag(
            with_covered(v, covered, covered_at),
            covered_at,
            (covered_at - write.returned_at) as u64,
        ),
        with_covered(v, Seq::empty(), covered_at) == v,
{
    assert(covered.push(write).drop_last() =~= covered);
}

/// A frontier covers exactly the writes up to its sequence.
pub proof fn frontiers_cover_their_sequences(pending: Seq<AcceptedWrite>, durable: u64, i: int)
    requires
        sequences_increase(pending),
        0 <= i < pending.len(),
    ensures
        0 <= covered_count(pending, durable) <= pending.len(),
        i < covered_count(pending, durable) <==> pending[i].sequence <= durable,
    decreases pending.len(),
{
    let rest = pending.drop_last();
    if pending.last().sequence <= durable {
        if i < pending.len() - 1 {
            assert(pending[i].sequence < pending[pending.len() - 1].sequence);
        }
    } else {
        assert forall|a: int, b: int| 0 <= a < b < rest.len() implies (
        #[trigger] rest[a]).sequence < (#[trigger] rest[b]).sequence by {
            assert(pending[a].sequence < pending[b].sequence);
        }
        if rest.len() == 0 {
            assert(covered_count(rest, durable) == 0);
        } else if i < rest.len() {
            frontiers_cover_their_sequences(rest, durable, i);
            assert(rest[i] == pending[i]);
        } else {
            frontiers_cover_their_sequences(rest, durable, rest.len() - 1);
        }
    }
}

/// A queued write is found in the queue, and the others stay, unless one has its sequence.
pub proof fn queued_writes_are_kept(
    pending: Seq<AcceptedWrite>,
    write: AcceptedWrite,
    other: AcceptedWrite,
)
    requires
        other.sequence != write.sequence,
    ensures
        with_pending(pending, write).contains(write),
        with_pending(pending, write).contains(other) <==> pending.contains(other),
    decreases pending.len(),
{
    let after = with_pending(pending, write);
    if pending.len() == 0 || pending.last().sequence < write.sequence {
        assert(after[after.len() - 1] == write);
        if pending.contains(other) {
            let k = choose|k: int| 0 <= k < pending.len() && pending[k] == other;
            assert(after[k] == other);
        }
        if after.contains(other) {
            let k = choose|k: int| 0 <= k < after.len() && after[k] == other;
            assert(pending[k] == other);
        }
    } else if pending.last().sequence == write.sequence {
        assert(after[after.len() - 1] == write);
        if pending.contains(other) {
            let k = choose|k: int| 0 <= k < pending.len() && pending[k] == other;
            assert(after[k] == other);
        }
        if after.contains(other) {
            let k = choose|k: int| 0 <= k < after.len() && after[k] == other;
            assert(pending[k] == other);
        }
    } else {
        let rest = pending.drop_last();
        queued_writes_are_kept(rest, write, other);
        let inner = with_pending(rest, write);
        let p = choose|p: int| 0 <= p < inner.len() && inner[p] == write;
        assert(after[p] == write);
        if pending.contains(other) {
            let k = choose|k: int| 0 <= k < pending.len() && pending[k] == other;
            if k < rest.len() {
                assert(rest[k] == other);
                let q = choose|q: int| 0 <= q < inner.len() && inner[q] == other;
                assert(after[q] == other);
            } else {
                assert(after[after.len() - 1] == other);
            }
        }
        if after.contains(other) {
            let k = choose|k: int| 0 <= k < after.len() && after[k] == other;
            if k < inner.len() {
                assert(inner[k] == other);
                let q = choose|q: int| 0 <= q < rest.len() && rest[q] == other;
                assert(pending[q] == other);
            } else {
                assert(pending[pending.len() - 1] == other);
            }
        }
    }
}

} // verus!
