//! How long accepted writes take to become durable.
//!
//! The database publishes a durable frontier: every write up to its sequence is durable. Each
//! client's writes wait in a queue of their own until an observation of the frontier covers them.

use crate::count;
use crate::count::{minus, plus};
use crate::system::{Activity, ApplicationRecorder, ApplicationRegistry};
use std::collections::VecDeque;
use vstd::prelude::*;

verus! {

/// A write that the database accepted, and when it returned.
#[derive(Debug, Clone, Copy, PartialEq, Eq, Structural)]
pub struct AcceptedWrite {
    pub sequence: u64,
    pub returned_at: u64,
}

/// A durable frontier, and when it was seen.
#[derive(Debug, Clone, Copy, PartialEq, Eq, Structural)]
pub struct FrontierObservation {
    pub sequence: u64,
    pub observed_at: u64,
}

/// What durability tracking found.
#[derive(Debug, Clone, Copy, PartialEq, Eq, Structural)]
pub struct DurabilityResult {
    /// Writes that became durable.
    pub count: u64,
    /// The last frontier that was seen.
    pub final_durable_sequence: u64,
}

/// The frontiers that were seen, each beyond the one before.
pub struct FrontierHistory {
    observations: Vec<FrontierObservation>,
}

/// Whether each frontier is beyond the one before.
pub open spec fn frontier_advances(observations: Seq<FrontierObservation>) -> bool {
    forall|i: int, j: int|
        0 <= i < j < observations.len() ==> (#[trigger] observations[i]).sequence < (
        #[trigger] observations[j]).sequence
}

impl FrontierHistory {
    /// There is at least one observation, and the frontier only advances.
    pub closed spec fn wf(&self) -> bool {
        &&& self.observations.len() > 0
        &&& frontier_advances(self.observations@)
    }

    /// Starts from the frontier at the time.
    pub fn start(sequence: u64, observed_at: u64) -> (r: Self)
        ensures
            r.wf(),
            r@ == seq![FrontierObservation { sequence, observed_at }],
    {
        let mut observations: Vec<FrontierObservation> = Vec::new();
        observations.push(FrontierObservation { sequence, observed_at });
        assert(observations@ =~= seq![FrontierObservation { sequence, observed_at }]);
        FrontierHistory { observations }
    }

    /// The last frontier that was seen.
    pub fn latest(&self) -> (r: u64)
        requires
            self.wf(),
        ensures
            self@.len() > 0,
            r == self@.last().sequence,
    {
        self.observations[self.observations.len() - 1].sequence
    }

    /// The first observation, from a position on, that covers a sequence.
    fn cover(&self, from: usize, sequence: u64) -> (r: usize)
        requires
            from <= self@.len(),
        ensures
            r == first_cover(self@, from as int, sequence),
            from <= r <= self@.len(),
    {
        let mut i: usize = from;
        while i < self.observations.len() && self.observations[i].sequence < sequence
            invariant
                from <= i <= self@.len(),
                first_cover(self@, from as int, sequence) == first_cover(
                    self@,
                    i as int,
                    sequence,
                ),
            decreases self.observations.len() - i,
        {
            i += 1;
        }
        i
    }

    /// Keeps a frontier that is beyond the last one, and says whether it was.
    pub fn observe(&mut self, sequence: u64, observed_at: u64) -> (r: bool)
        requires
            old(self).wf(),
        ensures
            final(self).wf(),
            old(self)@.len() > 0,
            r == (sequence > old(self)@.last().sequence),
            final(self)@ == (if r {
                old(self)@.push(FrontierObservation { sequence, observed_at })
            } else {
                old(self)@
            }),
    {
        if sequence > self.latest() {
            self.observations.push(FrontierObservation { sequence, observed_at });
            true
        } else {
            false
        }
    }
}

impl View for FrontierHistory {
    type V = Seq<FrontierObservation>;

    closed spec fn view(&self) -> Seq<FrontierObservation> {
        self.observations@
    }
}

/// The first observation, from a position on, whose frontier covers a sequence, or the number of
/// observations.
pub open spec fn first_cover(
    observations: Seq<FrontierObservation>,
    from: int,
    sequence: u64,
) -> int
    decreases observations.len() - from,
{
    if from >= observations.len() {
        observations.len() as int
    } else if observations[from].sequence >= sequence {
        from
    } else {
        first_cover(observations, from + 1, sequence)
    }
}

/// The time from a write's return to an observation.
pub open spec fn delay(write: AcceptedWrite, observation: FrontierObservation) -> u64 {
    count::floored_difference(observation.observed_at, write.returned_at)
}

/// What is left of a queue, and the delays of the writes that left it.
#[verifier::ext_equal]
pub struct Drained {
    pub pending: Seq<AcceptedWrite>,
    pub cursor: int,
    pub delays: Seq<u64>,
}

/// Takes writes off the front of a queue while an observation covers them.
///
/// Observations before the cursor are not looked at again.
pub open spec fn drained(
    observations: Seq<FrontierObservation>,
    pending: Seq<AcceptedWrite>,
    cursor: int,
) -> Drained
    decreases pending.len(),
{
    if pending.len() == 0 {
        Drained { pending, cursor, delays: Seq::empty() }
    } else {
        let cover = first_cover(observations, cursor, pending[0].sequence);
        if cover >= observations.len() {
            Drained { pending, cursor: cover, delays: Seq::empty() }
        } else {
            let rest = drained(observations, pending.drop_first(), cover);
            Drained {
                pending: rest.pending,
                cursor: rest.cursor,
                delays: seq![delay(pending[0], observations[cover])] + rest.delays,
            }
        }
    }
}

/// Activity after delays were recorded.
pub open spec fn with_delays(activity: Activity, delays: Seq<u64>) -> Activity
    decreases delays.len(),
{
    if delays.len() == 0 {
        activity
    } else {
        with_delays(activity, delays.drop_last()).with_latency("durable"@, delays.last())
    }
}

/// The writes of one client that wait to become durable.
pub struct DurabilityShard {
    recorder: ApplicationRecorder,
    pending: VecDeque<AcceptedWrite>,
    cursor: usize,
    latest: u64,
    closed: bool,
    count: u64,
}

/// What a shard holds.
#[verifier::ext_equal]
pub struct ShardView {
    /// Writes that are not known to be durable.
    pub pending: Seq<AcceptedWrite>,
    /// Observations that are behind the writes that left.
    pub cursor: int,
    /// The last frontier that the shard was told of.
    pub latest: u64,
    /// No further write will come.
    pub closed: bool,
    /// Writes that became durable.
    pub count: u64,
}

impl DurabilityShard {
    /// Where delays are recorded.
    pub closed spec fn recorder(&self) -> ApplicationRecorder {
        self.recorder
    }

    /// A shard that was told of the frontier so far.
    pub fn new(recorder: ApplicationRecorder, history: &FrontierHistory) -> (r: Self)
        requires
            history.wf(),
        ensures
            history@.len() > 0,
            r.recorder() == recorder,
            r@ == (ShardView {
                pending: Seq::empty(),
                cursor: 0,
                latest: history@.last().sequence,
                closed: false,
                count: 0,
            }),
    {
        let latest: u64 = history.latest();
        DurabilityShard {
            recorder,
            pending: VecDeque::new(),
            cursor: 0,
            latest,
            closed: false,
            count: 0,
        }
    }

    /// Queues a write. It leaves at once where the frontier already covers it.
    ///
    /// Returns the delays that were recorded.
    pub fn accepted(
        &mut self,
        write: AcceptedWrite,
        history: &FrontierHistory,
        registry: &mut ApplicationRegistry,
    ) -> (r: Vec<u64>)
        requires
            old(registry).wf(),
            0 <= old(self).recorder().position() < old(registry).activities().len(),
            old(self)@.cursor <= history@.len(),
        ensures
            final(registry).wf(),
            final(self).recorder() == old(self).recorder(),
            final(self)@.latest == old(self)@.latest,
            final(self)@.closed == old(self)@.closed,
            final(self)@.cursor <= history@.len(),
            ({
                let queued = old(self)@.pending.push(write);
                let d = if write.sequence <= old(self)@.latest {
                    drained(history@, queued, old(self)@.cursor)
                } else {
                    Drained { pending: queued, cursor: old(self)@.cursor, delays: Seq::empty() }
                };
                &&& final(self)@.pending == d.pending
                &&& final(self)@.cursor == d.cursor
                &&& r@ == d.delays
            }),
            final(self)@.count == count::capped_sum(old(self)@.count, r.len() as u64),
            final(registry).activities() == old(registry).activities().update(
                old(self).recorder().position(),
                with_delays(
                    old(registry).activities()[old(self).recorder().position()],
                    r@,
                ),
            ),
    {
        let covered = write.sequence <= self.latest;
        self.pending.push_back(write);
        if covered {
            self.drain_covered(history, registry)
        } else {
            let delays: Vec<u64> = Vec::new();
            assert(with_delays(registry.activities()[self.recorder.position()], delays@)
                == registry.activities()[self.recorder.position()]);
            assert(registry.activities() =~= registry.activities().update(
                self.recorder.position(),
                registry.activities()[self.recorder.position()],
            ));
            delays
        }
    }

    /// Learns of the frontier, and lets the writes leave that it covers.
    ///
    /// Returns the delays that were recorded.
    pub fn frontier_changed(
        &mut self,
        history: &FrontierHistory,
        registry: &mut ApplicationRegistry,
    ) -> (r: Vec<u64>)
        requires
            history.wf(),
            old(registry).wf(),
            0 <= old(self).recorder().position() < old(registry).activities().len(),
            old(self)@.cursor <= history@.len(),
        ensures
            history@.len() > 0,
            final(registry).wf(),
            final(self).recorder() == old(self).recorder(),
            final(self)@.latest == history@.last().sequence,
            final(self)@.closed == old(self)@.closed,
            final(self)@.cursor <= history@.len(),
            ({
                let d = drained(history@, old(self)@.pending, old(self)@.cursor);
                &&& final(self)@.pending == d.pending
                &&& final(self)@.cursor == d.cursor
                &&& r@ == d.delays
            }),
            final(self)@.count == count::capped_sum(old(self)@.count, r.len() as u64),
            final(registry).activities() == old(registry).activities().update(
                old(self).recorder().position(),
                with_delays(
                    old(registry).activities()[old(self).recorder().position()],
                    r@,
                ),
            ),
    {
        self.latest = history.latest();
        self.drain_covered(history, registry)
    }

    /// No further write will come.
    pub fn close(&mut self)
        ensures
            final(self).recorder() == old(self).recorder(),
            final(self)@ == (ShardView { closed: true, ..old(self)@ }),
    {
        self.closed = true;
    }

    /// The number of writes that became durable, once every write of a closed shard has.
    pub fn finished(&self) -> (r: Option<u64>)
        ensures
            r == (if self@.closed && self@.pending.len() == 0 {
                Some(self@.count)
            } else {
                None
            }),
    {
        if self.closed && self.pending.len() == 0 {
            Some(self.count)
        } else {
            None
        }
    }

    fn drain_covered(
        &mut self,
        history: &FrontierHistory,
        registry: &mut ApplicationRegistry,
    ) -> (r: Vec<u64>)
        requires
            old(registry).wf(),
            0 <= old(self).recorder().position() < old(registry).activities().len(),
            old(self)@.cursor <= history@.len(),
        ensures
            final(registry).wf(),
            final(self).recorder() == old(self).recorder(),
            final(self)@.latest == old(self)@.latest,
            final(self)@.closed == old(self)@.closed,
            final(self)@.cursor <= history@.len(),
            final(self)@.pending == drained(
                history@,
                old(self)@.pending,
                old(self)@.cursor,
            ).pending,
            final(self)@.cursor == drained(history@, old(self)@.pending, old(self)@.cursor).cursor,
            r@ == drained(history@, old(self)@.pending, old(self)@.cursor).delays,
            final(self)@.count == count::capped_sum(old(self)@.count, r.len() as u64),
            final(registry).activities() == old(registry).activities().update(
                old(self).recorder().position(),
                with_delays(
                    old(registry).activities()[old(self).recorder().position()],
                    r@,
                ),
            ),
    {
        let ghost position = self.recorder.position();
        let ghost activities = registry.activities();
        let ghost whole = drained(history@, self.pending@, self.cursor as int);
        let mut delays: Vec<u64> = Vec::new();
        assert(activities =~= activities.update(
            position,
            with_delays(activities[position], delays@),
        ));
        assert(whole.delays =~= delays@ + whole.delays);
        while self.pending.len() > 0
            invariant_except_break
                ({
                    let rest = drained(history@, self.pending@, self.cursor as int);
                    &&& whole.pending == rest.pending
                    &&& whole.cursor == rest.cursor
                    &&& whole.delays == delays@ + rest.delays
                }),
            invariant
                registry.wf(),
                self.recorder == old(self).recorder,
                self.latest == old(self).latest,
                self.closed == old(self).closed,
                position == self.recorder.position(),
                0 <= position < activities.len(),
                self.cursor <= history@.len(),
                self.count == count::capped_sum(old(self).count, delays.len() as u64),
                registry.activities() == activities.update(
                    position,
                    with_delays(activities[position], delays@),
                ),
            ensures
                whole.pending == self.pending@,
                whole.cursor == self.cursor,
                whole.delays == delays@,
            decreases self.pending@.len(),
        {
            let write = self.pending[0];
            let ghost waiting = self.pending@;
            self.cursor = history.cover(self.cursor, write.sequence);
            if self.cursor >= history.observations.len() {
                break;
            }
            let waited: u64 = minus(
                history.observations[self.cursor].observed_at,
                write.returned_at,
            );
            let _ = self.pending.pop_front();
            self.recorder.record_latency(registry, "durable", waited);
            self.count = plus(self.count, 1);
            proof {
                let rest = drained(history@, self.pending@, self.cursor as int);
                assert(self.pending@ =~= waiting.drop_first());
                assert(delays@ + (seq![waited] + rest.delays) =~= delays@.push(waited)
                    + rest.delays);
                assert(delays@.push(waited).drop_last() =~= delays@);
                assert(registry.activities() =~= activities.update(
                    position,
                    with_delays(activities[position], delays@.push(waited)),
                ));
            }
            delays.push(waited);
        }
        delays
    }
}

impl View for DurabilityShard {
    type V = ShardView;

    closed spec fn view(&self) -> ShardView {
        ShardView {
            pending: self.pending@,
            cursor: self.cursor as int,
            latest: self.latest,
            closed: self.closed,
            count: self.count,
        }
    }
}

/// Whether the sequences of queued writes never go back.
pub open spec fn sequences_rise(pending: Seq<AcceptedWrite>) -> bool {
    forall|i: int, j: int|
        0 <= i <= j < pending.len() ==> (#[trigger] pending[i]).sequence <= (
        #[trigger] pending[j]).sequence
}

/// Whether the observations before a position do not cover a sequence.
pub open spec fn behind(
    observations: Seq<FrontierObservation>,
    cursor: int,
    sequence: u64,
) -> bool {
    forall|i: int| 0 <= i < cursor ==> (#[trigger] observations[i]).sequence < sequence
}

proof fn first_cover_is_first(observations: Seq<FrontierObservation>, from: int, sequence: u64)
    requires
        0 <= from <= observations.len(),
    ensures
        ({
            let cover = first_cover(observations, from, sequence);
            &&& from <= cover <= observations.len()
            &&& cover < observations.len() ==> observations[cover].sequence >= sequence
            &&& forall|i: int|
                from <= i < cover ==> (#[trigger] observations[i]).sequence < sequence
        }),
    decreases observations.len() - from,
{
    if from < observations.len() && observations[from].sequence < sequence {
        first_cover_is_first(observations, from + 1, sequence);
    }
}

proof fn nothing_before_the_cursor_covers(
    observations: Seq<FrontierObservation>,
    cursor: int,
    sequence: u64,
)
    requires
        0 <= cursor <= observations.len(),
        behind(observations, cursor, sequence),
    ensures
        first_cover(observations, 0, sequence) == first_cover(observations, cursor, sequence),
{
    first_cover_is_first(observations, 0, sequence);
    first_cover_is_first(observations, cursor, sequence);
    let a = first_cover(observations, 0, sequence);
    let b = first_cover(observations, cursor, sequence);
    if a < b {
        assert(observations[a].sequence >= sequence);
    }
    if b < a {
        assert(observations[b].sequence >= sequence);
    }
}

/// A write's delay ends at the first observation that covers it, however late the write was
/// queued, and a write leaves the queue exactly where the last frontier covers it.
///
/// This holds where a client's writes come in the order of their sequences.
pub proof fn delays_end_at_the_first_cover(
    observations: Seq<FrontierObservation>,
    pending: Seq<AcceptedWrite>,
    cursor: int,
)
    requires
        observations.len() > 0,
        frontier_advances(observations),
        sequences_rise(pending),
        0 <= cursor <= observations.len(),
        pending.len() > 0 ==> behind(observations, cursor, pending[0].sequence),
    ensures
        ({
            let d = drained(observations, pending, cursor);
            &&& d.delays.len() + d.pending.len() == pending.len()
            &&& d.pending == pending.skip(d.delays.len() as int)
            &&& forall|i: int|
                0 <= i < pending.len() ==> (i < d.delays.len() <==> (
                #[trigger] pending[i]).sequence <= observations.last().sequence)
            &&& forall|i: int|
                0 <= i < d.delays.len() ==> #[trigger] d.delays[i] == delay(
                    pending[i],
                    observations[first_cover(observations, 0, pending[i].sequence)],
                )
            &&& d.pending.len() > 0 ==> behind(observations, d.cursor, d.pending[0].sequence)
            &&& 0 <= d.cursor <= observations.len()
        }),
    decreases pending.len(),
{
    let d = drained(observations, pending, cursor);
    if pending.len() == 0 {
        assert(d.pending =~= pending.skip(0));
    } else {
        let write = pending[0];
        let cover = first_cover(observations, cursor, write.sequence);
        nothing_before_the_cursor_covers(observations, cursor, write.sequence);
        first_cover_is_first(observations, cursor, write.sequence);
        assert(observations.last() == observations[observations.len() - 1]);
        if cover >= observations.len() {
            assert(d.pending =~= pending.skip(0));
            assert forall|i: int| 0 <= i < pending.len() implies (
            #[trigger] pending[i]).sequence > observations.last().sequence by {
                assert(pending[0].sequence <= pending[i].sequence);
                assert(observations.len() - 1 < cursor || observations.len() - 1 < cover);
            }
        } else {
            let tail = pending.drop_first();
            let rest = drained(observations, tail, cover);
            assert forall|i: int, j: int| 0 <= i <= j < tail.len() implies (
            #[trigger] tail[i]).sequence <= (#[trigger] tail[j]).sequence by {
                assert(pending[i + 1].sequence <= pending[j + 1].sequence);
            }
            if tail.len() > 0 {
                assert(tail[0] == pending[1]);
                assert(pending[0].sequence <= pending[1].sequence);
            }
            delays_end_at_the_first_cover(observations, tail, cover);
            assert(d.delays =~= seq![delay(write, observations[cover])] + rest.delays);
            assert(pending.skip(d.delays.len() as int) =~= tail.skip(rest.delays.len() as int));
            assert(write.sequence <= observations[cover].sequence);
            assert(observations[cover].sequence <= observations.last().sequence);
            assert forall|i: int| 0 <= i < pending.len() implies (i < d.delays.len() <==> (
            #[trigger] pending[i]).sequence <= observations.last().sequence) by {
                if i > 0 {
                    assert(pending[i] == tail[i - 1]);
                }
            }
            assert forall|i: int| 0 <= i < d.delays.len() implies #[trigger] d.delays[i] == delay(
                pending[i],
                observations[first_cover(observations, 0, pending[i].sequence)],
            ) by {
                if i > 0 {
                    assert(pending[i] == tail[i - 1]);
                    assert(d.delays[i] == rest.delays[i - 1]);
                }
            }
        }
    }
}

/// A write that leaves the queue is recorded with the time from its return to the first observation
/// that covers it, and with zero where the observation was made before the write returned.
pub proof fn recorded_delays_reach_the_first_cover(
    observations: Seq<FrontierObservation>,
    pending: Seq<AcceptedWrite>,
    cursor: int,
    i: int,
    first: int,
)
    requires
        frontier_advances(observations),
        sequences_rise(pending),
        0 <= cursor <= observations.len(),
        pending.len() > 0 ==> behind(observations, cursor, pending[0].sequence),
        0 <= i < pending.len(),
        0 <= first < observations.len(),
        observations[first].sequence >= pending[i].sequence,
        forall|k: int| 0 <= k < first ==> (#[trigger] observations[k]).sequence
            < pending[i].sequence,
    ensures
        ({
            let delays = drained(observations, pending, cursor).delays;
            &&& i < delays.len() <= pending.len()
            &&& observations[first].observed_at >= pending[i].returned_at ==> delays[i]
                + pending[i].returned_at == observations[first].observed_at
            &&& observations[first].observed_at < pending[i].returned_at ==> delays[i] == 0
        }),
{
    delays_end_at_the_first_cover(observations, pending, cursor);
    first_cover_is_first(observations, 0, pending[i].sequence);
    let cover = first_cover(observations, 0, pending[i].sequence);
    if cover < first {
        assert(observations[cover].sequence >= pending[i].sequence);
    }
    if first < cover {
        assert(observations[first].sequence < pending[i].sequence);
    }
    assert(observations.last() == observations[observations.len() - 1]);
    if first < observations.len() - 1 {
        assert(observations[first].sequence < observations[observations.len() - 1].sequence);
    }
    let delays = drained(observations, pending, cursor).delays;
    assert(pending[i].sequence <= observations.last().sequence);
    assert(delays[i] == delay(pending[i], observations[cover]));
}

/// A write that no observation covers stays in the queue, behind those that left and with nothing
/// else changed.
pub proof fn uncovered_writes_stay(
    observations: Seq<FrontierObservation>,
    pending: Seq<AcceptedWrite>,
    cursor: int,
    i: int,
)
    requires
        observations.len() > 0,
        frontier_advances(observations),
        sequences_rise(pending),
        0 <= cursor <= observations.len(),
        pending.len() > 0 ==> behind(observations, cursor, pending[0].sequence),
        0 <= i < pending.len(),
        forall|k: int| 0 <= k < observations.len() ==> (#[trigger] observations[k]).sequence
            < pending[i].sequence,
    ensures
        ({
            let d = drained(observations, pending, cursor);
            &&& d.delays.len() <= i
            &&& d.delays.len() + d.pending.len() == pending.len()
            &&& d.pending[i - d.delays.len()] == pending[i]
        }),
{
    delays_end_at_the_first_cover(observations, pending, cursor);
    assert(observations.last() == observations[observations.len() - 1]);
}

/// Adds up what the shards found.
pub fn durability_result(counts: &Vec<u64>, final_durable_sequence: u64) -> (r: DurabilityResult)
    ensures
        r.count == counted(counts@),
        r.final_durable_sequence == final_durable_sequence,
{
    let mut count: u64 = 0;
    let mut i: usize = 0;
    while i < counts.len()
        invariant
            i <= counts.len(),
            count == counted(counts@.take(i as int)),
        decreases counts.len() - i,
    {
        count = plus(count, counts[i]);
        proof {
            assert(counts@.take(i + 1).drop_last() =~= counts@.take(i as int));
        }
        i += 1;
    }
    assert(counts@.take(counts.len() as int) =~= counts@);
    DurabilityResult { count, final_durable_sequence }
}

/// A sum of counters that stops at the largest value.
pub open spec fn counted(counts: Seq<u64>) -> u64
    decreases counts.len(),
{
    if counts.len() == 0 {
        0
    } else {
        count::capped_sum(counted(counts.drop_last()), counts.last())
    }
}

/// Every delay is recorded once as a durable latency, and no call with it.
pub proof fn every_delay_is_recorded(activity: Activity, delays: Seq<u64>, delay_ns: u64)
    ensures
        with_delays(activity, Seq::empty()) == activity,
        with_delays(activity, delays.push(delay_ns)).histograms
            == crate::histogram::with_observation(
            with_delays(activity, delays).histograms,
            "api/"@ + "durable"@,
            delay_ns,
        ),
        with_delays(activity, delays.push(delay_ns)).operations == with_delays(
            activity,
            delays,
        ).operations,
{
    assert(delays.push(delay_ns).drop_last() =~= delays);
}

/// The writes of all shards are counted together.
pub proof fn every_shard_counts(counts: Seq<u64>, count: u64)
    requires
        counted(counts) + count <= u64::MAX,
    ensures
        counted(counts.push(count)) == counted(counts) + count,
        counted(Seq::<u64>::empty()) == 0,
{
    assert(counts.push(count).drop_last() =~= counts);
}

} // verus!
