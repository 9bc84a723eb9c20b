//! Operations that arrive at a rate, whether or not earlier ones have returned.

use crate::count;
use crate::count::{minus, plus};
use crate::histogram;
use crate::suite::config::WorkloadKind;
use crate::suite::samples::ApplicationCounters;
use crate::suite::stats;
use crate::suite::stats::{Counts, WorkerStats};
use crate::system::{Activity, ApplicationRecorder, ApplicationRegistry};
use crate::workloads::chance::{likely, Asked, Drawn};
use crate::workloads::durability::AcceptedWrite;
use crate::workloads::util;
use crate::workloads::util::{key_for_id, KeySelector, ValueGenerator};
use rand::rngs::StdRng;
use vstd::prelude::*;

verus! {

/// How many recorders the workers share.
pub const WINDOW_RECORDER_SHARDS: usize = 16;

/// How often a worker of a mixed workload updates, in thousandths.
pub const UPDATE_PERMILLE: u64 = 500;

/// Why operations cannot arrive at a rate.
#[derive(Debug, Clone, Copy, PartialEq, Eq, Structural)]
pub enum RateFault {
    Missing,
    Zero,
    /// The rate is beyond what the machine can address.
    TooLarge,
}

/// What keeps operations from arriving at a rate.
pub open spec fn rate_fault(target_rate: Option<u64>) -> Option<RateFault> {
    match target_rate {
        None => Some(RateFault::Missing),
        Some(rate) => if rate == 0 {
            Some(RateFault::Zero)
        } else if rate > usize::MAX {
            Some(RateFault::TooLarge)
        } else {
            None
        },
    }
}

/// Returns the number of workers for a rate: one for each arrival of a second.
pub fn worker_count(target_rate: Option<u64>) -> (r: Result<usize, RateFault>)
    ensures
        r is Ok <==> rate_fault(target_rate) is None,
        r matches Ok(workers) ==> Some(workers as u64) == target_rate,
        r matches Err(e) ==> rate_fault(target_rate) == Some(e),
{
    match target_rate {
        None => Err(RateFault::Missing),
        Some(rate) => if rate == 0 {
            Err(RateFault::Zero)
        } else if rate > usize::MAX as u64 {
            Err(RateFault::TooLarge)
        } else {
            Ok(rate as usize)
        },
    }
}

/// Returns the recorder that a worker shares with others.
pub fn recorder_for(worker: usize) -> (r: usize)
    ensures
        r == worker % WINDOW_RECORDER_SHARDS,
        r < WINDOW_RECORDER_SHARDS,
{
    worker % WINDOW_RECORDER_SHARDS
}

/// The activity of recorders that have recorded nothing.
pub open spec fn idle(n: nat) -> Seq<Activity> {
    Seq::new(n, |i: int| Activity::none())
}

/// Registers the recorders that the workers share.
pub fn window_recorders(registry: &mut ApplicationRegistry) -> (r: Vec<ApplicationRecorder>)
    requires
        old(registry).wf(),
    ensures
        final(registry).wf(),
        r.len() == WINDOW_RECORDER_SHARDS,
        final(registry).activities() == old(registry).activities() + idle(
            WINDOW_RECORDER_SHARDS as nat,
        ),
        forall|i: int|
            0 <= i < r.len() ==> (#[trigger] r@[i]).position() == old(
                registry,
            ).activities().len() + i,
{
    let mut recorders: Vec<ApplicationRecorder> = Vec::new();
    assert(registry.activities() =~= old(registry).activities() + idle(0));
    while recorders.len() < WINDOW_RECORDER_SHARDS
        invariant
            registry.wf(),
            recorders.len() <= WINDOW_RECORDER_SHARDS,
            registry.activities() == old(registry).activities() + idle(recorders.len() as nat),
            forall|i: int|
                0 <= i < recorders.len() ==> (#[trigger] recorders@[i]).position() == old(
                    registry,
                ).activities().len() + i,
        decreases WINDOW_RECORDER_SHARDS - recorders.len(),
    {
        recorders.push(registry.recorder());
        assert(registry.activities() =~= old(registry).activities() + idle(
            recorders.len() as nat,
        ));
    }
    recorders
}

/// When operations arrive.
#[derive(Debug, Clone, Copy, PartialEq, Eq, Structural)]
pub struct Schedule {
    /// When the next operation arrives, in nanoseconds.
    pub scheduled: u64,
    pub deadline: u64,
    pub period: u64,
    pub offered: u64,
    pub dropped: u64,
}

impl Schedule {
    /// Time passes between arrivals, and none is dropped that was not offered.
    pub open spec fn wf(self) -> bool {
        self.period > 0 && self.dropped <= self.offered
    }

    /// The schedule after an arrival.
    pub open spec fn with_arrival(self) -> Self {
        Schedule {
            scheduled: count::capped_sum(self.scheduled, self.period),
            offered: count::capped_sum(self.offered, 1),
            ..self
        }
    }

    /// Whether an operation has arrived by a time.
    pub open spec fn is_due(self, now: u64) -> bool {
        self.scheduled <= now && self.scheduled < self.deadline
    }

    /// Starts a schedule.
    pub fn start(started: u64, duration: u64, period: u64) -> (r: Self)
        requires
            period > 0,
        ensures
            r.wf(),
            r == (Schedule {
                scheduled: started,
                deadline: count::capped_sum(started, duration),
                period,
                offered: 0,
                dropped: 0,
            }),
    {
        Schedule {
            scheduled: started,
            deadline: plus(started, duration),
            period,
            offered: 0,
            dropped: 0,
        }
    }

    /// Returns when the next operation arrives, unless none does any more.
    pub fn next_arrival(&self) -> (r: Option<u64>)
        ensures
            r == (if self.scheduled < self.deadline {
                Some(self.scheduled)
            } else {
                None
            }),
    {
        if self.scheduled < self.deadline {
            Some(self.scheduled)
        } else {
            None
        }
    }

    /// Takes an operation that has arrived by a time.
    pub fn take_arrival(&mut self, now: u64) -> (r: Option<u64>)
        requires
            old(self).wf(),
        ensures
            final(self).wf(),
            old(self).is_due(now) ==> r == Some(old(self).scheduled) && *final(self)
                == old(self).with_arrival(),
            !old(self).is_due(now) ==> r is None && *final(self) == *old(self),
    {
        if self.scheduled <= now && self.scheduled < self.deadline {
            let arrival: u64 = self.scheduled;
            self.scheduled = plus(self.scheduled, self.period);
            self.offered = plus(self.offered, 1);
            Some(arrival)
        } else {
            None
        }
    }

    /// The operation that was taken last found no room in the queue.
    pub fn drop_arrival(&mut self)
        requires
            old(self).wf(),
            old(self).dropped < old(self).offered,
        ensures
            final(self).wf(),
            *final(self) == (Schedule { dropped: (old(self).dropped + 1) as u64, ..*old(self) }),
    {
        self.dropped = self.dropped + 1;
    }

    /// Returns what a part of the schedule added.
    pub fn since(&self, start: &Self) -> (r: (u64, u64))
        ensures
            r.0 == count::floored_difference(self.offered, start.offered),
            r.1 == count::floored_difference(self.dropped, start.dropped),
    {
        (minus(self.offered, start.offered), minus(self.dropped, start.dropped))
    }

    /// Adds the arrivals to what the workers counted.
    pub fn finish(&self, merged: &mut WorkerStats)
        ensures
            final(merged).counts == old(merged).counts.with_schedule(self.offered, self.dropped),
            final(merged).histograms == old(merged).histograms,
    {
        merged.counts.offered = self.offered;
        merged.counts.dropped = self.dropped;
        merged.counts.total = plus(merged.counts.total, self.dropped);
    }
}

/// Whether a schedule is as far as its arrivals.
pub open spec fn on_time(s: Schedule, started: u64) -> bool {
    s.scheduled == started + s.offered * s.period
}

/// Arrivals keep their period, however late they are taken.
pub proof fn arrivals_keep_their_period(s: Schedule, started: u64, now: u64)
    requires
        s.wf(),
        on_time(s, started),
        s.is_due(now),
        s.scheduled + s.period <= u64::MAX,
        s.offered < u64::MAX,
    ensures
        on_time(s.with_arrival(), started),
{
    let p = s.period as int;
    let n = s.offered as int;
    assert((n + 1) * p == n * p + p) by (nonlinear_arith);
}

/// When no more operations arrive, one has been offered for every period that began before the
/// deadline.
pub proof fn every_period_is_offered(s: Schedule, started: u64, last: u64)
    requires
        s.wf(),
        on_time(s, started),
        s.scheduled >= s.deadline,
        s.offered > 0,
        last == started + (s.offered - 1) * s.period,
        last < s.deadline,
    ensures
        (s.offered - 1) * s.period < s.deadline - started <= s.offered * s.period,
{
}

/// What a worker asks for.
pub enum OpenRequest {
    Read { key: Vec<u8> },
    Update { key: Vec<u8>, value: Vec<u8> },
}

/// What came back.
#[derive(Debug, Clone, Copy, PartialEq, Eq, Structural)]
pub enum OpenReply {
    /// A value of a length was read.
    Found(usize),
    /// There was no value.
    Missing,
    /// The read failed.
    ReadFailed,
    /// A value of a length was written, at a sequence.
    Stored(usize, u64),
    /// The write failed.
    WriteFailed,
}

/// When an operation arrived, and what it took.
#[derive(Debug, Clone, Copy, PartialEq, Eq, Structural)]
pub struct OpenTimes {
    pub scheduled: u64,
    pub invoked: u64,
    /// When the database returned.
    pub returned_at: u64,
    pub completed: u64,
    /// How long a write was held back.
    pub backpressure_ns: u64,
}

/// Whether a reply is that to a write.
pub open spec fn is_update(reply: OpenReply) -> bool {
    reply is Stored || reply is WriteFailed
}

/// The counters after an operation.
pub open spec fn counted(counts: Counts, reply: OpenReply, times: OpenTimes) -> Counts {
    let held = if is_update(reply) {
        Counts {
            backpressure_ns: count::capped_sum(counts.backpressure_ns, times.backpressure_ns),
            ..counts
        }
    } else {
        counts
    };
    match reply {
        OpenReply::Found(n) => held.with_success(n as u64),
        OpenReply::Stored(n, sequence) => held.with_success(n as u64).with_write(
            times.returned_at,
            sequence,
        ),
        _ => held.with_error(),
    }
}

/// The histograms after an operation: its return, its delay in the queue, and its response as the
/// arrival saw it.
pub open spec fn measured(
    m: Map<Seq<char>, histogram::Recorded>,
    reply: OpenReply,
    times: OpenTimes,
) -> Map<Seq<char>, histogram::Recorded> {
    let operation = if is_update(reply) {
        "update"@
    } else {
        "read"@
    };
    histogram::with_observation(
        histogram::with_observation(
            stats::returned(
                m,
                operation,
                count::floored_difference(times.returned_at, times.invoked),
            ),
            "scheduling_delay"@,
            count::floored_difference(times.invoked, times.scheduled),
        ),
        "response"@,
        count::floored_difference(times.completed, times.scheduled),
    )
}

/// Records an operation, and returns the write to follow.
pub fn record_open_loop_completion(
    stats: &mut WorkerStats,
    counters: &mut ApplicationCounters,
    reply: OpenReply,
    times: OpenTimes,
) -> (r: Option<AcceptedWrite>)
    requires
        old(stats).histograms.wf(),
    ensures
        final(stats).histograms.wf(),
        final(stats).counts == counted(old(stats).counts, reply, times),
        final(stats)@.histograms == measured(old(stats)@.histograms, reply, times),
        *final(counters) == (if reply is Found || reply is Stored {
            old(counters).with_operation()
        } else {
            old(counters).with_operation().with_error()
        }),
        r == (match reply {
            OpenReply::Stored(_, sequence) => Some(
                AcceptedWrite { sequence, returned_at: times.returned_at },
            ),
            _ => None,
        }),
{
    let latency: u64 = minus(times.returned_at, times.invoked);
    let mut write: Option<AcceptedWrite> = None;
    counters.count_operation();
    match reply {
        OpenReply::Found(n) => {
            stats.record_success("read", latency, n as u64);
        },
        OpenReply::Stored(n, sequence) => {
            stats.record_backpressure(times.backpressure_ns);
            stats.record_success("update", latency, n as u64);
            stats.record_write(times.returned_at, sequence);
            write = Some(AcceptedWrite { sequence, returned_at: times.returned_at });
        },
        OpenReply::WriteFailed => {
            stats.record_backpressure(times.backpressure_ns);
            stats.record_error("update", latency);
            counters.count_error();
        },
        _ => {
            stats.record_error("read", latency);
            counters.count_error();
        },
    }
    stats.histograms.record("scheduling_delay", minus(times.invoked, times.scheduled));
    stats.histograms.record("response", minus(times.completed, times.scheduled));
    write
}

/// One worker of an open loop.
pub struct OpenWorker {
    setup: OpenSetup,
    selector: KeySelector,
    values: ValueGenerator,
    rng: StdRng,
    stats: WorkerStats,
    decided: Option<Drawn<bool>>,
    picked: Option<Drawn<u64>>,
}

/// What a worker was set up with.
#[derive(Debug, Clone, Copy, PartialEq, Eq, Structural)]
pub struct OpenSetup {
    pub kind: WorkloadKind,
    pub record_count: u64,
    pub key_bytes: usize,
    pub value_bytes: usize,
}

/// Returns how often a worker updates, in thousandths, where its workload mixes reads and updates.
pub fn open_update_permille(kind: WorkloadKind) -> (r: Option<u64>)
    ensures
        r == (if kind is OpenLoopReadUpdate {
            Some(500u64)
        } else {
            None
        }),
{
    match kind {
        WorkloadKind::OpenLoopReadUpdate => Some(UPDATE_PERMILLE),
        _ => None,
    }
}

/// Makes the request for a record: an update with a value, or a read.
pub fn open_request(setup: &OpenSetup, update: bool, id: u64, value: Vec<u8>) -> (r: OpenRequest)
    ensures
        update ==> (r matches OpenRequest::Update { key, value: stored } && key@
            == util::record_key(id, setup.key_bytes as nat) && stored == value),
        !update ==> (r matches OpenRequest::Read { key } && key@ == util::record_key(
            id,
            setup.key_bytes as nat,
        )),
{
    let key = key_for_id(id, setup.key_bytes);
    if update {
        OpenRequest::Update { key, value }
    } else {
        OpenRequest::Read { key }
    }
}

/// Whether a worker can ask for something: a record of the workload is read, or written over
/// where the workload has updates.
pub open spec fn may_ask(setup: OpenSetup, request: OpenRequest) -> bool {
    exists|id: u64|
        {
            &&& (id < setup.record_count || (setup.record_count == 0 && id == 0))
            &&& match request {
                OpenRequest::Read { key } => key@ == #[trigger] util::record_key(
                    id,
                    setup.key_bytes as nat,
                ),
                OpenRequest::Update { key, value } => setup.kind
                    == WorkloadKind::OpenLoopReadUpdate && key@ == util::record_key(
                    id,
                    setup.key_bytes as nat,
                ) && value@.len() == setup.value_bytes,
            }
        }
}

/// The key that a request names.
pub open spec fn asked_key(request: OpenRequest) -> Seq<u8> {
    match request {
        OpenRequest::Read { key } => key@,
        OpenRequest::Update { key, .. } => key@,
    }
}

impl OpenWorker {
    /// What the worker was set up with.
    pub closed spec fn setup(&self) -> OpenSetup {
        self.setup
    }

    /// What the worker counted and measured.
    pub closed spec fn measures(&self) -> stats::StatsView {
        self.stats@
    }

    /// Where the worker's values come from.
    pub closed spec fn source(&self) -> util::GeneratorView {
        self.values@
    }

    /// The worker's source of chance.
    pub closed spec fn generator(&self) -> StdRng {
        self.rng
    }

    /// The draw that decided between a read and an update for the last arrival.
    pub closed spec fn decided(&self) -> Option<Drawn<bool>> {
        self.decided
    }

    /// The draw that the record of the last arrival came of.
    pub closed spec fn picked(&self) -> Option<Drawn<u64>> {
        self.picked
    }

    /// The selector is valid, and the corpus is no shorter than a value.
    pub closed spec fn wf(&self) -> bool {
        &&& self.selector.wf()
        &&& self.selector is Uniform
        &&& self.selector.domain() == self.setup.record_count
        &&& self.values.wf()
        &&& self.values.corpus() matches Some(bytes) ==> self.setup.value_bytes <= bytes.len()
        &&& self.stats.histograms.wf()
    }

    /// Sets a worker up.
    pub fn new(setup: OpenSetup, rng: StdRng) -> (r: Self)
        ensures
            r.wf(),
            r.setup() == setup,
            r.source() == (util::GeneratorView { corpus: None, next_at: 0 }),
            r.measures().counts == Counts::zero(),
            r.measures().histograms == Map::<Seq<char>, histogram::Recorded>::empty(),
    {
        OpenWorker {
            setup,
            selector: KeySelector::uniform(setup.record_count),
            values: ValueGenerator::new(),
            rng,
            stats: WorkerStats::new(),
            decided: None,
            picked: None,
        }
    }

    /// Decides what to ask for an arrival.
    pub fn next_request(&mut self) -> (r: OpenRequest)
        requires
            old(self).wf(),
        ensures
            final(self).wf(),
            final(self).setup() == old(self).setup(),
            final(self).measures() == old(self).measures(),
            may_ask(old(self).setup(), r),
            old(self).setup().kind is OpenLoopReadUpdate ==> {
                &&& final(self).decided() is Some
                &&& final(self).decided()->0.asked() == Asked::Likely(500)
                &&& final(self).decided()->0.before() == old(self).generator()
                &&& r is Update <==> final(self).decided()->0.outcome()
            },
            !(old(self).setup().kind is OpenLoopReadUpdate) ==> final(self).decided() is None
                && r is Read,
            old(self).setup().record_count > 0 ==> {
                &&& final(self).picked() is Some
                &&& final(self).picked()->0.asked() == Asked::Below(old(self).setup().record_count)
                &&& final(self).picked()->0.before() == (if final(self).decided() is Some {
                    final(self).decided()->0.after()
                } else {
                    old(self).generator()
                })
                &&& asked_key(r) == util::record_key(
                    final(self).picked()->0.outcome(),
                    old(self).setup().key_bytes as nat,
                )
            },
            r is Read ==> final(self).source() == old(self).source(),
            r matches OpenRequest::Update { value, .. } ==> util::generated(
                old(self).source(),
                old(self).setup().value_bytes as nat,
                final(self).source(),
                value@,
            ),
    {
        let mut update = false;
        self.decided = None;
        if let Some(permille) = open_update_permille(self.setup.kind) {
            let (outcome, drawn) = likely(&mut self.rng, permille);
            update = outcome;
            self.decided = Some(drawn);
        }
        let (id, picked) = self.selector.pick(&mut self.rng);
        self.picked = picked;
        let value = if update {
            self.values.generate(self.setup.value_bytes, &mut self.rng)
        } else {
            Vec::new()
        };
        let request = open_request(&self.setup, update, id, value);
        assert(util::record_key(id, self.setup.key_bytes as nat).len() == self.setup.key_bytes);
        request
    }

    /// Records what came back of an arrival, and returns the write to follow.
    pub fn completed(
        &mut self,
        counters: &mut ApplicationCounters,
        reply: OpenReply,
        times: OpenTimes,
    ) -> (r: Option<AcceptedWrite>)
        requires
            old(self).wf(),
        ensures
            final(self).wf(),
            final(self).setup() == old(self).setup(),
            final(self).source() == old(self).source(),
            final(self).measures().counts == counted(old(self).measures().counts, reply, times),
            final(self).measures().histograms == measured(
                old(self).measures().histograms,
                reply,
                times,
            ),
            *final(counters) == (if reply is Found || reply is Stored {
                old(counters).with_operation()
            } else {
                old(counters).with_operation().with_error()
            }),
            r == (match reply {
                OpenReply::Stored(_, sequence) => Some(
                    AcceptedWrite { sequence, returned_at: times.returned_at },
                ),
                _ => None,
            }),
    {
        record_open_loop_completion(&mut self.stats, counters, reply, times)
    }

    /// Returns what was counted and measured.
    pub fn into_stats(self) -> (r: WorkerStats)
        requires
            self.wf(),
        ensures
            r@ == self.measures(),
            r.histograms.wf(),
    {
        self.stats
    }
}

/// Every arrival is answered, dropped, or still in the queue: an arrival that is answered counts
/// one operation, and one that is dropped counts one more at the end.
pub proof fn arrivals_are_accounted_for(
    counts: Counts,
    reply: OpenReply,
    times: OpenTimes,
    offered: u64,
    dropped: u64,
)
    requires
        counts.total == counts.successful + counts.errors,
        counts.total < u64::MAX,
        dropped <= offered,
        counts.total + dropped <= u64::MAX,
    ensures
        counted(counts, reply, times).total == counts.total + 1,
        counted(counts, reply, times).total == counted(counts, reply, times).successful + counted(
            counts,
            reply,
            times,
        ).errors,
        counts.with_schedule(offered, dropped).total == counts.successful + counts.errors
            + dropped,
{
}

/// An arrival moves the schedule on by one period and counts one offer; it is due once its time has
/// come and until the deadline.
pub proof fn arrivals_move_the_schedule(s: Schedule, now: u64)
    requires
        s.scheduled + s.period <= u64::MAX,
        s.offered < u64::MAX,
    ensures
        s.with_arrival().scheduled == s.scheduled + s.period,
        s.with_arrival().offered == s.offered + 1,
        s.with_arrival().dropped == s.dropped,
        s.with_arrival().period == s.period,
        s.with_arrival().deadline == s.deadline,
        s.is_due(now) <==> s.scheduled <= now && s.scheduled < s.deadline,
{
}

/// A reply counts once: a read or a write that succeeded with its bytes, a write also as a write
/// and with its backpressure, anything else as an error.
pub proof fn replies_count_once(c: Counts, n: usize, sequence: u64, times: OpenTimes)
    requires
        c.total < u64::MAX,
        c.successful < u64::MAX,
        c.errors < u64::MAX,
        c.writes < u64::MAX,
        c.payload_bytes + n <= u64::MAX,
        c.backpressure_ns + times.backpressure_ns <= u64::MAX,
    ensures
        ({
            let r = counted(c, OpenReply::Found(n), times);
            &&& r.total == c.total + 1 && r.successful == c.successful + 1
            &&& r.payload_bytes == c.payload_bytes + n
            &&& r.errors == c.errors && r.writes == c.writes
            &&& r.backpressure_ns == c.backpressure_ns
        }),
        ({
            let r = counted(c, OpenReply::Stored(n, sequence), times);
            &&& r.total == c.total + 1 && r.successful == c.successful + 1
            &&& r.payload_bytes == c.payload_bytes + n
            &&& r.errors == c.errors && r.writes == c.writes + 1
            &&& r.backpressure_ns == c.backpressure_ns + times.backpressure_ns
            &&& r.last_write_sequence is Some && r.last_write_sequence->0 >= sequence
            &&& r.first_write_return is Some && r.first_write_return->0 <= times.returned_at
        }),
        ({
            let r = counted(c, OpenReply::WriteFailed, times);
            &&& r.total == c.total + 1 && r.errors == c.errors + 1
            &&& r.successful == c.successful && r.writes == c.writes
            &&& r.backpressure_ns == c.backpressure_ns + times.backpressure_ns
        }),
{
}

/// A reply is measured from its call to its return, from its scheduled time to its call, and from
/// its scheduled time to its completion.
pub proof fn replies_are_measured_from_their_schedule(
    m: Map<Seq<char>, histogram::Recorded>,
    reply: OpenReply,
    times: OpenTimes,
)
    requires
        times.scheduled <= times.invoked <= times.returned_at,
        times.scheduled <= times.completed,
    ensures
        ({
            let operation = if reply is Stored || reply is WriteFailed {
                "update"@
            } else {
                "read"@
            };
            let one = stats::returned(m, operation, (times.returned_at - times.invoked) as u64);
            let two = histogram::with_observation(
                one,
                "scheduling_delay"@,
                (times.invoked - times.scheduled) as u64,
            );
            measured(m, reply, times) == histogram::with_observation(
                two,
                "response"@,
                (times.completed - times.scheduled) as u64,
            )
        }),
{
}

/// A target rate is accepted exactly where it is given, positive, and fits the machine.
pub proof fn rates_are_positive(target_rate: Option<u64>)
    ensures
        rate_fault(target_rate) is None <==> target_rate is Some && 0 < target_rate->0
            <= usize::MAX,
{
}

} // verus!
