//! Closed-loop clients: what each asks of the database, and what comes of the answers.

use crate::config::{ResolvedConfig, Task};
use crate::count;
use crate::count::{max_of, minus, plus};
use crate::system::{ApplicationRecorder, ApplicationRegistry};
use crate::workloads::chance::{below, likely, shuffled, Asked, Drawn};
use crate::workloads::durability::AcceptedWrite;
use crate::workloads::stats;
use crate::workloads::stats::{record_error, record_success, WorkerStats};
use crate::workloads::util;
use crate::workloads::util::{key_for_id, missing_key_for_id, KeySelector, ValueGenerator};
use rand::rngs::StdRng;
use vstd::prelude::*;

verus! {

/// Records of a scan where no limit is set.
pub const DEFAULT_SCAN_LIMIT: usize = 10;

/// Keys of the contended set where none is set.
pub const DEFAULT_HOT_KEYS: u64 = 10_000;

/// Reads of a transaction, and as many writes.
pub const TRANSACTION_READS: usize = 5;

/// One thing that a client asks of the database.
#[derive(Debug, Clone, Copy, PartialEq, Eq, Structural)]
pub enum Request {
    Get { id: u64, missing: bool },
    Put { id: u64 },
    Scan { id: u64 },
    Transaction,
}

/// The task has no clients.
#[derive(Debug, Clone, Copy, PartialEq, Eq, Structural)]
pub struct InactiveTask;

/// Whether a task selects few records often.
pub open spec fn selects_skewed(task: Task) -> bool {
    task == Task::PointReadSkewed || task == Task::ReadHeavy || task == Task::Balanced || task
        == Task::UpdateHeavy
}

/// The share of gets, in thousandths, of a task that mixes gets and puts.
pub open spec fn get_share(task: Task) -> Option<u64> {
    match task {
        Task::ReadHeavy => Some(950),
        Task::Balanced => Some(500),
        Task::UpdateHeavy => Some(50),
        _ => None,
    }
}

/// Returns the share of gets, in thousandths, of a task that mixes gets and puts.
pub fn get_permille(task: Task) -> (r: Option<u64>)
    ensures
        r == get_share(task),
        r matches Some(permille) ==> permille <= 1000,
{
    match task {
        Task::ReadHeavy => Some(950),
        Task::Balanced => Some(500),
        Task::UpdateHeavy => Some(50),
        _ => None,
    }
}

/// Whether clients of a task ask anything of the database.
pub open spec fn is_active(task: Task) -> bool {
    task != Task::BulkLoad && task != Task::Compaction && task != Task::Idle
}

/// What a client of a task asks, given whether a mixed task reads and which record was picked.
pub open spec fn requested(task: Task, read: bool, id: u64) -> Option<Request> {
    match task {
        Task::PointReadUniform | Task::PointReadSkewed => Some(
            Request::Get { id, missing: false },
        ),
        Task::PointReadMissing => Some(Request::Get { id, missing: true }),
        Task::ReadHeavy | Task::Balanced | Task::UpdateHeavy => if read {
            Some(Request::Get { id, missing: false })
        } else {
            Some(Request::Put { id })
        },
        Task::RangeScan => Some(Request::Scan { id }),
        Task::SustainedIngest => Some(Request::Put { id }),
        Task::TransactionContention => Some(Request::Transaction),
        Task::BulkLoad | Task::Compaction | Task::Idle => None,
    }
}

/// Says what a client of a task asks, given whether a mixed task reads and which record was picked.
pub fn request_for(task: Task, read: bool, id: u64) -> (r: Result<Request, InactiveTask>)
    ensures
        r is Ok <==> is_active(task),
        r matches Ok(request) ==> requested(task, read, id) == Some(request),
{
    match task {
        Task::PointReadUniform | Task::PointReadSkewed => Ok(Request::Get { id, missing: false }),
        Task::PointReadMissing => Ok(Request::Get { id, missing: true }),
        Task::ReadHeavy | Task::Balanced | Task::UpdateHeavy => {
            if read {
                Ok(Request::Get { id, missing: false })
            } else {
                Ok(Request::Put { id })
            }
        },
        Task::RangeScan => Ok(Request::Scan { id }),
        Task::SustainedIngest => Ok(Request::Put { id }),
        Task::TransactionContention => Ok(Request::Transaction),
        Task::BulkLoad | Task::Compaction | Task::Idle => Err(InactiveTask),
    }
}

/// How a task selects records.
pub open spec fn selection_of(task: Task, record_count: u64) -> KeySelector {
    if selects_skewed(task) {
        KeySelector::ScrambledZipfian { record_count: count::larger(record_count, 1) }
    } else {
        KeySelector::Uniform { record_count }
    }
}

/// Chooses how a task selects records.
pub fn selector_for(task: Task, record_count: u64) -> (r: KeySelector)
    ensures
        r.wf(),
        r == selection_of(task, record_count),
{
    match task {
        Task::PointReadSkewed | Task::ReadHeavy | Task::Balanced | Task::UpdateHeavy => {
            KeySelector::zipfian(record_count)
        },
        _ => KeySelector::uniform(record_count),
    }
}

/// Bytes of a key and a value together.
pub open spec fn pair_bytes(key: usize, value: usize) -> u64 {
    if key + value > usize::MAX {
        usize::MAX as u64
    } else {
        (key + value) as u64
    }
}

/// Adds up the bytes of a key and a value.
pub fn logical_bytes(key: usize, value: usize) -> (r: u64)
    ensures
        r == pair_bytes(key, value),
{
    if key > usize::MAX - value {
        usize::MAX as u64
    } else {
        (key + value) as u64
    }
}

/// What became of a read, with the length of the value.
#[derive(Debug, Clone, Copy, PartialEq, Eq, Structural)]
pub enum ReadOutcome {
    Found(usize),
    Absent,
    Failed,
}

/// What became of a write.
#[derive(Debug, Clone, Copy, PartialEq, Eq, Structural)]
pub enum WriteOutcome {
    Accepted { sequence: u64, returned_at: u64 },
    Failed,
}

/// What a scan's iterator returned.
#[derive(Debug, Clone, Copy, PartialEq, Eq, Structural)]
pub enum ScanEvent {
    Entry { key: usize, value: usize },
    End,
    Failed,
}

/// What became of a commit.
#[derive(Debug, Clone, Copy, PartialEq, Eq, Structural)]
pub enum CommitOutcome {
    Committed { sequence: u64, returned_at: u64 },
    /// The transaction wrote nothing.
    WithoutWrite,
    Conflict,
    Failed,
}

/// A step of a transaction.
#[derive(Debug, Clone, Copy, PartialEq, Eq, Structural)]
pub struct TransactionStep {
    pub read: bool,
    pub id: u64,
}

/// How far a scan has come.
#[derive(Debug, Clone, Copy, PartialEq, Eq, Structural)]
pub struct ScanProgress {
    pub limit: usize,
    pub expected: usize,
    pub returned: usize,
}

/// Counters after a get.
pub open spec fn after_get(s: WorkerStats, outcome: ReadOutcome) -> WorkerStats {
    match outcome {
        ReadOutcome::Found(_) => WorkerStats {
            read_hits: count::capped_sum(s.read_hits, 1),
            ..s
        },
        ReadOutcome::Absent => WorkerStats {
            read_misses: count::capped_sum(s.read_misses, 1),
            ..s
        },
        ReadOutcome::Failed => s.with_error(),
    }
}

/// Counters after a put.
pub open spec fn after_put(s: WorkerStats, outcome: WriteOutcome) -> WorkerStats {
    match outcome {
        WriteOutcome::Accepted { sequence, .. } => s.with_write(sequence),
        WriteOutcome::Failed => s.with_error(),
    }
}

impl ScanProgress {
    /// A scan that has returned nothing.
    pub open spec fn at(record_count: u64, start_id: u64, limit: usize) -> Self {
        ScanProgress {
            limit,
            expected: if count::floored_difference(record_count, start_id) < limit {
                count::floored_difference(record_count, start_id) as usize
            } else {
                limit
            },
            returned: 0,
        }
    }

    /// Whether the scan has returned as much as it may.
    pub open spec fn full(self) -> bool {
        self.returned >= self.limit
    }

    /// The counters of a client whose scan has ended.
    pub open spec fn judged(self, s: WorkerStats) -> WorkerStats {
        if self.returned != self.expected {
            s.with_error()
        } else {
            s
        }
    }
}

/// Counters, progress and whether the scan goes on, after what its iterator returned.
pub open spec fn after_scan_event(s: WorkerStats, p: ScanProgress, event: ScanEvent) -> (
    WorkerStats,
    ScanProgress,
    bool,
) {
    match event {
        ScanEvent::Entry { .. } => {
            let next = ScanProgress { returned: (p.returned + 1) as usize, ..p };
            let counted = WorkerStats { scan_records: count::capped_sum(s.scan_records, 1), ..s };
            if next.full() {
                (next.judged(counted), next, false)
            } else {
                (counted, next, true)
            }
        },
        ScanEvent::End => {
            let counted = WorkerStats {
                scan_end_calls: count::capped_sum(s.scan_end_calls, 1),
                ..s
            };
            (p.judged(counted), p, false)
        },
        ScanEvent::Failed => (s.with_error(), p, false),
    }
}

/// Counters after a transaction's read, and whether the transaction goes on.
pub open spec fn after_transaction_read(s: WorkerStats, outcome: ReadOutcome) -> (WorkerStats, bool) {
    match outcome {
        ReadOutcome::Found(_) => (s, true),
        ReadOutcome::Absent => (s.with_error(), true),
        ReadOutcome::Failed => (s.with_error(), false),
    }
}

/// Counters after a transaction's write, and whether the transaction goes on.
pub open spec fn after_transaction_write(s: WorkerStats, accepted: bool) -> (WorkerStats, bool) {
    if accepted {
        (s, true)
    } else {
        (s.with_error(), false)
    }
}

/// Counters after a commit.
pub open spec fn after_commit(s: WorkerStats, outcome: CommitOutcome) -> WorkerStats {
    match outcome {
        CommitOutcome::Committed { sequence, .. } => (WorkerStats {
            transaction_commits: count::capped_sum(s.transaction_commits, 1),
            ..s
        }).with_write(sequence),
        CommitOutcome::WithoutWrite => s.with_error(),
        CommitOutcome::Conflict => WorkerStats {
            transaction_conflicts: count::capped_sum(s.transaction_conflicts, 1),
            ..s
        },
        CommitOutcome::Failed => s.with_error(),
    }
}

/// The steps of a transaction, from which of them read and the record of each.
pub open spec fn paired_steps(order: Seq<bool>, ids: Seq<u64>) -> Seq<TransactionStep> {
    Seq::new(order.len(), |i: int| TransactionStep { read: order[i], id: ids[i] })
}

/// Pairs which steps of a transaction read with the record of each.
pub fn pair_steps(order: &Vec<bool>, ids: &Vec<u64>) -> (r: Vec<TransactionStep>)
    requires
        order.len() == ids.len(),
    ensures
        r@ == paired_steps(order@, ids@),
{
    let mut steps: Vec<TransactionStep> = Vec::new();
    let mut i: usize = 0;
    while i < order.len()
        invariant
            order.len() == ids.len(),
            i <= order.len(),
            steps@ == paired_steps(order@, ids@).take(i as int),
        decreases order.len() - i,
    {
        steps.push(TransactionStep { read: order[i], id: ids[i] });
        proof {
            let all = paired_steps(order@, ids@);
            assert(all.take(i + 1) =~= all.take(i as int).push(all[i as int]));
        }
        i += 1;
    }
    proof {
        let all = paired_steps(order@, ids@);
        assert(all.take(order.len() as int) =~= all);
    }
    steps
}

/// Whether the steps of a transaction come of draws: five reads and five writes in the order that
/// was drawn, each of a record that was drawn below a bound.
pub open spec fn steps_come_of(
    before: StdRng,
    draws: StepDraws,
    after: StdRng,
    keys: u64,
    steps: Seq<TransactionStep>,
) -> bool {
    &&& draws.order.asked() == Asked::Order(
        seq![true, true, true, true, true, false, false, false, false, false],
    )
    &&& draws.order.before() == before
    &&& draws.order.outcome() == reads_of(steps)
    &&& draws.ids.len() == steps.len()
    &&& forall|i: int|
        0 <= i < steps.len() ==> {
            &&& (#[trigger] draws.ids@[i]).asked() == Asked::Below(keys)
            &&& draws.ids@[i].outcome() == steps[i].id
            &&& draws.ids@[i].before() == (if i == 0 {
                draws.order.after()
            } else {
                draws.ids@[i - 1].after()
            })
        }
    &&& after == (if draws.ids.len() == 0 {
        draws.order.after()
    } else {
        draws.ids@.last().after()
    })
}

/// Shuffles the steps of a transaction, and picks a key below a bound for each.
pub(crate) fn transaction_steps(rng: &mut StdRng, keys: u64) -> (r: (
    Vec<TransactionStep>,
    StepDraws,
))
    requires
        keys > 0,
    ensures
        is_transaction(r.0@, keys),
        steps_come_of(*old(rng), r.1, *final(rng), keys, r.0@),
{
    let order = vec![true, true, true, true, true, false, false, false, false, false];
    let ghost all = order@;
    let (order, drawn) = shuffled(rng, order);
    proof {
        shuffling_keeps_counts(all, order@);
    }
    let mut ids: Vec<u64> = Vec::new();
    let mut draws: Vec<Drawn<u64>> = Vec::new();
    while ids.len() < order.len()
        invariant
            keys > 0,
            ids.len() <= order.len(),
            draws.len() == ids.len(),
            forall|k: int| 0 <= k < ids.len() ==> #[trigger] ids@[k] < keys,
            forall|k: int|
                0 <= k < draws.len() ==> {
                    &&& (#[trigger] draws@[k]).asked() == Asked::Below(keys)
                    &&& draws@[k].outcome() == ids@[k]
                    &&& draws@[k].before() == (if k == 0 {
                        drawn.after()
                    } else {
                        draws@[k - 1].after()
                    })
                },
            *rng == (if draws.len() == 0 {
                drawn.after()
            } else {
                draws@.last().after()
            }),
        decreases order.len() - ids.len(),
    {
        let (id, draw) = below(rng, keys);
        ids.push(id);
        draws.push(draw);
    }
    let steps = pair_steps(&order, &ids);
    assert(reads_of(steps@) =~= order@);
    (steps, StepDraws { order: drawn, ids: draws })
}

/// One client of a workload.
pub struct Client {
    task: Task,
    record_count: u64,
    key_bytes: usize,
    value_bytes: usize,
    scan_limit: usize,
    hot_keys: u64,
    selector: KeySelector,
    values: ValueGenerator,
    rng: StdRng,
    recorder: Option<ApplicationRecorder>,
    stats: WorkerStats,
    decided: Option<Drawn<bool>>,
    picked: Option<Drawn<u64>>,
    planned: Option<StepDraws>,
}

/// The draws that the steps of a transaction came of.
pub struct StepDraws {
    /// The order of reads and writes.
    pub order: Drawn<Seq<bool>>,
    /// The record of each step.
    pub ids: Vec<Drawn<u64>>,
}

/// What a client was set up with.
pub struct Setup {
    pub task: Task,
    pub record_count: u64,
    pub key_bytes: usize,
    pub value_bytes: usize,
    pub scan_limit: usize,
    pub hot_keys: u64,
    pub recorder: Option<ApplicationRecorder>,
}

/// What a configuration sets a client up with.
pub open spec fn setup_of(config: ResolvedConfig, recorder: Option<ApplicationRecorder>) -> Setup {
    Setup {
        task: config.task.task,
        record_count: config.dataset.record_count,
        key_bytes: config.dataset.key_bytes,
        value_bytes: config.dataset.value_bytes,
        scan_limit: match config.task.scan_limit {
            Some(limit) => limit,
            None => DEFAULT_SCAN_LIMIT,
        },
        hot_keys: match config.task.transaction_hot_keys {
            Some(keys) => count::larger(keys, 1),
            None => DEFAULT_HOT_KEYS,
        },
        recorder,
    }
}

impl Setup {
    /// How a client selects records.
    pub open spec fn selection(self) -> KeySelector {
        selection_of(self.task, self.record_count)
    }

    /// Whether a record can be picked: the reserved one by a task that inserts, else one that the
    /// task's selection can give.
    pub open spec fn may_pick(self, reserved: u64, id: u64) -> bool {
        if self.task == Task::SustainedIngest {
            id == reserved
        } else {
            &&& self.selection().selects(id)
            &&& id < self.selection().domain() || (self.selection().domain() == 0 && id == 0)
        }
    }

    /// Whether a request can come of some choices.
    pub open spec fn may_request(self, reserved: u64, request: Request) -> bool {
        exists|read: bool, id: u64| #[trigger]
            requested(self.task, read, id) == Some(request) && self.may_pick(reserved, id)
    }
}

/// Whether a request comes of the draws that were made for it, one after the other, and of no
/// others.
pub open spec fn answers(
    task: Task,
    selection: KeySelector,
    reserved: u64,
    before: StdRng,
    decided: Option<Drawn<bool>>,
    picked: Option<Drawn<u64>>,
    after: StdRng,
    answer: Result<Request, InactiveTask>,
) -> bool {
    let middle = if decided is Some {
        decided->0.after()
    } else {
        before
    };
    &&& decided is Some <==> get_share(task) is Some
    &&& decided is Some ==> {
        &&& decided->0.asked() == Asked::Likely(get_share(task)->0)
        &&& decided->0.before() == before
        &&& answer is Ok && answer->Ok_0 is Get <==> decided->0.outcome()
    }
    &&& picked is Some ==> picked->0.before() == middle && picked->0.after() == after
    &&& picked is None ==> after == middle
    &&& picked is Some <==> task != Task::SustainedIngest && selection.domain() > 0
    &&& answer matches Ok(request) ==> request.record() matches Some(id) ==> {
        if task == Task::SustainedIngest {
            id == reserved
        } else {
            util::comes_of(selection, picked, id)
        }
    }
}

impl Request {
    /// The record that a request names.
    pub open spec fn record(self) -> Option<u64> {
        match self {
            Request::Get { id, .. } => Some(id),
            Request::Put { id } => Some(id),
            Request::Scan { id } => Some(id),
            Request::Transaction => None,
        }
    }
}

impl Client {
    /// The selector fits the task, and the corpus is no shorter than a value.
    pub closed spec fn wf(&self) -> bool {
        &&& self.selector.wf()
        &&& self.selector == self.setup().selection()
        &&& self.values.wf()
        &&& self.values.corpus() matches Some(bytes) ==> self.value_bytes <= bytes.len()
        &&& self.hot_keys > 0
    }

    /// What the client was set up with.
    pub closed spec fn setup(&self) -> Setup {
        Setup {
            task: self.task,
            record_count: self.record_count,
            key_bytes: self.key_bytes,
            value_bytes: self.value_bytes,
            scan_limit: self.scan_limit,
            hot_keys: self.hot_keys,
            recorder: self.recorder,
        }
    }

    /// How the client selects records.
    pub closed spec fn selection(&self) -> KeySelector {
        self.selector
    }

    /// Where the client's values come from.
    pub closed spec fn source(&self) -> util::GeneratorView {
        self.values@
    }

    /// The client's counters.
    pub closed spec fn counters(&self) -> WorkerStats {
        self.stats
    }

    /// The client's source of chance.
    pub closed spec fn generator(&self) -> StdRng {
        self.rng
    }

    /// The draw that decided between a get and a put of the last request.
    pub closed spec fn decided(&self) -> Option<Drawn<bool>> {
        self.decided
    }

    /// The draw that the record of the last request came of.
    pub closed spec fn picked(&self) -> Option<Drawn<u64>> {
        self.picked
    }

    /// The draws that the steps of the last transaction came of.
    pub closed spec fn planned(&self) -> Option<StepDraws> {
        self.planned
    }

    /// Sets a client up.
    pub fn new(config: &ResolvedConfig, rng: StdRng, recorder: Option<ApplicationRecorder>) -> (r:
        Self)
        ensures
            r.wf(),
            r.setup() == setup_of(*config, recorder),
            r.selection() == selection_of(config.task.task, config.dataset.record_count),
            r.source() == (util::GeneratorView { corpus: None, next_at: 0 }),
            r.counters() == WorkerStats::zero(),
            r.generator() == rng,
    {
        let scan_limit: usize = match config.task.scan_limit {
            Some(limit) => limit,
            None => DEFAULT_SCAN_LIMIT,
        };
        let hot_keys: u64 = match config.task.transaction_hot_keys {
            Some(keys) => max_of(keys, 1),
            None => DEFAULT_HOT_KEYS,
        };
        Client {
            task: config.task.task,
            record_count: config.dataset.record_count,
            key_bytes: config.dataset.key_bytes,
            value_bytes: config.dataset.value_bytes,
            scan_limit,
            hot_keys,
            selector: selector_for(config.task.task, config.dataset.record_count),
            values: ValueGenerator::new(),
            rng,
            recorder,
            stats: WorkerStats::new(),
            decided: None,
            picked: None,
            planned: None,
        }
    }

    /// The counters so far.
    pub fn stats(&self) -> (r: WorkerStats)
        ensures
            r == self.counters(),
    {
        self.stats
    }

    /// Decides what to ask next.
    ///
    /// A task that inserts uses the record number that was reserved for the client. A task that
    /// mixes gets and puts asks for a get exactly where a draw with its share of gets comes true.
    pub fn next_request(&mut self, reserved: u64) -> (r: Result<Request, InactiveTask>)
        requires
            old(self).wf(),
        ensures
            final(self).wf(),
            final(self).setup() == old(self).setup(),
            final(self).selection() == old(self).selection(),
            final(self).source() == old(self).source(),
            final(self).counters() == old(self).counters(),
            r is Ok <==> is_active(old(self).setup().task),
            r matches Ok(request) ==> old(self).setup().may_request(reserved, request),
            answers(
                old(self).setup().task,
                old(self).selection(),
                reserved,
                old(self).generator(),
                final(self).decided(),
                final(self).picked(),
                final(self).generator(),
                r,
            ),
    {
        let ghost start = self.rng;
        let mut read = true;
        self.decided = None;
        if let Some(permille) = get_permille(self.task) {
            let (outcome, drawn) = likely(&mut self.rng, permille);
            read = outcome;
            self.decided = Some(drawn);
        }
        let (id, picked): (u64, Option<Drawn<u64>>) = match self.task {
            Task::SustainedIngest => (reserved, None),
            _ => self.selector.pick(&mut self.rng),
        };
        self.picked = picked;
        assert(self.setup().may_pick(reserved, id));
        request_for(self.task, read, id)
    }

    /// The key that a get asks for, or a put writes.
    pub fn key(&self, id: u64, missing: bool) -> (r: Vec<u8>)
        ensures
            r@ == (if missing {
                util::absent_key(id, self.setup().key_bytes as nat)
            } else {
                util::record_key(id, self.setup().key_bytes as nat)
            }),
    {
        if missing {
            missing_key_for_id(id, self.key_bytes)
        } else {
            key_for_id(id, self.key_bytes)
        }
    }

    /// The value that a put writes.
    pub fn value(&mut self) -> (r: Vec<u8>)
        requires
            old(self).wf(),
        ensures
            final(self).wf(),
            final(self).setup() == old(self).setup(),
            final(self).selection() == old(self).selection(),
            final(self).counters() == old(self).counters(),
            r.len() == old(self).setup().value_bytes,
            util::generated(
                old(self).source(),
                old(self).setup().value_bytes as nat,
                final(self).source(),
                r@,
            ),
    {
        self.values.generate(self.value_bytes, &mut self.rng)
    }

    /// Counts and records a get.
    pub fn got(
        &mut self,
        registry: &mut ApplicationRegistry,
        key: usize,
        outcome: ReadOutcome,
        latency_ns: u64,
    )
        requires
            old(self).wf(),
            stats::records(old(registry), old(self).setup().recorder),
        ensures
            final(self).wf(),
            final(self).setup() == old(self).setup(),
            final(self).selection() == old(self).selection(),
            final(self).source() == old(self).source(),
            stats::records(final(registry), final(self).setup().recorder),
            final(self).counters() == after_get(old(self).counters(), outcome),
            final(registry).activities() == stats::after_call(
                old(registry).activities(),
                old(self).setup().recorder,
                "get"@,
                latency_ns,
                match outcome {
                    ReadOutcome::Found(value) => count::capped_sum(key as u64, value as u64),
                    ReadOutcome::Absent => key as u64,
                    ReadOutcome::Failed => 0,
                },
                outcome == ReadOutcome::Failed,
            ),
    {
        match outcome {
            ReadOutcome::Found(value) => {
                record_success(
                    self.recorder,
                    registry,
                    "get",
                    latency_ns,
                    plus(key as u64, value as u64),
                );
                self.stats.read_hits = plus(self.stats.read_hits, 1);
            },
            ReadOutcome::Absent => {
                record_success(self.recorder, registry, "get", latency_ns, key as u64);
                self.stats.read_misses = plus(self.stats.read_misses, 1);
            },
            ReadOutcome::Failed => {
                record_error(&mut self.stats, self.recorder, registry, "get", latency_ns);
            },
        }
    }

    /// Counts and records a put, and returns what durability tracking needs of it.
    pub fn stored(
        &mut self,
        registry: &mut ApplicationRegistry,
        key: usize,
        value: usize,
        outcome: WriteOutcome,
        latency_ns: u64,
    ) -> (r: Option<AcceptedWrite>)
        requires
            old(self).wf(),
            stats::records(old(registry), old(self).setup().recorder),
        ensures
            final(self).wf(),
            final(self).setup() == old(self).setup(),
            final(self).selection() == old(self).selection(),
            final(self).source() == old(self).source(),
            stats::records(final(registry), final(self).setup().recorder),
            final(self).counters() == after_put(old(self).counters(), outcome),
            r == (match outcome {
                WriteOutcome::Accepted { sequence, returned_at } => Some(
                    AcceptedWrite { sequence, returned_at },
                ),
                WriteOutcome::Failed => None,
            }),
            final(registry).activities() == stats::after_call(
                old(registry).activities(),
                old(self).setup().recorder,
                "put"@,
                latency_ns,
                if outcome == WriteOutcome::Failed {
                    0
                } else {
                    pair_bytes(key, value)
                },
                outcome == WriteOutcome::Failed,
            ),
    {
        match outcome {
            WriteOutcome::Accepted { sequence, returned_at } => {
                record_success(
                    self.recorder,
                    registry,
                    "put",
                    latency_ns,
                    logical_bytes(key, value),
                );
                Some(self.stats.record_write(sequence, returned_at))
            },
            WriteOutcome::Failed => {
                record_error(&mut self.stats, self.recorder, registry, "put", latency_ns);
                None
            },
        }
    }

    /// A scan could not be started.
    pub fn scan_not_started(&mut self, registry: &mut ApplicationRegistry)
        requires
            old(self).wf(),
            stats::records(old(registry), old(self).setup().recorder),
        ensures
            final(self).wf(),
            final(self).setup() == old(self).setup(),
            final(self).selection() == old(self).selection(),
            final(self).source() == old(self).source(),
            stats::records(final(registry), final(self).setup().recorder),
            final(self).counters() == old(self).counters().with_error(),
            final(registry).activities() == stats::after_call(
                old(registry).activities(),
                old(self).setup().recorder,
                "scan"@,
                0,
                0,
                true,
            ),
    {
        record_error(&mut self.stats, self.recorder, registry, "scan", 0);
    }

    /// Starts a scan, and says whether its iterator is to be asked.
    pub fn scan_started(&mut self, start_id: u64) -> (r: (ScanProgress, bool))
        requires
            old(self).wf(),
        ensures
            final(self).wf(),
            final(self).setup() == old(self).setup(),
            final(self).selection() == old(self).selection(),
            final(self).source() == old(self).source(),
            final(self).counters() == old(self).counters(),
            r.0 == ScanProgress::at(
                old(self).setup().record_count,
                start_id,
                old(self).setup().scan_limit,
            ),
            r.1 == !r.0.full(),
    {
        let left: u64 = minus(self.record_count, start_id);
        let expected: usize = if left < self.scan_limit as u64 {
            left as usize
        } else {
            self.scan_limit
        };
        (
            ScanProgress { limit: self.scan_limit, expected, returned: 0 },
            self.scan_limit > 0,
        )
    }

    /// Counts and records what a scan's iterator returned, and says whether to ask it again.
    pub fn scanned(
        &mut self,
        registry: &mut ApplicationRegistry,
        progress: &mut ScanProgress,
        event: ScanEvent,
        latency_ns: u64,
    ) -> (r: bool)
        requires
            old(self).wf(),
            stats::records(old(registry), old(self).setup().recorder),
            !old(progress).full(),
        ensures
            final(self).wf(),
            final(self).setup() == old(self).setup(),
            final(self).selection() == old(self).selection(),
            final(self).source() == old(self).source(),
            stats::records(final(registry), final(self).setup().recorder),
            (final(self).counters(), *final(progress), r) == after_scan_event(
                old(self).counters(),
                *old(progress),
                event,
            ),
            final(registry).activities() == stats::after_call(
                old(registry).activities(),
                old(self).setup().recorder,
                "scan"@,
                latency_ns,
                match event {
                    ScanEvent::Entry { key, value } => pair_bytes(key, value),
                    _ => 0,
                },
                event == ScanEvent::Failed,
            ),
    {
        match event {
            ScanEvent::Entry { key, value } => {
                let bytes: u64 = logical_bytes(key, value);
                record_success(self.recorder, registry, "scan", latency_ns, bytes);
                progress.returned = progress.returned + 1;
                self.stats.scan_records = plus(self.stats.scan_records, 1);
                if progress.returned < progress.limit {
                    return true;
                }
            },
            ScanEvent::End => {
                record_success(self.recorder, registry, "scan", latency_ns, 0);
                self.stats.scan_end_calls = plus(self.stats.scan_end_calls, 1);
            },
            ScanEvent::Failed => {
                record_error(&mut self.stats, self.recorder, registry, "scan", latency_ns);
                return false;
            },
        }
        if progress.returned != progress.expected {
            self.stats.count_error();
        }
        false
    }

    /// Counts the start of a transaction, and shuffles its steps over the contended keys.
    pub fn plan_transaction(&mut self) -> (r: Vec<TransactionStep>)
        requires
            old(self).wf(),
        ensures
            final(self).wf(),
            final(self).setup() == old(self).setup(),
            final(self).selection() == old(self).selection(),
            final(self).source() == old(self).source(),
            final(self).counters() == (WorkerStats {
                transaction_attempts: count::capped_sum(
                    old(self).counters().transaction_attempts,
                    1,
                ),
                ..old(self).counters()
            }),
            is_transaction(r@, old(self).setup().hot_keys),
            final(self).planned() is Some,
            steps_come_of(
                old(self).generator(),
                final(self).planned()->0,
                final(self).generator(),
                old(self).setup().hot_keys,
                r@,
            ),
    {
        self.stats.transaction_attempts = plus(self.stats.transaction_attempts, 1);
        let (steps, draws) = transaction_steps(&mut self.rng, self.hot_keys);
        self.planned = Some(draws);
        steps
    }

    /// A transaction could not be started.
    pub fn transaction_not_started(&mut self)
        requires
            old(self).wf(),
        ensures
            final(self).wf(),
            final(self).setup() == old(self).setup(),
            final(self).selection() == old(self).selection(),
            final(self).source() == old(self).source(),
            final(self).counters() == old(self).counters().with_error(),
    {
        self.stats.count_error();
    }

    /// Counts and records a transaction's read, and says whether the transaction goes on.
    pub fn transaction_read(
        &mut self,
        registry: &mut ApplicationRegistry,
        key: usize,
        outcome: ReadOutcome,
        latency_ns: u64,
    ) -> (r: bool)
        requires
            old(self).wf(),
            stats::records(old(registry), old(self).setup().recorder),
        ensures
            final(self).wf(),
            final(self).setup() == old(self).setup(),
            final(self).selection() == old(self).selection(),
            final(self).source() == old(self).source(),
            stats::records(final(registry), final(self).setup().recorder),
            (final(self).counters(), r) == after_transaction_read(old(self).counters(), outcome),
            final(registry).activities() == stats::after_call(
                old(registry).activities(),
                old(self).setup().recorder,
                "transaction.get"@,
                latency_ns,
                match outcome {
                    ReadOutcome::Found(value) => pair_bytes(key, value),
                    _ => 0,
                },
                outcome == ReadOutcome::Failed,
            ),
    {
        match outcome {
            ReadOutcome::Found(value) => {
                record_success(
                    self.recorder,
                    registry,
                    "transaction.get",
                    latency_ns,
                    logical_bytes(key, value),
                );
                true
            },
            ReadOutcome::Absent => {
                record_success(self.recorder, registry, "transaction.get", latency_ns, 0);
                self.stats.count_error();
                true
            },
            ReadOutcome::Failed => {
                record_error(
                    &mut self.stats,
                    self.recorder,
                    registry,
                    "transaction.get",
                    latency_ns,
                );
                false
            },
        }
    }

    /// Counts and records a transaction's write, and says whether the transaction goes on.
    pub fn transaction_write(
        &mut self,
        registry: &mut ApplicationRegistry,
        key: usize,
        value: usize,
        accepted: bool,
        latency_ns: u64,
    ) -> (r: bool)
        requires
            old(self).wf(),
            stats::records(old(registry), old(self).setup().recorder),
        ensures
            final(self).wf(),
            final(self).setup() == old(self).setup(),
            final(self).selection() == old(self).selection(),
            final(self).source() == old(self).source(),
            stats::records(final(registry), final(self).setup().recorder),
            (final(self).counters(), r) == after_transaction_write(
                old(self).counters(),
                accepted,
            ),
            final(registry).activities() == stats::after_call(
                old(registry).activities(),
                old(self).setup().recorder,
                "transaction.put"@,
                latency_ns,
                if accepted {
                    pair_bytes(key, value)
                } else {
                    0
                },
                !accepted,
            ),
    {
        if accepted {
            record_success(
                self.recorder,
                registry,
                "transaction.put",
                latency_ns,
                logical_bytes(key, value),
            );
        } else {
            record_error(
                &mut self.stats,
                self.recorder,
                registry,
                "transaction.put",
                latency_ns,
            );
        }
        accepted
    }

    /// Counts and records a commit, and returns what durability tracking needs of it.
    pub fn committed(
        &mut self,
        registry: &mut ApplicationRegistry,
        outcome: CommitOutcome,
        latency_ns: u64,
    ) -> (r: Option<AcceptedWrite>)
        requires
            old(self).wf(),
            stats::records(old(registry), old(self).setup().recorder),
        ensures
            final(self).wf(),
            final(self).setup() == old(self).setup(),
            final(self).selection() == old(self).selection(),
            final(self).source() == old(self).source(),
            stats::records(final(registry), final(self).setup().recorder),
            final(self).counters() == after_commit(old(self).counters(), outcome),
            r == (match outcome {
                CommitOutcome::Committed { sequence, returned_at } => Some(
                    AcceptedWrite { sequence, returned_at },
                ),
                _ => None,
            }),
            final(registry).activities() == stats::after_call(
                old(registry).activities(),
                old(self).setup().recorder,
                "transaction.commit"@,
                latency_ns,
                0,
                outcome == CommitOutcome::WithoutWrite || outcome == CommitOutcome::Failed,
            ),
    {
        match outcome {
            CommitOutcome::Committed { sequence, returned_at } => {
                record_success(self.recorder, registry, "transaction.commit", latency_ns, 0);
                self.stats.transaction_commits = plus(self.stats.transaction_commits, 1);
                Some(self.stats.record_write(sequence, returned_at))
            },
            CommitOutcome::Conflict => {
                record_success(self.recorder, registry, "transaction.commit", latency_ns, 0);
                self.stats.transaction_conflicts = plus(self.stats.transaction_conflicts, 1);
                None
            },
            CommitOutcome::WithoutWrite | CommitOutcome::Failed => {
                record_error(
                    &mut self.stats,
                    self.recorder,
                    registry,
                    "transaction.commit",
                    latency_ns,
                );
                None
            },
        }
    }
}

/// Which steps of a transaction read.
pub open spec fn reads_of(steps: Seq<TransactionStep>) -> Seq<bool> {
    Seq::new(steps.len(), |i: int| steps[i].read)
}

/// As many reads as writes, all of contended keys.
pub open spec fn is_transaction(steps: Seq<TransactionStep>, hot_keys: u64) -> bool {
    &&& steps.len() == 2 * TRANSACTION_READS
    &&& reads_of(steps).to_multiset().count(true) == TRANSACTION_READS
    &&& reads_of(steps).to_multiset().count(false) == TRANSACTION_READS
    &&& forall|i: int| 0 <= i < steps.len() ==> (#[trigger] steps[i]).id < hot_keys
}

proof fn shuffling_keeps_counts(all: Seq<bool>, order: Seq<bool>)
    requires
        all == seq![true, true, true, true, true, false, false, false, false, false],
        order.to_multiset() == all.to_multiset(),
    ensures
        order.len() == 2 * TRANSACTION_READS,
        order.to_multiset().count(true) == TRANSACTION_READS,
        order.to_multiset().count(false) == TRANSACTION_READS,
{
    broadcast use vstd::seq_lib::group_to_multiset_ensures;

    let none = Seq::<bool>::empty();
    let one = none.push(true);
    let two = one.push(true);
    let three = two.push(true);
    let four = three.push(true);
    let five = four.push(true);
    let six = five.push(false);
    let seven = six.push(false);
    let eight = seven.push(false);
    let nine = eight.push(false);
    let ten = nine.push(false);
    vstd::seq_lib::to_multiset_build(none, true);
    vstd::seq_lib::to_multiset_build(one, true);
    vstd::seq_lib::to_multiset_build(two, true);
    vstd::seq_lib::to_multiset_build(three, true);
    vstd::seq_lib::to_multiset_build(four, true);
    vstd::seq_lib::to_multiset_build(five, false);
    vstd::seq_lib::to_multiset_build(six, false);
    vstd::seq_lib::to_multiset_build(seven, false);
    vstd::seq_lib::to_multiset_build(eight, false);
    vstd::seq_lib::to_multiset_build(nine, false);
    assert(ten =~= all);
    assert(all.to_multiset().len() == 10);
}

/// A request of a workload that mixes gets and puts is a get exactly where one draw of the client's
/// own generator comes true: with 950 of a thousand where reads are most, 500 where they are half,
/// and 50 where updates are most. No other workload draws for the kind of its requests.
pub proof fn mixes_follow_their_shares(
    task: Task,
    selection: KeySelector,
    reserved: u64,
    before: StdRng,
    decided: Option<Drawn<bool>>,
    picked: Option<Drawn<u64>>,
    after: StdRng,
    answer: Result<Request, InactiveTask>,
)
    requires
        answers(task, selection, reserved, before, decided, picked, after, answer),
    ensures
        decided is Some <==> task == Task::ReadHeavy || task == Task::Balanced || task
            == Task::UpdateHeavy,
        decided matches Some(d) ==> {
            &&& d.before() == before
            &&& task == Task::ReadHeavy ==> d.asked() == Asked::Likely(950)
            &&& task == Task::Balanced ==> d.asked() == Asked::Likely(500)
            &&& task == Task::UpdateHeavy ==> d.asked() == Asked::Likely(50)
            &&& d.outcome() ==> answer is Ok && answer->Ok_0 is Get
            &&& answer is Ok && answer->Ok_0 is Get ==> d.outcome()
        },
{
}

/// A request of a workload without a choice has the kind that the workload is named for, and a
/// workload without clients has none.
pub proof fn workloads_ask_what_they_are_named_for(setup: Setup, reserved: u64, request: Request)
    requires
        setup.may_request(reserved, request),
    ensures
        setup.task == Task::PointReadUniform || setup.task == Task::PointReadSkewed ==> request is Get
            && !request->missing,
        setup.task == Task::PointReadMissing ==> request is Get && request->missing,
        setup.task == Task::ReadHeavy || setup.task == Task::Balanced || setup.task
            == Task::UpdateHeavy ==> request is Put || (request is Get && !request->missing),
        setup.task == Task::RangeScan ==> request is Scan,
        setup.task == Task::SustainedIngest ==> request == (Request::Put { id: reserved }),
        setup.task == Task::TransactionContention ==> request == Request::Transaction,
        setup.task != Task::BulkLoad && setup.task != Task::Compaction && setup.task != Task::Idle,
{
}

/// The record of a request is the one that was drawn: uniformly among all records, or by a Zipfian
/// rank among them that is spread over them.
pub proof fn requested_records_were_drawn(
    task: Task,
    record_count: u64,
    reserved: u64,
    before: StdRng,
    decided: Option<Drawn<bool>>,
    picked: Option<Drawn<u64>>,
    after: StdRng,
    request: Request,
    id: u64,
)
    requires
        answers(
            task,
            selection_of(task, record_count),
            reserved,
            before,
            decided,
            picked,
            after,
            Ok(request),
        ),
        request == (Request::Put { id }) || request == (Request::Scan { id }) || (request is Get
            && request->Get_id == id),
        task != Task::SustainedIngest,
        record_count > 0,
    ensures
        picked is Some,
        task == Task::PointReadUniform || task == Task::PointReadMissing || task
            == Task::RangeScan ==> picked->0.asked() == Asked::Below(record_count)
            && picked->0.outcome() == id,
        task == Task::PointReadSkewed || task == Task::ReadHeavy || task == Task::Balanced || task
            == Task::UpdateHeavy ==> {
            &&& picked->0.asked() == (Asked::Rank { records: record_count, exponent_permille: 990 })
            &&& picked->0.outcome() >= 1 ==> id == util::fnv((picked->0.outcome() - 1) as u64)
                % record_count
        },
        picked->0.before() == (if decided is Some {
            decided->0.after()
        } else {
            before
        }),
        picked->0.after() == after,
{
}

/// A transaction has five reads and five writes in an order that was drawn, and each of its records
/// was drawn among the contended keys.
pub proof fn transactions_were_drawn(
    before: StdRng,
    draws: StepDraws,
    after: StdRng,
    keys: u64,
    steps: Seq<TransactionStep>,
    i: int,
)
    requires
        steps_come_of(before, draws, after, keys, steps),
        is_transaction(steps, keys),
        0 <= i < steps.len(),
    ensures
        steps.len() == 10,
        reads_of(steps).to_multiset().count(true) == 5,
        reads_of(steps).to_multiset().count(false) == 5,
        draws.order.asked() == Asked::Order(
            seq![true, true, true, true, true, false, false, false, false, false],
        ),
        draws.order.before() == before,
        draws.order.outcome()[i] == steps[i].read,
        draws.ids@[i].asked() == Asked::Below(keys),
        draws.ids@[i].outcome() == steps[i].id,
        steps[i].id < keys,
        draws.ids@[i].before() == (if i == 0 {
            draws.order.after()
        } else {
            draws.ids@[i - 1].after()
        }),
{
}

/// The counters and progress of a scan after its iterator returned a number of entries.
pub open spec fn after_entries(s: WorkerStats, p: ScanProgress, entries: nat) -> (
    WorkerStats,
    ScanProgress,
    bool,
)
    decreases entries,
{
    if entries == 0 {
        (s, p, true)
    } else {
        let before = after_entries(s, p, (entries - 1) as nat);
        after_scan_event(before.0, before.1, ScanEvent::Entry { key: 0, value: 0 })
    }
}

proof fn entries_are_counted(s: WorkerStats, p: ScanProgress, entries: nat)
    requires
        p.returned == 0,
        entries < p.limit,
    ensures
        after_entries(s, p, entries) == (
            WorkerStats {
                scan_records: count::capped_sum(s.scan_records, entries as u64),
                ..s
            },
            ScanProgress { returned: entries as usize, ..p },
            true,
        ),
    decreases entries,
{
    if entries > 0 {
        entries_are_counted(s, p, (entries - 1) as nat);
    }
}

/// A scan that reaches its limit counts an error exactly where the dataset has fewer records from
/// its start on.
pub proof fn full_scans_are_judged(
    s: WorkerStats,
    record_count: u64,
    start_id: u64,
    limit: usize,
)
    requires
        limit > 0,
        s.errors < u64::MAX,
    ensures
        ({
            let end = after_entries(s, ScanProgress::at(record_count, start_id, limit), limit as nat);
            &&& !end.2
            &&& end.0.errors == s.errors <==> start_id + limit <= record_count
        }),
{
    let p = ScanProgress::at(record_count, start_id, limit);
    entries_are_counted(s, p, (limit - 1) as nat);
}

/// A scan that reaches the end of the database counts an error exactly where it returned another
/// number of records than the dataset has from its start on.
pub proof fn short_scans_are_judged(
    s: WorkerStats,
    record_count: u64,
    start_id: u64,
    limit: usize,
    entries: nat,
)
    requires
        entries < limit,
        s.errors < u64::MAX,
    ensures
        ({
            let read = after_entries(s, ScanProgress::at(record_count, start_id, limit), entries);
            let end = after_scan_event(read.0, read.1, ScanEvent::End);
            &&& !end.2
            &&& end.0.errors == s.errors <==> entries == count::floored_difference(
                record_count,
                start_id,
            )
        }),
{
    entries_are_counted(s, ScanProgress::at(record_count, start_id, limit), entries);
}

/// What a transaction's steps came to.
pub enum StepOutcome {
    Read(ReadOutcome),
    Write(bool),
}

/// Counters after the steps of a transaction, and whether it went on to the end.
pub open spec fn after_steps(s: WorkerStats, steps: Seq<StepOutcome>) -> (WorkerStats, bool)
    decreases steps.len(),
{
    if steps.len() == 0 {
        (s, true)
    } else {
        let before = after_steps(s, steps.drop_last());
        if !before.1 {
            before
        } else {
            match steps.last() {
                StepOutcome::Read(outcome) => after_transaction_read(before.0, outcome),
                StepOutcome::Write(accepted) => after_transaction_write(before.0, accepted),
            }
        }
    }
}

/// Counters after a whole transaction.
pub open spec fn after_transaction(
    s: WorkerStats,
    started: bool,
    steps: Seq<StepOutcome>,
    commit: CommitOutcome,
) -> WorkerStats {
    let attempted = WorkerStats {
        transaction_attempts: count::capped_sum(s.transaction_attempts, 1),
        ..s
    };
    if !started {
        attempted.with_error()
    } else {
        let end = after_steps(attempted, steps);
        if end.1 {
            after_commit(end.0, commit)
        } else {
            end.0
        }
    }
}

proof fn steps_change_errors_only(s: WorkerStats, steps: Seq<StepOutcome>)
    ensures
        ({
            let end = after_steps(s, steps);
            &&& end.0 == (WorkerStats { errors: end.0.errors, ..s })
            &&& end.0.errors >= s.errors
            &&& !end.1 && s.errors < u64::MAX ==> end.0.errors > s.errors
        }),
    decreases steps.len(),
{
    if steps.len() > 0 {
        steps_change_errors_only(s, steps.drop_last());
    }
}

/// Transactions that count no error reconcile: each attempt is a commit or a conflict.
pub proof fn transactions_reconcile(
    s: WorkerStats,
    started: bool,
    steps: Seq<StepOutcome>,
    commit: CommitOutcome,
)
    requires
        s.errors < u64::MAX,
        s.transaction_attempts < u64::MAX,
        s.transaction_commits + s.transaction_conflicts == s.transaction_attempts,
    ensures
        ({
            let end = after_transaction(s, started, steps, commit);
            end.errors == s.errors ==> end.transaction_commits + end.transaction_conflicts
                == end.transaction_attempts
        }),
{
    let attempted = WorkerStats {
        transaction_attempts: count::capped_sum(s.transaction_attempts, 1),
        ..s
    };
    steps_change_errors_only(attempted, steps);
}

/// A get counts one hit, one miss or one error, and nothing else; a put counts one write with its
/// sequence, or one error.
pub proof fn answers_are_counted_once(s: WorkerStats, value: usize, sequence: u64, returned_at: u64)
    requires
        s.read_hits < u64::MAX,
        s.read_misses < u64::MAX,
        s.errors < u64::MAX,
        s.writes < u64::MAX,
        s.transaction_commits < u64::MAX,
        s.transaction_conflicts < u64::MAX,
    ensures
        after_get(s, ReadOutcome::Found(value)) == (WorkerStats {
            read_hits: (s.read_hits + 1) as u64,
            ..s
        }),
        after_get(s, ReadOutcome::Absent) == (WorkerStats {
            read_misses: (s.read_misses + 1) as u64,
            ..s
        }),
        after_get(s, ReadOutcome::Failed) == (WorkerStats { errors: (s.errors + 1) as u64, ..s }),
        after_put(s, WriteOutcome::Failed) == (WorkerStats { errors: (s.errors + 1) as u64, ..s }),
        ({
            let w = after_put(s, WriteOutcome::Accepted { sequence, returned_at });
            &&& w.writes == s.writes + 1
            &&& w.last_write_sequence is Some && w.last_write_sequence->0 >= sequence
            &&& s.last_write_sequence is None ==> w.last_write_sequence->0 == sequence
            &&& w == (WorkerStats {
                writes: w.writes,
                last_write_sequence: w.last_write_sequence,
                ..s
            })
        }),
        ({
            let c = after_commit(s, CommitOutcome::Committed { sequence, returned_at });
            &&& c.transaction_commits == s.transaction_commits + 1
            &&& c.writes == s.writes + 1
            &&& c.last_write_sequence is Some && c.last_write_sequence->0 >= sequence
            &&& c.errors == s.errors && c.transaction_conflicts == s.transaction_conflicts
        }),
        after_commit(s, CommitOutcome::Conflict) == (WorkerStats {
            transaction_conflicts: (s.transaction_conflicts + 1) as u64,
            ..s
        }),
        after_commit(s, CommitOutcome::WithoutWrite) == (WorkerStats {
            errors: (s.errors + 1) as u64,
            ..s
        }),
        after_commit(s, CommitOutcome::Failed) == (WorkerStats {
            errors: (s.errors + 1) as u64,
            ..s
        }),
{
}

/// A transaction goes on after a read that answered, counts an absent record as an error, and ends
/// with an error where a read or a write fails.
pub proof fn transactions_end_at_failures(s: WorkerStats, value: usize)
    requires
        s.errors < u64::MAX,
    ensures
        after_transaction_read(s, ReadOutcome::Found(value)) == (s, true),
        after_transaction_read(s, ReadOutcome::Absent) == (
            WorkerStats { errors: (s.errors + 1) as u64, ..s },
            true,
        ),
        after_transaction_read(s, ReadOutcome::Failed) == (
            WorkerStats { errors: (s.errors + 1) as u64, ..s },
            false,
        ),
        after_transaction_write(s, true) == (s, true),
        after_transaction_write(s, false) == (
            WorkerStats { errors: (s.errors + 1) as u64, ..s },
            false,
        ),
{
}

/// A scan expects as many records as there are from its start on, and no more than its limit; it
/// ends at its limit, at the end of the database, or at a failure, and counts an error where it
/// returned another number.
pub proof fn scans_expect_what_is_left(
    s: WorkerStats,
    record_count: u64,
    start: u64,
    limit: usize,
    p: ScanProgress,
    key: usize,
    value: usize,
)
    requires
        s.errors < u64::MAX,
        s.scan_records < u64::MAX,
        s.scan_end_calls < u64::MAX,
        p.returned < p.limit,
    ensures
        ({
            let at = ScanProgress::at(record_count, start, limit);
            &&& at.returned == 0 && at.limit == limit
            &&& start + limit <= record_count ==> at.expected == limit
            &&& start <= record_count < start + limit ==> at.expected == record_count - start
            &&& start > record_count ==> at.expected == 0
        }),
        ({
            let (t, q, more) = after_scan_event(s, p, ScanEvent::Entry { key, value });
            &&& q.returned == p.returned + 1 && q.limit == p.limit && q.expected == p.expected
            &&& more <==> q.returned < q.limit
            &&& t.scan_records == s.scan_records + 1
            &&& t.errors == s.errors + (if !more && q.returned != q.expected {
                1int
            } else {
                0int
            })
            &&& t.scan_end_calls == s.scan_end_calls
        }),
        ({
            let (t, q, more) = after_scan_event(s, p, ScanEvent::End);
            &&& !more && q == p
            &&& t.scan_end_calls == s.scan_end_calls + 1
            &&& t.scan_records == s.scan_records
            &&& t.errors == s.errors + (if p.returned != p.expected {
                1int
            } else {
                0int
            })
        }),
        after_scan_event(s, p, ScanEvent::Failed) == (
            WorkerStats { errors: (s.errors + 1) as u64, ..s },
            p,
            false,
        ),
{
}

/// The bytes of a pair are those of its key and its value.
pub proof fn pairs_add_up(key: usize, value: usize)
    requires
        key + value <= usize::MAX,
    ensures
        pair_bytes(key, value) == key + value,
{
}

/// A client is set up with what its configuration says, with ten records to a scan and ten thousand
/// contended keys where nothing is said.
pub proof fn clients_follow_their_configuration(
    config: ResolvedConfig,
    recorder: Option<ApplicationRecorder>,
)
    ensures
        ({
            let s = setup_of(config, recorder);
            &&& s.task == config.task.task
            &&& s.record_count == config.dataset.record_count
            &&& s.key_bytes == config.dataset.key_bytes
            &&& s.value_bytes == config.dataset.value_bytes
            &&& s.recorder == recorder
            &&& config.task.scan_limit matches Some(limit) ==> s.scan_limit == limit
            &&& config.task.scan_limit is None ==> s.scan_limit == 10
            &&& config.task.transaction_hot_keys matches Some(keys) ==> (keys > 0 ==> s.hot_keys
                == keys) && (keys == 0 ==> s.hot_keys == 1)
            &&& config.task.transaction_hot_keys is None ==> s.hot_keys == 10_000
        }),
{
}

/// Clients ask for something in every workload but the idle one, and in no preparation.
pub proof fn workloads_have_clients(task: Task)
    ensures
        is_active(task) <==> task != Task::BulkLoad && task != Task::Compaction && task
            != Task::Idle,
        is_active(task) <==> requested(task, true, 0) is Some,
{
}

} // verus!
