//! What the clients of a suite ask of a database, and what they make of the replies.

use crate::count;
use crate::count::{max_of, min_of, minus, plus};
use crate::histogram;
use crate::suite::config::WorkloadKind;
use crate::suite::samples::ApplicationCounters;
use crate::suite::stats;
use crate::suite::stats::{Counts, WorkerStats};
use crate::text;
use crate::text::{ascii_lowercase, contains};
use crate::workloads::chance::{below, likely, Asked, Drawn};
use crate::workloads::closed;
use crate::workloads::closed::{transaction_steps, StepDraws, TransactionStep};
use crate::workloads::durability::AcceptedWrite;
use crate::workloads::util;
use crate::workloads::util::{key_for_id, KeySelector, ValueGenerator};
use rand::rngs::StdRng;
use vstd::prelude::*;

verus! {

/// How many of the latest records a read of recent records picks from.
pub const RECENT_RECORDS: u64 = 10_000;

/// The most records that a short scan asks for.
pub const LONGEST_SCAN: u64 = 100;

/// The records of a range, a batch, or a prefix.
pub const GROUP_RECORDS: u64 = 10;

/// What a capped writer writes in a second.
pub const WRITER_BYTES_PER_SECOND: u64 = 2_097_152;

/// The operations that are reported apart.
#[derive(Debug, Clone, Copy, PartialEq, Eq, Structural)]
pub enum Operation {
    Read,
    Update,
    Insert,
    Scan,
    ReadModifyWrite,
    BatchRead,
    PrefixScan,
    Transaction,
    WriterUpdate,
    Other,
}

impl Operation {
    /// The name of the operation.
    pub open spec fn label(self) -> Seq<char> {
        match self {
            Operation::Read => "read"@,
            Operation::Update => "update"@,
            Operation::Insert => "insert"@,
            Operation::Scan => "scan"@,
            Operation::ReadModifyWrite => "read-modify-write"@,
            Operation::BatchRead => "batch-read"@,
            Operation::PrefixScan => "prefix-scan"@,
            Operation::Transaction => "transaction"@,
            Operation::WriterUpdate => "writer-update"@,
            Operation::Other => "operation"@,
        }
    }

    /// Returns the name of the operation.
    pub fn name(self) -> (r: &'static str)
        ensures
            r@ == self.label(),
    {
        match self {
            Operation::Read => "read",
            Operation::Update => "update",
            Operation::Insert => "insert",
            Operation::Scan => "scan",
            Operation::ReadModifyWrite => "read-modify-write",
            Operation::BatchRead => "batch-read",
            Operation::PrefixScan => "prefix-scan",
            Operation::Transaction => "transaction",
            Operation::WriterUpdate => "writer-update",
            Operation::Other => "operation",
        }
    }
}

/// The operation that a failure of a workload is reported under.
pub open spec fn failed_operation(kind: WorkloadKind) -> Operation {
    match kind {
        WorkloadKind::TransactionContention => Operation::Transaction,
        WorkloadKind::PrefixScan => Operation::PrefixScan,
        WorkloadKind::MultiRandomRead => Operation::BatchRead,
        WorkloadKind::ForwardRange | WorkloadKind::ReverseRange | WorkloadKind::YcsbE => {
            Operation::Scan
        },
        WorkloadKind::SustainedIngest | WorkloadKind::BulkLoad | WorkloadKind::YcsbD => {
            Operation::Insert
        },
        WorkloadKind::Overwrite => Operation::Update,
        _ => Operation::Other,
    }
}

/// Returns the operation that a failure of a workload is reported under.
pub fn operation_name(kind: WorkloadKind) -> (r: Operation)
    ensures
        r == failed_operation(kind),
{
    match kind {
        WorkloadKind::TransactionContention => Operation::Transaction,
        WorkloadKind::PrefixScan => Operation::PrefixScan,
        WorkloadKind::MultiRandomRead => Operation::BatchRead,
        WorkloadKind::ForwardRange | WorkloadKind::ReverseRange | WorkloadKind::YcsbE => {
            Operation::Scan
        },
        WorkloadKind::SustainedIngest | WorkloadKind::BulkLoad | WorkloadKind::YcsbD => {
            Operation::Insert
        },
        WorkloadKind::Overwrite => Operation::Update,
        _ => Operation::Other,
    }
}

/// What a client asks for next.
pub enum Plan {
    /// Read a record.
    Read { id: u64 },
    /// Write over a record.
    Update { id: u64 },
    /// Write the next record; no other client writes one meanwhile.
    InsertNext { id: u64 },
    /// Write a record of one's own.
    Insert { id: u64 },
    /// Write a record of one's own under a key without order.
    InsertAnywhere { id: u64, salt: u64 },
    /// Read a record and write over it.
    ReadModifyWrite { id: u64 },
    /// Read several records at once.
    BatchRead { ids: Vec<u64> },
    /// Read records in order from one on.
    Scan { start_id: u64, limit: u64, reverse: bool },
    /// Read the records of a prefix.
    PrefixScan { prefix: u64 },
    /// Read and write records in a transaction.
    Transaction { steps: Vec<TransactionStep> },
}

/// A workload that clients do not run in a loop of their own.
#[derive(Debug, Clone, Copy, PartialEq, Eq, Structural)]
pub struct Unsupported;

/// What chance decided.
pub struct Choices {
    /// The more likely of two kinds of operations.
    pub first: bool,
    pub id: u64,
    /// How far back of the latest record.
    pub back: u64,
    pub length: u64,
    pub ids: Vec<u64>,
    pub steps: Vec<TransactionStep>,
    pub prefix: u64,
    pub salt: u64,
}

/// The record that a read of recent records picks.
pub open spec fn recent_id(next_insert: u64, back: u64) -> u64 {
    count::floored_difference(count::larger(next_insert, 1), count::capped_sum(1, back))
}

/// What a client of a workload asks for, given what chance decided.
pub open spec fn planned(kind: WorkloadKind, next_insert: u64, c: Choices) -> Result<
    Plan,
    Unsupported,
> {
    match kind {
        WorkloadKind::YcsbA | WorkloadKind::YcsbB => if c.first {
            Ok(Plan::Read { id: c.id })
        } else {
            Ok(Plan::Update { id: c.id })
        },
        WorkloadKind::YcsbC | WorkloadKind::ColdRead | WorkloadKind::RandomRead => Ok(
            Plan::Read { id: c.id },
        ),
        WorkloadKind::YcsbD => if c.first {
            Ok(Plan::Read { id: recent_id(next_insert, c.back) })
        } else {
            Ok(Plan::InsertNext { id: next_insert })
        },
        WorkloadKind::YcsbE => if c.first {
            Ok(Plan::Scan { start_id: c.id, limit: c.length, reverse: false })
        } else {
            Ok(Plan::Insert { id: next_insert })
        },
        WorkloadKind::YcsbF => if c.first {
            Ok(Plan::Read { id: c.id })
        } else {
            Ok(Plan::ReadModifyWrite { id: c.id })
        },
        WorkloadKind::MultiRandomRead => Ok(Plan::BatchRead { ids: c.ids }),
        WorkloadKind::ForwardRange => Ok(
            Plan::Scan { start_id: c.id, limit: GROUP_RECORDS, reverse: false },
        ),
        WorkloadKind::ReverseRange => Ok(
            Plan::Scan { start_id: c.id, limit: GROUP_RECORDS, reverse: true },
        ),
        WorkloadKind::Overwrite => Ok(Plan::Update { id: c.id }),
        WorkloadKind::SustainedIngest => Ok(
            Plan::InsertAnywhere { id: next_insert, salt: c.salt },
        ),
        WorkloadKind::TransactionContention => Ok(Plan::Transaction { steps: c.steps }),
        WorkloadKind::PrefixScan => Ok(Plan::PrefixScan { prefix: c.prefix }),
        _ => Err(Unsupported),
    }
}

/// Decides what a client of a workload asks for, given what chance decided.
pub fn plan_operation(kind: WorkloadKind, next_insert: u64, choices: Choices) -> (r: Result<
    Plan,
    Unsupported,
>)
    ensures
        r == planned(kind, next_insert, choices),
{
    match kind {
        WorkloadKind::YcsbA | WorkloadKind::YcsbB => if choices.first {
            Ok(Plan::Read { id: choices.id })
        } else {
            Ok(Plan::Update { id: choices.id })
        },
        WorkloadKind::YcsbC | WorkloadKind::ColdRead | WorkloadKind::RandomRead => Ok(
            Plan::Read { id: choices.id },
        ),
        WorkloadKind::YcsbD => if choices.first {
            let latest: u64 = max_of(next_insert, 1);
            Ok(Plan::Read { id: minus(latest, plus(1, choices.back)) })
        } else {
            Ok(Plan::InsertNext { id: next_insert })
        },
        WorkloadKind::YcsbE => if choices.first {
            Ok(Plan::Scan { start_id: choices.id, limit: choices.length, reverse: false })
        } else {
            Ok(Plan::Insert { id: next_insert })
        },
        WorkloadKind::YcsbF => if choices.first {
            Ok(Plan::Read { id: choices.id })
        } else {
            Ok(Plan::ReadModifyWrite { id: choices.id })
        },
        WorkloadKind::MultiRandomRead => Ok(Plan::BatchRead { ids: choices.ids }),
        WorkloadKind::ForwardRange => Ok(
            Plan::Scan { start_id: choices.id, limit: GROUP_RECORDS, reverse: false },
        ),
        WorkloadKind::ReverseRange => Ok(
            Plan::Scan { start_id: choices.id, limit: GROUP_RECORDS, reverse: true },
        ),
        WorkloadKind::Overwrite => Ok(Plan::Update { id: choices.id }),
        WorkloadKind::SustainedIngest => Ok(
            Plan::InsertAnywhere { id: next_insert, salt: choices.salt },
        ),
        WorkloadKind::TransactionContention => Ok(Plan::Transaction { steps: choices.steps }),
        WorkloadKind::PrefixScan => Ok(Plan::PrefixScan { prefix: choices.prefix }),
        _ => Err(Unsupported),
    }
}

/// How likely the first kind of operation is, in thousandths.
pub open spec fn first_permille_of(kind: WorkloadKind) -> Option<u64> {
    match kind {
        WorkloadKind::YcsbA | WorkloadKind::YcsbF => Some(500),
        WorkloadKind::YcsbB | WorkloadKind::YcsbD | WorkloadKind::YcsbE => Some(950),
        _ => None,
    }
}

/// Returns how likely the first kind of operation is, in thousandths.
pub fn first_permille(kind: WorkloadKind) -> (r: Option<u64>)
    ensures
        r == first_permille_of(kind),
{
    match kind {
        WorkloadKind::YcsbA | WorkloadKind::YcsbF => Some(500),
        WorkloadKind::YcsbB | WorkloadKind::YcsbD | WorkloadKind::YcsbE => Some(950),
        _ => None,
    }
}

/// Whether a workload favours few records.
pub open spec fn is_skewed(kind: WorkloadKind) -> bool {
    kind == WorkloadKind::YcsbA || kind == WorkloadKind::YcsbB || kind == WorkloadKind::YcsbC
        || kind == WorkloadKind::YcsbF
}

/// How a workload picks records.
pub open spec fn selection_of(kind: WorkloadKind, record_count: u64) -> KeySelector {
    if is_skewed(kind) {
        KeySelector::ScrambledZipfian { record_count: count::larger(record_count, 1) }
    } else {
        KeySelector::Uniform { record_count }
    }
}

/// Returns how a workload picks records.
pub fn selector_for(kind: WorkloadKind, record_count: u64) -> (r: KeySelector)
    ensures
        r.wf(),
        r == selection_of(kind, record_count),
{
    match kind {
        WorkloadKind::YcsbA | WorkloadKind::YcsbB | WorkloadKind::YcsbC | WorkloadKind::YcsbF => {
            KeySelector::zipfian(record_count)
        },
        _ => KeySelector::uniform(record_count),
    }
}

/// Whether a record can be picked by a selection.
pub open spec fn may_pick(selection: KeySelector, id: u64) -> bool {
    &&& selection.selects(id)
    &&& id < selection.domain() || (selection.domain() == 0 && id == 0)
}

/// Whether chance can decide so, for what a workload needs.
pub open spec fn possible(
    c: Choices,
    kind: WorkloadKind,
    record_count: u64,
    next_insert: u64,
) -> bool {
    &&& may_pick(selection_of(kind, record_count), c.id)
    &&& c.back < count::smaller(count::larger(next_insert, 1), RECENT_RECORDS)
    &&& 1 <= c.length <= LONGEST_SCAN
    &&& kind == WorkloadKind::MultiRandomRead ==> {
        &&& c.ids.len() == GROUP_RECORDS
        &&& forall|i: int|
            0 <= i < c.ids.len() ==> may_pick(
                selection_of(kind, record_count),
                #[trigger] c.ids@[i],
            )
    }
    &&& kind == WorkloadKind::TransactionContention ==> closed::is_transaction(
        c.steps@,
        count::larger(record_count, 1),
    )
    &&& c.prefix < count::larger(record_count / GROUP_RECORDS, 1)
}

/// Makes the choices of a client.
pub struct Chooser {
    kind: WorkloadKind,
    record_count: u64,
    selector: KeySelector,
    rng: StdRng,
    drew: Option<ChoiceDraws>,
}

/// The draws that the choices of a client came of.
pub struct ChoiceDraws {
    pub first: Option<Drawn<bool>>,
    pub id: Option<Drawn<u64>>,
    pub back: Drawn<u64>,
    pub length: Drawn<u64>,
    pub prefix: Drawn<u64>,
    pub ids: Vec<Option<Drawn<u64>>>,
    pub steps: Option<StepDraws>,
    pub salt: Drawn<u64>,
}

/// Whether choices come of draws.
pub open spec fn choices_come_of(
    kind: WorkloadKind,
    record_count: u64,
    next_insert: u64,
    before: StdRng,
    d: ChoiceDraws,
    c: Choices,
) -> bool {
    &&& first_permille_of(kind) matches Some(permille) ==> {
        &&& d.first is Some
        &&& d.first->0.asked() == Asked::Likely(permille)
        &&& d.first->0.before() == before
        &&& d.first->0.outcome() == c.first
    }
    &&& first_permille_of(kind) is None ==> c.first
    &&& util::comes_of(selection_of(kind, record_count), d.id, c.id)
    &&& d.id is Some ==> d.id->0.before() == (if d.first is Some {
        d.first->0.after()
    } else {
        before
    })
    &&& d.back.asked() == Asked::Below(
        count::smaller(count::larger(next_insert, 1), RECENT_RECORDS),
    )
    &&& d.back.outcome() == c.back
    &&& d.length.asked() == Asked::Below(LONGEST_SCAN)
    &&& d.length.outcome() + 1 == c.length
    &&& d.prefix.asked() == Asked::Below(count::larger(record_count / GROUP_RECORDS, 1))
    &&& d.prefix.outcome() == c.prefix
    &&& d.length.before() == d.back.after()
    &&& d.prefix.before() == d.length.after()
    &&& d.salt.asked() == Asked::Below(u64::MAX)
    &&& d.salt.outcome() == c.salt
    &&& kind == WorkloadKind::MultiRandomRead ==> {
        &&& d.ids.len() == c.ids.len()
        &&& forall|i: int|
            0 <= i < c.ids.len() ==> util::comes_of(
                selection_of(kind, record_count),
                d.ids@[i],
                #[trigger] c.ids@[i],
            )
    }
    &&& kind == WorkloadKind::TransactionContention ==> {
        &&& d.steps is Some
        &&& closed::steps_come_of(
            d.prefix.after(),
            d.steps->0,
            d.salt.before(),
            count::larger(record_count, 1),
            c.steps@,
        )
    }
}

impl Chooser {
    /// The workload of the client.
    pub closed spec fn workload(&self) -> WorkloadKind {
        self.kind
    }

    /// The records of the workload.
    pub closed spec fn records(&self) -> u64 {
        self.record_count
    }

    /// How the client picks records.
    pub closed spec fn selection(&self) -> KeySelector {
        self.selector
    }

    /// The client's source of chance.
    pub closed spec fn generator(&self) -> StdRng {
        self.rng
    }

    /// The draws that the last operation came of.
    pub closed spec fn drew(&self) -> Option<ChoiceDraws> {
        self.drew
    }

    /// The selector fits the workload.
    pub closed spec fn wf(&self) -> bool {
        self.selector.wf() && self.selector == selection_of(self.kind, self.record_count)
    }

    /// Sets a client up.
    pub fn new(kind: WorkloadKind, record_count: u64, rng: StdRng) -> (r: Self)
        ensures
            r.wf(),
            r.workload() == kind,
            r.records() == record_count,
            r.selection() == selection_of(kind, record_count),
            r.generator() == rng,
    {
        Chooser { kind, record_count, selector: selector_for(kind, record_count), rng, drew: None }
    }

    fn draw(&mut self, next_insert: u64) -> (r: Choices)
        requires
            old(self).wf(),
        ensures
            final(self).wf(),
            final(self).workload() == old(self).workload(),
            final(self).records() == old(self).records(),
            final(self).selection() == old(self).selection(),
            possible(r, old(self).workload(), old(self).records(), next_insert),
            final(self).drew() is Some,
            choices_come_of(
                old(self).workload(),
                old(self).records(),
                next_insert,
                old(self).generator(),
                final(self).drew()->0,
                r,
            ),
    {
        let mut first = true;
        let mut decided: Option<Drawn<bool>> = None;
        if let Some(permille) = first_permille(self.kind) {
            let (outcome, drawn) = likely(&mut self.rng, permille);
            first = outcome;
            decided = Some(drawn);
        }
        let (id, picked) = self.selector.pick(&mut self.rng);
        let window: u64 = min_of(max_of(next_insert, 1), RECENT_RECORDS);
        let (back, back_drawn) = below(&mut self.rng, window);
        let (shorter, length_drawn) = below(&mut self.rng, LONGEST_SCAN);
        let length: u64 = 1 + shorter;
        let (prefix, prefix_drawn) = below(
            &mut self.rng,
            max_of(self.record_count / GROUP_RECORDS, 1),
        );
        let mut ids: Vec<u64> = Vec::new();
        let mut ids_drawn: Vec<Option<Drawn<u64>>> = Vec::new();
        let mut steps: Vec<TransactionStep> = Vec::new();
        let mut steps_drawn: Option<StepDraws> = None;
        match self.kind {
            WorkloadKind::MultiRandomRead => {
                while ids.len() < GROUP_RECORDS as usize
                    invariant
                        self.wf(),
                        self.workload() == old(self).workload(),
                        self.records() == old(self).records(),
                        self.selection() == old(self).selection(),
                        self.kind == WorkloadKind::MultiRandomRead,
                        ids.len() <= GROUP_RECORDS,
                        ids_drawn.len() == ids.len(),
                        forall|i: int|
                            0 <= i < ids.len() ==> may_pick(self.selection(), #[trigger] ids@[i]),
                        forall|i: int|
                            0 <= i < ids.len() ==> util::comes_of(
                                self.selection(),
                                ids_drawn@[i],
                                #[trigger] ids@[i],
                            ),
                    decreases GROUP_RECORDS - ids.len(),
                {
                    let (next, drawn) = self.selector.pick(&mut self.rng);
                    ids.push(next);
                    ids_drawn.push(drawn);
                }
            },
            WorkloadKind::TransactionContention => {
                let (drawn_steps, draws) = transaction_steps(
                    &mut self.rng,
                    max_of(self.record_count, 1),
                );
                steps = drawn_steps;
                steps_drawn = Some(draws);
            },
            _ => {},
        }
        let (salt, salt_drawn) = below(&mut self.rng, u64::MAX);
        self.drew = Some(
            ChoiceDraws {
                first: decided,
                id: picked,
                back: back_drawn,
                length: length_drawn,
                prefix: prefix_drawn,
                ids: ids_drawn,
                steps: steps_drawn,
                salt: salt_drawn,
            },
        );
        Choices { first, id, back, length, ids, steps, prefix, salt }
    }

    /// Decides what to ask next; the next record to insert is handed in.
    pub fn next_operation(&mut self, next_insert: u64) -> (r: Result<Plan, Unsupported>)
        requires
            old(self).wf(),
        ensures
            final(self).wf(),
            final(self).workload() == old(self).workload(),
            final(self).records() == old(self).records(),
            final(self).selection() == old(self).selection(),
            exists|c: Choices|
                possible(c, old(self).workload(), old(self).records(), next_insert)
                    && choices_come_of(
                    old(self).workload(),
                    old(self).records(),
                    next_insert,
                    old(self).generator(),
                    final(self).drew()->0,
                    c,
                ) && r == #[trigger] planned(old(self).workload(), next_insert, c),
            final(self).drew() is Some,
    {
        let choices = self.draw(next_insert);
        let ghost made = choices;
        let r = plan_operation(self.kind, next_insert, choices);
        assert(r == planned(old(self).workload(), next_insert, made));
        r
    }

    /// Gives access to the source of chance, for the values to write.
    pub fn values(&mut self, generator: &mut ValueGenerator, size: usize) -> (r: Vec<u8>)
        requires
            old(self).wf(),
            old(generator).wf(),
            old(generator).corpus() matches Some(bytes) ==> size <= bytes.len(),
        ensures
            final(self).wf(),
            final(self).workload() == old(self).workload(),
            final(self).records() == old(self).records(),
            final(self).selection() == old(self).selection(),
            final(generator).wf(),
            final(generator).corpus() matches Some(bytes) ==> size <= bytes.len(),
            r.len() == size,
            util::generated(old(generator)@, size as nat, final(generator)@, r@),
    {
        generator.generate(size, &mut self.rng)
    }
}

/// What came back of an operation.
pub enum Reply {
    /// The database failed.
    Failed,
    /// A record that was read, by the length of its value.
    Value(Option<usize>),
    /// A write, by its sequence.
    Stored(u64),
    /// A record that was read, and the write over it.
    Exchanged { previous: Option<usize>, stored: Option<u64> },
    /// Records that were read at once.
    Values(Vec<Option<usize>>),
    /// Records of a scan, each by the length of its key and value together.
    Records(Vec<u64>),
    /// The records that a transaction read, and its end.
    Ended { reads: Vec<Option<usize>>, end: TransactionEnd },
}

/// How a transaction ended.
#[derive(Debug, Clone, Copy, PartialEq, Eq, Structural)]
pub enum TransactionEnd {
    /// It was committed, with the sequence of its writes.
    Committed(Option<u64>),
    /// It was refused because of another.
    Conflict,
    /// It failed.
    Failed,
}

/// What a successful operation amounts to.
#[derive(Debug, Clone, Copy, PartialEq, Eq, Structural)]
pub struct OperationOutcome {
    pub operation: Operation,
    pub payload_bytes: u64,
    pub batch_keys: u64,
    pub sequence: Option<u64>,
    pub transaction_commit: bool,
}

/// Why an operation did not succeed.
#[derive(Debug, Clone, Copy, PartialEq, Eq, Structural)]
pub enum OperationError {
    TransactionConflict,
    Other,
}

/// A number of bytes, as far as a counter goes.
pub open spec fn capped(n: int) -> u64 {
    if n > u64::MAX {
        u64::MAX
    } else {
        n as u64
    }
}

/// Whether every record was found.
pub open spec fn all_found(values: Seq<Option<usize>>) -> bool {
    forall|i: int| 0 <= i < values.len() ==> #[trigger] values[i] is Some
}

/// The bytes of records.
pub open spec fn value_bytes_of(values: Seq<Option<usize>>) -> int
    decreases values.len(),
{
    if values.len() == 0 {
        0
    } else {
        value_bytes_of(values.drop_last()) + (match values.last() {
            Some(n) => n as int,
            None => 0,
        })
    }
}

/// The bytes of a scan.
pub open spec fn scan_bytes_of(records: Seq<u64>) -> int
    decreases records.len(),
{
    if records.len() == 0 {
        0
    } else {
        scan_bytes_of(records.drop_last()) + records.last()
    }
}

/// The writes of a transaction.
pub open spec fn writes_of(steps: Seq<TransactionStep>) -> int
    decreases steps.len(),
{
    if steps.len() == 0 {
        0
    } else {
        writes_of(steps.drop_last()) + (if steps.last().read {
            0int
        } else {
            1int
        })
    }
}

/// The outcome of a plain operation.
pub open spec fn plain(operation: Operation, payload_bytes: u64, sequence: Option<u64>) -> OperationOutcome {
    OperationOutcome {
        operation,
        payload_bytes,
        batch_keys: 0,
        sequence,
        transaction_commit: false,
    }
}

/// What a reply to a plan amounts to, where values of a length are written.
pub open spec fn judged(plan: Plan, value_bytes: usize, reply: Reply) -> Result<
    OperationOutcome,
    OperationError,
> {
    match (plan, reply) {
        (Plan::Read { .. }, Reply::Value(Some(n))) => Ok(plain(Operation::Read, n as u64, None)),
        (Plan::Update { .. }, Reply::Stored(sequence)) => Ok(
            plain(Operation::Update, value_bytes as u64, Some(sequence)),
        ),
        (Plan::InsertNext { .. }, Reply::Stored(sequence)) => Ok(
            plain(Operation::Insert, value_bytes as u64, Some(sequence)),
        ),
        (Plan::Insert { .. }, Reply::Stored(sequence)) => Ok(
            plain(Operation::Insert, value_bytes as u64, Some(sequence)),
        ),
        (Plan::InsertAnywhere { .. }, Reply::Stored(sequence)) => Ok(
            plain(Operation::Insert, value_bytes as u64, Some(sequence)),
        ),
        (
            Plan::ReadModifyWrite { .. },
            Reply::Exchanged { previous: Some(n), stored: Some(sequence) },
        ) => Ok(
            plain(Operation::ReadModifyWrite, capped(n + value_bytes), Some(sequence)),
        ),
        (Plan::BatchRead { .. }, Reply::Values(values)) => if all_found(values@) {
            Ok(
                OperationOutcome {
                    batch_keys: GROUP_RECORDS,
                    ..plain(Operation::BatchRead, capped(value_bytes_of(values@)), None)
                },
            )
        } else {
            Err(OperationError::Other)
        },
        (Plan::Scan { .. }, Reply::Records(records)) => Ok(
            OperationOutcome {
                batch_keys: records@.len() as u64,
                ..plain(Operation::Scan, capped(scan_bytes_of(records@)), None)
            },
        ),
        (Plan::PrefixScan { .. }, Reply::Records(records)) => if records@.len() == GROUP_RECORDS {
            Ok(
                OperationOutcome {
                    batch_keys: GROUP_RECORDS,
                    ..plain(Operation::PrefixScan, capped(scan_bytes_of(records@)), None)
                },
            )
        } else {
            Err(OperationError::Other)
        },
        (Plan::Transaction { steps }, Reply::Ended { reads, end }) => if !all_found(reads@) {
            Err(OperationError::Other)
        } else {
            match end {
                TransactionEnd::Committed(sequence) => Ok(
                    OperationOutcome {
                        batch_keys: GROUP_RECORDS,
                        transaction_commit: true,
                        ..plain(
                            Operation::Transaction,
                            capped(value_bytes_of(reads@) + writes_of(steps@) * value_bytes),
                            sequence,
                        )
                    },
                ),
                TransactionEnd::Conflict => Err(OperationError::TransactionConflict),
                TransactionEnd::Failed => Err(OperationError::Other),
            }
        },
        _ => Err(OperationError::Other),
    }
}

fn plain_outcome(operation: Operation, payload_bytes: u64, sequence: Option<u64>) -> (r:
    OperationOutcome)
    ensures
        r == plain(operation, payload_bytes, sequence),
{
    OperationOutcome {
        operation,
        payload_bytes,
        batch_keys: 0,
        sequence,
        transaction_commit: false,
    }
}

/// Adds up the lengths of records, if all were found.
fn found_bytes(values: &Vec<Option<usize>>) -> (r: Option<u64>)
    ensures
        r is Some <==> all_found(values@),
        r matches Some(n) ==> n == capped(value_bytes_of(values@)),
{
    let mut bytes: u64 = 0;
    let mut i: usize = 0;
    while i < values.len()
        invariant
            i <= values.len(),
            all_found(values@.take(i as int)),
            bytes == capped(value_bytes_of(values@.take(i as int))),
            value_bytes_of(values@.take(i as int)) >= 0,
        decreases values.len() - i,
    {
        proof {
            assert(values@.take(i + 1).drop_last() =~= values@.take(i as int));
            assert(values@.take(i + 1).last() == values@[i as int]);
        }
        match values[i] {
            Some(n) => {
                bytes = plus(bytes, n as u64);
                assert forall|k: int| 0 <= k < i + 1 implies #[trigger] values@.take(i + 1)[k]
                    is Some by {
                    if k < i {
                        assert(values@.take(i as int)[k] == values@[k]);
                    }
                }
            },
            None => {
                return None;
            },
        }
        i += 1;
    }
    assert(values@.take(i as int) =~= values@);
    Some(bytes)
}

fn scanned_bytes(records: &Vec<u64>) -> (r: u64)
    ensures
        r == capped(scan_bytes_of(records@)),
{
    let mut bytes: u64 = 0;
    let mut i: usize = 0;
    assert(records@.take(0).len() == 0);
    while i < records.len()
        invariant
            i <= records.len(),
            bytes == capped(scan_bytes_of(records@.take(i as int))),
            scan_bytes_of(records@.take(i as int)) >= 0,
        decreases records.len() - i,
    {
        proof {
            assert(records@.take(i + 1).drop_last() =~= records@.take(i as int));
        }
        bytes = plus(bytes, records[i]);
        i += 1;
    }
    assert(records@.take(i as int) =~= records@);
    bytes
}

proof fn found_bytes_are_natural(values: Seq<Option<usize>>)
    ensures
        value_bytes_of(values) >= 0,
    decreases values.len(),
{
    if values.len() > 0 {
        found_bytes_are_natural(values.drop_last());
    }
}

fn written_bytes(steps: &Vec<TransactionStep>, value_bytes: usize, read: u64, read_total: Ghost<
    int,
>) -> (r: u64)
    requires
        read == capped(read_total@),
        read_total@ >= 0,
    ensures
        r == capped(read_total@ + writes_of(steps@) * value_bytes),
{
    let mut bytes: u64 = read;
    let mut i: usize = 0;
    let ghost value = value_bytes as int;
    proof {
        assert(steps@.take(0).len() == 0);
        assert(0 * value == 0) by (nonlinear_arith);
    }
    while i < steps.len()
        invariant
            i <= steps.len(),
            value == value_bytes,
            read_total@ >= 0,
            writes_of(steps@.take(i as int)) >= 0,
            writes_of(steps@.take(i as int)) * value >= 0,
            bytes == capped(read_total@ + writes_of(steps@.take(i as int)) * value),
        decreases steps.len() - i,
    {
        proof {
            assert(steps@.take(i + 1).drop_last() =~= steps@.take(i as int));
            assert(steps@.take(i + 1).last() == steps@[i as int]);
            let w = writes_of(steps@.take(i as int));
            assert((w + 1) * value == w * value + value) by (nonlinear_arith);
        }
        if !steps[i].read {
            bytes = plus(bytes, value_bytes as u64);
        }
        i += 1;
    }
    assert(steps@.take(i as int) =~= steps@);
    bytes
}

/// Decides what a reply to a plan amounts to.
pub fn judge_reply(plan: &Plan, value_bytes: usize, reply: &Reply) -> (r: Result<
    OperationOutcome,
    OperationError,
>)
    ensures
        r == judged(*plan, value_bytes, *reply),
{
    match (plan, reply) {
        (Plan::Read { .. }, Reply::Value(Some(n))) => Ok(
            plain_outcome(Operation::Read, *n as u64, None),
        ),
        (Plan::Update { .. }, Reply::Stored(sequence)) => Ok(
            plain_outcome(Operation::Update, value_bytes as u64, Some(*sequence)),
        ),
        (Plan::InsertNext { .. }, Reply::Stored(sequence)) => Ok(
            plain_outcome(Operation::Insert, value_bytes as u64, Some(*sequence)),
        ),
        (Plan::Insert { .. }, Reply::Stored(sequence)) => Ok(
            plain_outcome(Operation::Insert, value_bytes as u64, Some(*sequence)),
        ),
        (Plan::InsertAnywhere { .. }, Reply::Stored(sequence)) => Ok(
            plain_outcome(Operation::Insert, value_bytes as u64, Some(*sequence)),
        ),
        (
            Plan::ReadModifyWrite { .. },
            Reply::Exchanged { previous: Some(n), stored: Some(sequence) },
        ) => Ok(
            plain_outcome(
                Operation::ReadModifyWrite,
                plus(*n as u64, value_bytes as u64),
                Some(*sequence),
            ),
        ),
        (Plan::BatchRead { .. }, Reply::Values(values)) => match found_bytes(values) {
            Some(bytes) => {
                let mut outcome = plain_outcome(Operation::BatchRead, bytes, None);
                outcome.batch_keys = GROUP_RECORDS;
                Ok(outcome)
            },
            None => Err(OperationError::Other),
        },
        (Plan::Scan { .. }, Reply::Records(records)) => {
            let mut outcome = plain_outcome(Operation::Scan, scanned_bytes(records), None);
            outcome.batch_keys = records.len() as u64;
            Ok(outcome)
        },
        (Plan::PrefixScan { .. }, Reply::Records(records)) => {
            if records.len() as u64 != GROUP_RECORDS {
                return Err(OperationError::Other);
            }
            let mut outcome = plain_outcome(Operation::PrefixScan, scanned_bytes(records), None);
            outcome.batch_keys = GROUP_RECORDS;
            Ok(outcome)
        },
        (Plan::Transaction { steps }, Reply::Ended { reads, end }) => match found_bytes(reads) {
            None => Err(OperationError::Other),
            Some(read) => match *end {
                TransactionEnd::Committed(sequence) => {
                    proof {
                        found_bytes_are_natural(reads@);
                    }
                    let bytes: u64 = written_bytes(
                        steps,
                        value_bytes,
                        read,
                        Ghost(value_bytes_of(reads@)),
                    );
                    let mut outcome = plain_outcome(Operation::Transaction, bytes, sequence);
                    outcome.batch_keys = GROUP_RECORDS;
                    outcome.transaction_commit = true;
                    Ok(outcome)
                },
                TransactionEnd::Conflict => Err(OperationError::TransactionConflict),
                TransactionEnd::Failed => Err(OperationError::Other),
            },
        },
        _ => Err(OperationError::Other),
    }
}

/// Tells whether a failure to commit is a conflict, by its text.
pub fn is_conflict(error: &str) -> (r: bool)
    ensures
        r == text::contains_text(text::lower_text(error@), "conflict"@),
{
    let lower = ascii_lowercase(error);
    contains(lower.as_str(), "conflict")
}

/// The counters after an operation.
pub open spec fn counted(
    counts: Counts,
    outcome: Result<OperationOutcome, OperationError>,
    returned_at: u64,
) -> Counts {
    match outcome {
        Ok(o) => {
            let a = counts.with_success(o.payload_bytes);
            let b = Counts {
                batch_keys: count::capped_sum(a.batch_keys, o.batch_keys),
                transaction_commits: if o.transaction_commit {
                    count::capped_sum(a.transaction_commits, 1)
                } else {
                    a.transaction_commits
                },
                ..a
            };
            match o.sequence {
                Some(sequence) => b.with_write(returned_at, sequence),
                None => b,
            }
        },
        Err(OperationError::TransactionConflict) => counts.with_conflict(),
        Err(OperationError::Other) => counts.with_error(),
    }
}

/// The histograms after an operation.
pub open spec fn measured(
    m: Map<Seq<char>, histogram::Recorded>,
    kind: WorkloadKind,
    outcome: Result<OperationOutcome, OperationError>,
    latency_ns: u64,
) -> Map<Seq<char>, histogram::Recorded> {
    match outcome {
        Ok(o) => {
            let a = stats::returned(m, o.operation.label(), latency_ns);
            if o.batch_keys > 0 {
                histogram::with_observation(a, "batch"@, latency_ns)
            } else {
                a
            }
        },
        Err(OperationError::TransactionConflict) => stats::returned(
            m,
            "transaction"@,
            latency_ns,
        ),
        Err(OperationError::Other) => stats::returned(
            m,
            failed_operation(kind).label(),
            latency_ns,
        ),
    }
}

/// The write that an operation made.
pub open spec fn write_of(
    outcome: Result<OperationOutcome, OperationError>,
    returned_at: u64,
) -> Option<AcceptedWrite> {
    match outcome {
        Ok(o) => match o.sequence {
            Some(sequence) => Some(AcceptedWrite { sequence, returned_at }),
            None => None,
        },
        Err(_) => None,
    }
}

/// Records what an operation amounted to, and returns the write to follow.
///
/// A conflict counts as an operation of the application, any other failure as an error.
pub fn record_operation(
    stats: &mut WorkerStats,
    counters: &mut ApplicationCounters,
    kind: WorkloadKind,
    outcome: Result<OperationOutcome, OperationError>,
    latency_ns: u64,
    returned_at: u64,
) -> (r: Option<AcceptedWrite>)
    requires
        old(stats).histograms.wf(),
    ensures
        final(stats).histograms.wf(),
        final(stats).counts == counted(old(stats).counts, outcome, returned_at),
        final(stats)@.histograms == measured(old(stats)@.histograms, kind, outcome, latency_ns),
        *final(counters) == (if outcome == Err::<OperationOutcome, OperationError>(
            OperationError::Other,
        ) {
            old(counters).with_error()
        } else {
            old(counters).with_operation()
        }),
        r == write_of(outcome, returned_at),
{
    match outcome {
        Ok(o) => {
            stats.record_success(o.operation.name(), latency_ns, o.payload_bytes);
            stats.counts.batch_keys = plus(stats.counts.batch_keys, o.batch_keys);
            if o.batch_keys > 0 {
                stats.histograms.record("batch", latency_ns);
            }
            if o.transaction_commit {
                stats.counts.transaction_commits = plus(stats.counts.transaction_commits, 1);
            }
            counters.count_operation();
            match o.sequence {
                Some(sequence) => {
                    stats.record_write(returned_at, sequence);
                    Some(AcceptedWrite { sequence, returned_at })
                },
                None => None,
            }
        },
        Err(OperationError::TransactionConflict) => {
            stats.record_conflict(latency_ns);
            counters.count_operation();
            None
        },
        Err(OperationError::Other) => {
            stats.record_error(operation_name(kind).name(), latency_ns);
            counters.count_error();
            None
        },
    }
}

/// Records a write of the writer beside the readers, and returns the write to follow.
///
/// The outcome is the size of the value and the sequence of the write, or none where it failed.
pub fn record_writer_update(
    stats: &mut WorkerStats,
    counters: &mut ApplicationCounters,
    outcome: Option<(u64, u64)>,
    latency_ns: u64,
    returned_at: u64,
) -> (r: Option<AcceptedWrite>)
    requires
        old(stats).histograms.wf(),
    ensures
        final(stats).histograms.wf(),
        final(stats).counts == (match outcome {
            Some((bytes, sequence)) => old(stats).counts.with_success(bytes).with_write(
                returned_at,
                sequence,
            ),
            None => old(stats).counts.with_error(),
        }),
        final(stats)@.histograms == stats::returned(
            old(stats)@.histograms,
            "writer-update"@,
            latency_ns,
        ),
        *final(counters) == (if outcome is Some {
            old(counters).with_operation()
        } else {
            old(counters).with_error()
        }),
        r == (match outcome {
            Some((_, sequence)) => Some(AcceptedWrite { sequence, returned_at }),
            None => None,
        }),
{
    match outcome {
        Some((bytes, sequence)) => {
            stats.record_success(Operation::WriterUpdate.name(), latency_ns, bytes);
            stats.record_write(returned_at, sequence);
            counters.count_operation();
            Some(AcceptedWrite { sequence, returned_at })
        },
        None => {
            stats.record_error(Operation::WriterUpdate.name(), latency_ns);
            counters.count_error();
            None
        },
    }
}

/// The next record that is inserted.
#[derive(Debug, Clone, Copy, PartialEq, Eq, Structural)]
pub struct ClosedLoopState {
    pub next_insert: u64,
}

impl ClosedLoopState {
    /// Starts to insert at a record.
    pub fn new(next_insert: u64) -> (r: Self)
        ensures
            r.next_insert == next_insert,
    {
        ClosedLoopState { next_insert }
    }

    /// Takes the next record for one client.
    pub fn reserve(&mut self) -> (r: u64)
        ensures
            r == old(self).next_insert,
            old(self).next_insert < u64::MAX ==> final(self).next_insert == r + 1,
            old(self).next_insert == u64::MAX ==> final(self).next_insert == 0,
    {
        let id: u64 = self.next_insert;
        self.next_insert = if id == u64::MAX {
            0
        } else {
            id + 1
        };
        id
    }

    /// A record was inserted that no client had reserved.
    pub fn inserted(&mut self, id: u64)
        ensures
            final(self).next_insert == count::capped_sum(id, 1),
    {
        self.next_insert = plus(id, 1);
    }
}

/// The workload that readers run while another client writes.
pub open spec fn reads_while_writing(kind: WorkloadKind) -> Option<WorkloadKind> {
    match kind {
        WorkloadKind::ReadWhileWriting => Some(WorkloadKind::RandomRead),
        WorkloadKind::ForwardRangeWhileWriting => Some(WorkloadKind::ForwardRange),
        WorkloadKind::ReverseRangeWhileWriting => Some(WorkloadKind::ReverseRange),
        _ => None,
    }
}

/// Returns the workload that readers run while another client writes.
pub fn reader_kind(kind: WorkloadKind) -> (r: Option<WorkloadKind>)
    ensures
        r == reads_while_writing(kind),
{
    match kind {
        WorkloadKind::ReadWhileWriting => Some(WorkloadKind::RandomRead),
        WorkloadKind::ForwardRangeWhileWriting => Some(WorkloadKind::ForwardRange),
        WorkloadKind::ReverseRangeWhileWriting => Some(WorkloadKind::ReverseRange),
        _ => None,
    }
}

/// Returns how often a capped writer writes in a second.
pub fn writer_ops_per_second(value_bytes: u64) -> (r: u64)
    requires
        value_bytes > 0,
    ensures
        r == count::larger(WRITER_BYTES_PER_SECOND / value_bytes, 1),
{
    max_of(WRITER_BYTES_PER_SECOND / value_bytes, 1)
}

/// The key of a record of a dataset: records of ten share a prefix where the layout has prefixes.
pub open spec fn dataset_key_of(id: u64, key_bytes: nat, prefix_layout: bool) -> Seq<u8> {
    if prefix_layout {
        util::record_key(id / GROUP_RECORDS, 8) + util::record_key(id % GROUP_RECORDS, 8)
    } else {
        util::record_key(id, key_bytes)
    }
}

/// Builds the key of a record of a dataset.
pub fn dataset_key(id: u64, key_bytes: usize, prefix_layout: bool) -> (r: Vec<u8>)
    ensures
        r@ == dataset_key_of(id, key_bytes as nat, prefix_layout),
{
    if prefix_layout {
        let mut key = key_for_id(id / GROUP_RECORDS, 8);
        let mut member = key_for_id(id % GROUP_RECORDS, 8);
        key.append(&mut member);
        key
    } else {
        key_for_id(id, key_bytes)
    }
}

/// The key of an ingested record: a random number, then the number of the record. A key that is too
/// short for both is the record's.
pub open spec fn ingest_key_of(id: u64, salt: u64, key_bytes: nat) -> Seq<u8> {
    if key_bytes >= 16 {
        util::record_key(salt, 8) + util::record_key(id, (key_bytes - 8) as nat)
    } else {
        util::record_key(id, key_bytes)
    }
}

/// Builds the key of an ingested record.
pub fn ingest_key(id: u64, salt: u64, key_bytes: usize) -> (r: Vec<u8>)
    ensures
        r@ == ingest_key_of(id, salt, key_bytes as nat),
{
    if key_bytes >= 16 {
        let mut key = key_for_id(salt, 8);
        let mut number = key_for_id(id, key_bytes - 8);
        key.append(&mut number);
        key
    } else {
        key_for_id(id, key_bytes)
    }
}

/// Two ingested records have two keys, whatever random numbers they got.
pub proof fn ingested_keys_are_distinct(a: u64, b: u64, x: u64, y: u64, key_bytes: nat)
    requires
        a != b,
        key_bytes >= 8,
    ensures
        ingest_key_of(a, x, key_bytes) != ingest_key_of(b, y, key_bytes),
{
    if key_bytes >= 16 {
        let rest = (key_bytes - 8) as nat;
        util::keys_are_distinct(a, b, rest);
        let one = ingest_key_of(a, x, key_bytes);
        let other = ingest_key_of(b, y, key_bytes);
        assert(one.subrange(8, one.len() as int) =~= util::record_key(a, rest));
        assert(other.subrange(8, other.len() as int) =~= util::record_key(b, rest));
    } else {
        util::keys_are_distinct(a, b, key_bytes);
    }
}

/// Records that share a prefix are those of one group of ten.
pub proof fn prefixes_group_records(a: u64, b: u64, key_bytes: nat)
    ensures
        dataset_key_of(a, key_bytes, true).take(8) == util::record_key(a / GROUP_RECORDS, 8),
        dataset_key_of(a, key_bytes, true).take(8) == dataset_key_of(b, key_bytes, true).take(8)
            <==> a / GROUP_RECORDS == b / GROUP_RECORDS,
{
    assert(dataset_key_of(a, key_bytes, true).take(8) =~= util::record_key(
        a / GROUP_RECORDS,
        8,
    ));
    assert(dataset_key_of(b, key_bytes, true).take(8) =~= util::record_key(
        b / GROUP_RECORDS,
        8,
    ));
    if a / GROUP_RECORDS != b / GROUP_RECORDS {
        util::keys_are_distinct(a / GROUP_RECORDS, b / GROUP_RECORDS, 8);
    }
}

/// An operation of a workload that mixes two kinds is of the first kind exactly where one draw of
/// the client's own generator comes true: with 500 of a thousand where they are balanced, and with
/// 950 where reads or scans are most. The other kinds of workloads do one thing.
pub proof fn plans_follow_their_draws(
    kind: WorkloadKind,
    record_count: u64,
    next_insert: u64,
    before: StdRng,
    d: ChoiceDraws,
    c: Choices,
)
    requires
        choices_come_of(kind, record_count, next_insert, before, d, c),
        record_count > 0,
    ensures
        ({
            let plan = planned(kind, next_insert, c);
            &&& kind == WorkloadKind::YcsbA || kind == WorkloadKind::YcsbB ==> {
                &&& d.first is Some && d.first->0.before() == before
                &&& d.first->0.asked() == Asked::Likely(
                    if kind == WorkloadKind::YcsbA {
                        500
                    } else {
                        950
                    },
                )
                &&& plan == Ok::<Plan, Unsupported>(
                    if d.first->0.outcome() {
                        Plan::Read { id: c.id }
                    } else {
                        Plan::Update { id: c.id }
                    },
                )
            }
            &&& kind == WorkloadKind::YcsbC || kind == WorkloadKind::ColdRead || kind
                == WorkloadKind::RandomRead ==> plan == Ok::<Plan, Unsupported>(
                Plan::Read { id: c.id },
            )
            &&& kind == WorkloadKind::YcsbD ==> {
                &&& d.first is Some && d.first->0.before() == before
                &&& d.first->0.asked() == Asked::Likely(950)
                &&& !d.first->0.outcome() ==> plan == Ok::<Plan, Unsupported>(
                    Plan::InsertNext { id: next_insert },
                )
                &&& d.first->0.outcome() ==> plan is Ok && plan->Ok_0 is Read
                &&& d.first->0.outcome() && d.back.outcome() < next_insert
                    ==> plan->Ok_0->Read_id + 1 + d.back.outcome() == next_insert
            }
            &&& kind == WorkloadKind::YcsbE ==> {
                &&& d.first is Some && d.first->0.before() == before
                &&& d.first->0.asked() == Asked::Likely(950)
                &&& d.length.asked() == Asked::Below(100)
                &&& !d.first->0.outcome() ==> plan == Ok::<Plan, Unsupported>(
                    Plan::Insert { id: next_insert },
                )
                &&& d.first->0.outcome() ==> plan == Ok::<Plan, Unsupported>(
                    Plan::Scan {
                        start_id: c.id,
                        limit: (d.length.outcome() + 1) as u64,
                        reverse: false,
                    },
                )
            }
            &&& kind == WorkloadKind::YcsbF ==> {
                &&& d.first is Some && d.first->0.before() == before
                &&& d.first->0.asked() == Asked::Likely(500)
                &&& plan == Ok::<Plan, Unsupported>(
                    if d.first->0.outcome() {
                        Plan::Read { id: c.id }
                    } else {
                        Plan::ReadModifyWrite { id: c.id }
                    },
                )
            }
            &&& kind == WorkloadKind::ForwardRange ==> plan == Ok::<Plan, Unsupported>(
                Plan::Scan { start_id: c.id, limit: 10, reverse: false },
            )
            &&& kind == WorkloadKind::ReverseRange ==> plan == Ok::<Plan, Unsupported>(
                Plan::Scan { start_id: c.id, limit: 10, reverse: true },
            )
            &&& kind == WorkloadKind::Overwrite ==> plan == Ok::<Plan, Unsupported>(
                Plan::Update { id: c.id },
            )
            &&& kind == WorkloadKind::SustainedIngest ==> plan == Ok::<Plan, Unsupported>(
                Plan::InsertAnywhere { id: next_insert, salt: d.salt.outcome() },
            )
            &&& kind == WorkloadKind::PrefixScan ==> {
                &&& d.prefix.asked() == Asked::Below(
                    if record_count >= 10 {
                        record_count / 10
                    } else {
                        1
                    },
                )
                &&& plan == Ok::<Plan, Unsupported>(
                    Plan::PrefixScan { prefix: d.prefix.outcome() },
                )
            }
            &&& kind == WorkloadKind::MultiRandomRead ==> plan == Ok::<Plan, Unsupported>(
                Plan::BatchRead { ids: c.ids },
            )
            &&& kind == WorkloadKind::TransactionContention ==> plan == Ok::<Plan, Unsupported>(
                Plan::Transaction { steps: c.steps },
            )
            &&& kind == WorkloadKind::YcsbD ==> d.back.asked() == Asked::Below(
                if next_insert < 1 {
                    1
                } else if next_insert < 10_000 {
                    next_insert
                } else {
                    10_000
                },
            )
        }),
{
}

/// The record of an operation is the one that was drawn: by a Zipfian rank that is spread over the
/// records where a workload favours few of them, else uniformly among all.
pub proof fn planned_records_were_drawn(
    kind: WorkloadKind,
    record_count: u64,
    next_insert: u64,
    before: StdRng,
    d: ChoiceDraws,
    c: Choices,
)
    requires
        choices_come_of(kind, record_count, next_insert, before, d, c),
        record_count > 0,
    ensures
        d.id is Some,
        d.id->0.before() == (if d.first is Some {
            d.first->0.after()
        } else {
            before
        }),
        kind == WorkloadKind::YcsbA || kind == WorkloadKind::YcsbB || kind == WorkloadKind::YcsbC
            || kind == WorkloadKind::YcsbF ==> {
            &&& d.id->0.asked() == (Asked::Rank { records: record_count, exponent_permille: 990 })
            &&& d.id->0.outcome() >= 1 ==> c.id == util::fnv((d.id->0.outcome() - 1) as u64)
                % record_count
        },
        !(kind == WorkloadKind::YcsbA || kind == WorkloadKind::YcsbB || kind == WorkloadKind::YcsbC
            || kind == WorkloadKind::YcsbF) ==> d.id->0.asked() == Asked::Below(record_count)
            && d.id->0.outcome() == c.id,
{
}

/// A read succeeds where the record is found, a write where it is stored, a batch where every
/// record is found, and a prefix scan where it returns all its records; anything else is an error.
pub proof fn replies_are_judged_by_their_plan(plan: Plan, value_bytes: usize, reply: Reply)
    ensures
        ({
            let r = judged(plan, value_bytes, reply);
            &&& reply is Failed ==> r == Err::<OperationOutcome, OperationError>(
                OperationError::Other,
            )
            &&& plan is Read ==> (r is Ok <==> reply is Value && reply->Value_0 is Some)
            &&& plan is Update || plan is InsertNext || plan is Insert || plan is InsertAnywhere
                ==> (r is Ok <==> reply is Stored)
            &&& plan is ReadModifyWrite ==> (r is Ok <==> (reply matches Reply::Exchanged {
                previous,
                stored,
            } && previous is Some && stored is Some))
            &&& plan is Scan ==> (r is Ok <==> reply is Records)
            &&& plan is PrefixScan ==> (r is Ok <==> (reply matches Reply::Records(records)
                && records@.len() == 10))
            &&& plan is BatchRead ==> (r is Ok <==> (reply matches Reply::Values(values)
                && forall|i: int| 0 <= i < values@.len() ==> #[trigger] values@[i] is Some))
            &&& plan is Transaction ==> (r is Ok <==> (reply matches Reply::Ended { reads, end }
                && end is Committed && forall|i: int|
                0 <= i < reads@.len() ==> #[trigger] reads@[i] is Some))
            &&& plan is Transaction ==> (r == Err::<OperationOutcome, OperationError>(
                OperationError::TransactionConflict,
            ) <==> (reply matches Reply::Ended { reads, end } && end is Conflict && forall|i: int|
                0 <= i < reads@.len() ==> #[trigger] reads@[i] is Some))
        }),
{
}

/// A successful operation is reported under its own name, with the sequence of its write and the
/// bytes that it read or wrote.
pub proof fn outcomes_report_their_operation(plan: Plan, value_bytes: usize, reply: Reply)
    requires
        judged(plan, value_bytes, reply) is Ok,
    ensures
        ({
            let o = judged(plan, value_bytes, reply)->Ok_0;
            &&& plan is Read ==> o.operation == Operation::Read && o.sequence is None
                && o.payload_bytes == reply->Value_0->0 && o.batch_keys == 0
            &&& plan is Update ==> o.operation == Operation::Update && o.payload_bytes
                == value_bytes && o.sequence == Some(reply->Stored_0)
            &&& plan is InsertNext || plan is Insert || plan is InsertAnywhere ==> o.operation
                == Operation::Insert && o.payload_bytes == value_bytes && o.sequence == Some(
                reply->Stored_0,
            )
            &&& plan is ReadModifyWrite ==> {
                &&& o.operation == Operation::ReadModifyWrite
                &&& o.sequence == reply->stored
                &&& reply->previous->0 + value_bytes <= u64::MAX ==> o.payload_bytes
                    == reply->previous->0 + value_bytes
            }
            &&& plan is BatchRead ==> o.operation == Operation::BatchRead && o.batch_keys == 10
                && o.sequence is None
            &&& plan is Scan ==> o.operation == Operation::Scan && o.batch_keys
                == reply->Records_0@.len() as u64 && o.sequence is None
            &&& plan is PrefixScan ==> o.operation == Operation::PrefixScan && o.batch_keys == 10
                && o.sequence is None
            &&& plan is Transaction ==> o.operation == Operation::Transaction && o.batch_keys == 10
                && o.transaction_commit
            &&& !(plan is Transaction) ==> !o.transaction_commit
        }),
{
}

/// The bytes of records are those of each of them, and a scan's likewise; a transaction counts a
/// value for each of its writes.
pub proof fn payloads_add_up(
    values: Seq<Option<usize>>,
    n: usize,
    records: Seq<u64>,
    bytes: u64,
    steps: Seq<TransactionStep>,
    step: TransactionStep,
)
    ensures
        value_bytes_of(values.push(Some(n))) == value_bytes_of(values) + n,
        value_bytes_of(Seq::<Option<usize>>::empty()) == 0,
        scan_bytes_of(records.push(bytes)) == scan_bytes_of(records) + bytes,
        scan_bytes_of(Seq::<u64>::empty()) == 0,
        writes_of(steps.push(step)) == writes_of(steps) + (if step.read {
            0int
        } else {
            1int
        }),
        writes_of(Seq::<TransactionStep>::empty()) == 0,
{
    assert(values.push(Some(n)).drop_last() =~= values);
    assert(records.push(bytes).drop_last() =~= records);
    assert(steps.push(step).drop_last() =~= steps);
}

/// An operation counts once, by its outcome: a success with its bytes and keys, a commit where it
/// is one, a write where it has a sequence; a conflict as an abort; anything else as an error.
pub proof fn outcomes_count_once(
    c: Counts,
    o: OperationOutcome,
    returned_at: u64,
)
    requires
        c.total < u64::MAX,
        c.successful < u64::MAX,
        c.errors < u64::MAX,
        c.writes < u64::MAX,
        c.transaction_commits < u64::MAX,
        c.transaction_aborts < u64::MAX,
        c.transaction_conflicts < u64::MAX,
        c.payload_bytes + o.payload_bytes <= u64::MAX,
        c.batch_keys + o.batch_keys <= u64::MAX,
    ensures
        ({
            let r = counted(c, Ok(o), returned_at);
            &&& r.total == c.total + 1
            &&& r.successful == c.successful + 1
            &&& r.errors == c.errors
            &&& r.payload_bytes == c.payload_bytes + o.payload_bytes
            &&& r.batch_keys == c.batch_keys + o.batch_keys
            &&& r.transaction_commits == c.transaction_commits + (if o.transaction_commit {
                1int
            } else {
                0int
            })
            &&& r.writes == c.writes + (if o.sequence is Some {
                1int
            } else {
                0int
            })
            &&& o.sequence matches Some(sequence) ==> r.last_write_sequence is Some
                && r.last_write_sequence->0 >= sequence && r.first_write_return is Some
                && r.first_write_return->0 <= returned_at
            &&& r.transaction_aborts == c.transaction_aborts
        }),
        ({
            let r = counted(c, Err(OperationError::TransactionConflict), returned_at);
            &&& r.total == c.total + 1
            &&& r.transaction_aborts == c.transaction_aborts + 1
            &&& r.transaction_conflicts == c.transaction_conflicts + 1
            &&& r.errors == c.errors && r.successful == c.successful
        }),
        ({
            let r = counted(c, Err(OperationError::Other), returned_at);
            &&& r.total == c.total + 1
            &&& r.errors == c.errors + 1
            &&& r.successful == c.successful && r.transaction_aborts == c.transaction_aborts
        }),
        o.sequence matches Some(sequence) ==> write_of(Ok(o), returned_at) == Some(
            AcceptedWrite { sequence, returned_at },
        ),
        o.sequence is None ==> write_of(Ok(o), returned_at) is None,
        write_of(Err(OperationError::Other), returned_at) is None,
{
}

/// An operation is reported under its own name, and a failure under the one of its workload.
pub proof fn operations_are_reported_by_name(kind: WorkloadKind)
    ensures
        Operation::Read.label() == "read"@,
        Operation::Update.label() == "update"@,
        Operation::Insert.label() == "insert"@,
        Operation::Scan.label() == "scan"@,
        Operation::ReadModifyWrite.label() == "read-modify-write"@,
        Operation::BatchRead.label() == "batch-read"@,
        Operation::PrefixScan.label() == "prefix-scan"@,
        Operation::Transaction.label() == "transaction"@,
        Operation::WriterUpdate.label() == "writer-update"@,
        Operation::Other.label() == "operation"@,
        kind == WorkloadKind::TransactionContention ==> failed_operation(kind)
            == Operation::Transaction,
        kind == WorkloadKind::PrefixScan ==> failed_operation(kind) == Operation::PrefixScan,
        kind == WorkloadKind::MultiRandomRead ==> failed_operation(kind) == Operation::BatchRead,
        kind == WorkloadKind::ForwardRange || kind == WorkloadKind::ReverseRange || kind
            == WorkloadKind::YcsbE ==> failed_operation(kind) == Operation::Scan,
        kind == WorkloadKind::SustainedIngest || kind == WorkloadKind::BulkLoad || kind
            == WorkloadKind::YcsbD ==> failed_operation(kind) == Operation::Insert,
        kind == WorkloadKind::Overwrite ==> failed_operation(kind) == Operation::Update,
{
}

/// A workload that reads while others write reads as its plain counterpart does.
pub proof fn readers_read_as_usual(kind: WorkloadKind)
    ensures
        kind == WorkloadKind::ReadWhileWriting ==> reads_while_writing(kind) == Some(
            WorkloadKind::RandomRead,
        ),
        kind == WorkloadKind::ForwardRangeWhileWriting ==> reads_while_writing(kind) == Some(
            WorkloadKind::ForwardRange,
        ),
        kind == WorkloadKind::ReverseRangeWhileWriting ==> reads_while_writing(kind) == Some(
            WorkloadKind::ReverseRange,
        ),
        kind != WorkloadKind::ReadWhileWriting && kind != WorkloadKind::ForwardRangeWhileWriting
            && kind != WorkloadKind::ReverseRangeWhileWriting ==> reads_while_writing(kind) is None,
{
}

} // verus!
