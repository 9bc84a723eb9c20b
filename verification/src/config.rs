//! Workload catalog and benchmark configuration resolution.

use crate::bits;
use crate::count;
use crate::count::{max_of, min_of, times};
use crate::named::Named;
use crate::text::{ends_with, same_text, split_non_empty};
use vstd::prelude::*;

verus! {

pub const RECORD_COUNT: u64 = 300_000_000;

pub const KEY_BYTES: usize = 20;

pub const VALUE_BYTES: usize = 400;

pub const CLIENTS: usize = 64;

pub const WARMUP_MS: u64 = 300_000;

pub const MEASUREMENT_MS: u64 = 900_000;

pub const IDLE_MS: u64 = 300_000;

pub const INGEST_MS: u64 = 1_200_000;

pub const BLOCK_CACHE_BYTES: u64 = 8_589_934_592;

pub const METADATA_CACHE_BYTES: u64 = 4_294_967_296;

pub const MIN_DURATION_MS: u64 = 2_000;

pub const MIN_BLOCK_CACHE_BYTES: u64 = 8_388_608;

pub const MIN_METADATA_CACHE_BYTES: u64 = 2_097_152;

/// Bit pattern of one.
pub const ONE: u64 = 0x3ff0_0000_0000_0000;

/// Bit pattern of one half.
pub const HALF: u64 = 0x3fe0_0000_0000_0000;

/// Bit pattern of ninety-five hundredths.
pub const MOST: u64 = 0x3fee_6666_6666_6666;

/// Bit pattern of five hundredths.
pub const FEW: u64 = 0x3fa9_9999_9999_999a;

/// Fraction used to shrink benchmark data and durations for local execution.
///
/// Valid factors are greater than zero and at most one. Scaling preserves minimum cache sizes and
/// durations so small runs still exercise real code paths.
#[derive(Debug, Clone, Copy, PartialEq, Eq, Structural)]
pub struct BenchmarkScale {
    bits: u64,
}

/// Why a scale is refused.
#[derive(Debug, Clone, Copy, PartialEq, Eq, Structural)]
pub enum ScaleError {
    /// Written as a percentage.
    Percentage,
    /// Not a decimal number.
    NotANumber,
    /// Not above zero and at most one.
    OutOfRange,
}

/// Whether a number may be a scale.
pub open spec fn scale_is_valid(number: u64) -> bool {
    bits::is_finite(number) && bits::rank(number) > 0 && bits::rank(number) <= bits::rank(ONE)
}

impl BenchmarkScale {
    /// The bit pattern of the factor.
    pub closed spec fn number(self) -> u64 {
        self.bits
    }

    /// An unscaled benchmark run.
    pub fn full() -> (r: Self)
        ensures
            r.number() == ONE,
    {
        BenchmarkScale { bits: ONE }
    }

    /// Returns the bit pattern of the scale factor.
    pub fn factor(self) -> (r: u64)
        ensures
            r == self.number(),
    {
        self.bits
    }

    /// Returns whether this value represents a full-scale run.
    pub fn is_full(self) -> (r: bool)
        ensures
            r == (self.number() == ONE),
    {
        self.bits == ONE
    }

    /// Accepts a factor above zero and at most one.
    pub fn validate(number: u64) -> (r: Result<Self, ScaleError>)
        ensures
            scale_is_valid(number) ==> r is Ok && r->Ok_0.number() == number,
            !scale_is_valid(number) ==> r == Err::<Self, ScaleError>(ScaleError::OutOfRange),
    {
        if number > 0 && number <= ONE {
            Ok(BenchmarkScale { bits: number })
        } else {
            Err(ScaleError::OutOfRange)
        }
    }

    /// Accepts a scale as it was written, given the number that was read from it.
    pub fn from_text(text: &str, number: Option<u64>) -> (r: Result<Self, ScaleError>)
        ensures
            crate::text::has_suffix(text@, "%"@) ==> r == Err::<Self, ScaleError>(
                ScaleError::Percentage,
            ),
            !crate::text::has_suffix(text@, "%"@) ==> (match number {
                None => r == Err::<Self, ScaleError>(ScaleError::NotANumber),
                Some(n) => if scale_is_valid(n) {
                    r is Ok && r->Ok_0.number() == n
                } else {
                    r == Err::<Self, ScaleError>(ScaleError::OutOfRange)
                },
            }),
    {
        if ends_with(text, "%") {
            return Err(ScaleError::Percentage);
        }
        match number {
            None => Err(ScaleError::NotANumber),
            Some(n) => BenchmarkScale::validate(n),
        }
    }
}

impl Default for BenchmarkScale {
    fn default() -> (r: Self)
        ensures
            r.number() == ONE,
    {
        BenchmarkScale::full()
    }
}

/// A preparation phase or workload from the benchmark catalog.
#[derive(Debug, Clone, Copy, PartialEq, Eq, PartialOrd, Ord, Structural)]
pub enum Task {
    BulkLoad,
    Compaction,
    Idle,
    PointReadUniform,
    PointReadSkewed,
    PointReadMissing,
    ReadHeavy,
    Balanced,
    UpdateHeavy,
    RangeScan,
    SustainedIngest,
    TransactionContention,
}

/// The operations that a task mixes.
#[derive(Debug, Clone, Copy, PartialEq, Eq, Structural)]
pub enum Mix {
    Nothing,
    Gets,
    /// Gets and puts, with the bit patterns of their shares.
    GetsAndPuts(u64, u64),
    Scans,
    Puts,
    Transactions,
}

/// What the catalog says of a task.
#[derive(Debug, Clone, Copy)]
pub struct TaskDefinition {
    pub name: &'static str,
    pub preparation: bool,
    pub clients: usize,
    pub warmup_ms: u64,
    pub measurement_ms: u64,
    pub initial_state: &'static str,
    pub key_selection: &'static str,
    pub operation_mix: Mix,
    pub scan_limit: Option<usize>,
    pub transaction_hot_keys: Option<u64>,
    pub transaction_reads: Option<usize>,
    pub transaction_updates: Option<usize>,
    pub may_write: bool,
}

/// The executable workloads in catalog order.
pub open spec fn workload_catalog() -> Seq<Task> {
    seq![
        Task::Idle,
        Task::PointReadUniform,
        Task::PointReadSkewed,
        Task::PointReadMissing,
        Task::ReadHeavy,
        Task::Balanced,
        Task::UpdateHeavy,
        Task::RangeScan,
        Task::SustainedIngest,
        Task::TransactionContention,
    ]
}

impl Task {
    /// Whether a task creates or compacts a golden dataset.
    pub open spec fn prepares(self) -> bool {
        self == Task::BulkLoad || self == Task::Compaction
    }

    /// Whether a task starts from the golden checkpoint.
    pub open spec fn golden(self) -> bool {
        !self.prepares() && self != Task::SustainedIngest
    }

    /// Whether a task may modify the database.
    pub open spec fn writes(self) -> bool {
        match self {
            Task::BulkLoad => true,
            Task::ReadHeavy => true,
            Task::Balanced => true,
            Task::UpdateHeavy => true,
            Task::SustainedIngest => true,
            Task::TransactionContention => true,
            _ => false,
        }
    }

    /// The stable artifact and command-line name.
    pub open spec fn label(self) -> Seq<char> {
        match self {
            Task::BulkLoad => "bulk-load"@,
            Task::Compaction => "compaction"@,
            Task::Idle => "idle"@,
            Task::PointReadUniform => "point-read-uniform"@,
            Task::PointReadSkewed => "point-read-skewed"@,
            Task::PointReadMissing => "point-read-missing"@,
            Task::ReadHeavy => "read-heavy"@,
            Task::Balanced => "balanced"@,
            Task::UpdateHeavy => "update-heavy"@,
            Task::RangeScan => "range-scan"@,
            Task::SustainedIngest => "sustained-ingest"@,
            Task::TransactionContention => "transaction-contention"@,
        }
    }

    /// The state that a task starts from: none where it prepares a golden dataset.
    pub open spec fn start(self) -> Seq<char> {
        if self.prepares() {
            "none"@
        } else if self == Task::SustainedIngest {
            "empty"@
        } else {
            "golden"@
        }
    }

    /// How a task selects keys.
    pub open spec fn keys(self) -> Seq<char> {
        match self {
            Task::BulkLoad | Task::Compaction | Task::Idle => "none"@,
            Task::PointReadUniform | Task::RangeScan => "uniform"@,
            Task::PointReadMissing => "uniform-absent"@,
            Task::SustainedIngest => "unique-sequential"@,
            Task::TransactionContention => "uniform-hot-set"@,
            _ => "scrambled-zipfian-0.99"@,
        }
    }

    /// The operations that a task mixes.
    pub open spec fn mix(self) -> Mix {
        match self {
            Task::BulkLoad | Task::Compaction | Task::Idle => Mix::Nothing,
            Task::PointReadUniform | Task::PointReadSkewed | Task::PointReadMissing => Mix::Gets,
            Task::ReadHeavy => Mix::GetsAndPuts(MOST, FEW),
            Task::Balanced => Mix::GetsAndPuts(HALF, HALF),
            Task::UpdateHeavy => Mix::GetsAndPuts(FEW, MOST),
            Task::RangeScan => Mix::Scans,
            Task::SustainedIngest => Mix::Puts,
            Task::TransactionContention => Mix::Transactions,
        }
    }

    /// The number of concurrent clients.
    pub open spec fn client_count(self) -> usize {
        if self.mix() == Mix::Nothing {
            0
        } else {
            CLIENTS
        }
    }

    /// The unscaled warmup.
    pub open spec fn full_warmup_ms(self) -> u64 {
        if self.mix() == Mix::Nothing || self == Task::SustainedIngest {
            0
        } else {
            WARMUP_MS
        }
    }

    /// The unscaled measurement.
    pub open spec fn full_measurement_ms(self) -> u64 {
        if self.prepares() {
            0
        } else if self == Task::Idle {
            IDLE_MS
        } else if self == Task::SustainedIngest {
            INGEST_MS
        } else {
            MEASUREMENT_MS
        }
    }

    /// Lists the executable workloads in catalog order; preparation phases are excluded.
    pub fn workloads() -> (r: Vec<Task>)
        ensures
            r@ == workload_catalog(),
    {
        let r = vec![
            Task::Idle,
            Task::PointReadUniform,
            Task::PointReadSkewed,
            Task::PointReadMissing,
            Task::ReadHeavy,
            Task::Balanced,
            Task::UpdateHeavy,
            Task::RangeScan,
            Task::SustainedIngest,
            Task::TransactionContention,
        ];
        assert(r@ =~= workload_catalog());
        r
    }

    /// Returns whether the task creates or compacts a golden dataset.
    pub fn is_preparation(self) -> (r: bool)
        ensures
            r == self.prepares(),
    {
        self.definition().preparation
    }

    /// Returns whether the task starts from the golden checkpoint.
    pub fn uses_golden(self) -> (r: bool)
        ensures
            r == self.golden(),
    {
        let d = self.definition();
        proof {
            reveal_strlit("golden");
            reveal_strlit("empty");
            reveal_strlit("none");
            assert("golden"@.len() != "empty"@.len() && "golden"@.len() != "none"@.len());
        }
        same_text(d.initial_state, "golden")
    }

    /// Returns whether the task may modify the database.
    pub fn may_write(self) -> (r: bool)
        ensures
            r == self.writes(),
    {
        self.definition().may_write
    }

    /// Returns the stable artifact and command-line name.
    pub fn as_str(self) -> (r: &'static str)
        ensures
            r@ == self.label(),
    {
        self.definition().name
    }

    /// Returns the catalog entry of a task.
    pub fn definition(self) -> (r: TaskDefinition)
        ensures
            r.name@ == self.label(),
            r.preparation == self.prepares(),
            r.clients == self.client_count(),
            r.warmup_ms == self.full_warmup_ms(),
            r.measurement_ms == self.full_measurement_ms(),
            r.initial_state@ == self.start(),
            r.key_selection@ == self.keys(),
            r.operation_mix == self.mix(),
            r.scan_limit == (if self == Task::RangeScan {
                Some(10usize)
            } else {
                None
            }),
            r.transaction_hot_keys == (if self == Task::TransactionContention {
                Some(10_000u64)
            } else {
                None
            }),
            r.transaction_reads == (if self == Task::TransactionContention {
                Some(5usize)
            } else {
                None
            }),
            r.transaction_updates == (if self == Task::TransactionContention {
                Some(5usize)
            } else {
                None
            }),
            r.may_write == self.writes(),
    {
        let base = TaskDefinition {
            name: "bulk-load",
            preparation: false,
            clients: CLIENTS,
            warmup_ms: WARMUP_MS,
            measurement_ms: MEASUREMENT_MS,
            initial_state: "golden",
            key_selection: "scrambled-zipfian-0.99",
            operation_mix: Mix::Gets,
            scan_limit: None,
            transaction_hot_keys: None,
            transaction_reads: None,
            transaction_updates: None,
            may_write: false,
        };
        let idle = TaskDefinition {
            name: "idle",
            clients: 0,
            warmup_ms: 0,
            measurement_ms: IDLE_MS,
            key_selection: "none",
            operation_mix: Mix::Nothing,
            ..base
        };
        let preparation = TaskDefinition {
            name: "bulk-load",
            preparation: true,
            measurement_ms: 0,
            initial_state: "none",
            may_write: true,
            ..idle
        };
        match self {
            Task::BulkLoad => preparation,
            Task::Compaction => TaskDefinition {
                name: "compaction",
                may_write: false,
                ..preparation
            },
            Task::Idle => idle,
            Task::PointReadUniform => TaskDefinition {
                name: "point-read-uniform",
                key_selection: "uniform",
                ..base
            },
            Task::PointReadSkewed => TaskDefinition { name: "point-read-skewed", ..base },
            Task::PointReadMissing => TaskDefinition {
                name: "point-read-missing",
                key_selection: "uniform-absent",
                ..base
            },
            Task::ReadHeavy => TaskDefinition {
                name: "read-heavy",
                operation_mix: Mix::GetsAndPuts(MOST, FEW),
                may_write: true,
                ..base
            },
            Task::Balanced => TaskDefinition {
                name: "balanced",
                operation_mix: Mix::GetsAndPuts(HALF, HALF),
                may_write: true,
                ..base
            },
            Task::UpdateHeavy => TaskDefinition {
                name: "update-heavy",
                operation_mix: Mix::GetsAndPuts(FEW, MOST),
                may_write: true,
                ..base
            },
            Task::RangeScan => TaskDefinition {
                name: "range-scan",
                key_selection: "uniform",
                operation_mix: Mix::Scans,
                scan_limit: Some(10),
                ..base
            },
            Task::SustainedIngest => TaskDefinition {
                name: "sustained-ingest",
                warmup_ms: 0,
                measurement_ms: INGEST_MS,
                initial_state: "empty",
                key_selection: "unique-sequential",
                operation_mix: Mix::Puts,
                may_write: true,
                ..base
            },
            Task::TransactionContention => TaskDefinition {
                name: "transaction-contention",
                key_selection: "uniform-hot-set",
                operation_mix: Mix::Transactions,
                transaction_hot_keys: Some(10_000),
                transaction_reads: Some(5),
                transaction_updates: Some(5),
                may_write: true,
                ..base
            },
        }
    }
}

/// Every task that does not prepare the dataset is in the catalog of workloads, once.
pub proof fn catalog_holds_every_workload_once(task: Task)
    ensures
        !task.prepares() <==> workload_catalog().contains(task),
        workload_catalog().no_duplicates(),
{
    let c = workload_catalog();
    assert(c[0] == Task::Idle && c[1] == Task::PointReadUniform && c[2] == Task::PointReadSkewed
        && c[3] == Task::PointReadMissing && c[4] == Task::ReadHeavy && c[5] == Task::Balanced
        && c[6] == Task::UpdateHeavy && c[7] == Task::RangeScan && c[8] == Task::SustainedIngest
        && c[9] == Task::TransactionContention);
}

/// Every task has its own name.
pub proof fn labels_are_distinct(a: Task, b: Task)
    requires
        a.label() == b.label(),
    ensures
        a == b,
{
    reveal_strlit("bulk-load");
    reveal_strlit("compaction");
    reveal_strlit("idle");
    reveal_strlit("point-read-uniform");
    reveal_strlit("point-read-skewed");
    reveal_strlit("point-read-missing");
    reveal_strlit("read-heavy");
    reveal_strlit("balanced");
    reveal_strlit("update-heavy");
    reveal_strlit("range-scan");
    reveal_strlit("sustained-ingest");
    reveal_strlit("transaction-contention");
    let x = a.label();
    let y = b.label();
    assert(x.len() == y.len());
    assert(x[0] == y[0]);
    assert(x[1] == y[1]);
    if x.len() > 12 {
        assert(x[11] == y[11]);
        assert(x[12] == y[12]);
    }
}

/// Shape and logical size of records used by a benchmark task.
#[derive(Debug, Clone, Copy, PartialEq, Eq, Structural)]
pub struct DatasetConfig {
    /// Number of records in the key-selection domain.
    pub record_count: u64,
    /// Encoded key size in bytes.
    pub key_bytes: usize,
    /// Generated value size in bytes.
    pub value_bytes: usize,
    /// Bit pattern of the target ratio of uncompressed to compressed value bytes.
    pub value_compression_ratio: u64,
}

impl DatasetConfig {
    /// The bytes of one record.
    pub open spec fn record_bytes(self) -> u64 {
        if self.key_bytes + self.value_bytes > usize::MAX {
            usize::MAX as u64
        } else {
            (self.key_bytes + self.value_bytes) as u64
        }
    }

    /// Returns the total logical bytes represented by the configured records.
    pub fn logical_bytes(&self) -> (r: u64)
        ensures
            r == count::capped_product(self.record_count, self.record_bytes()),
    {
        let record: usize = self.key_bytes.saturating_add(self.value_bytes);
        times(self.record_count, record as u64)
    }
}

/// In-memory cache capacities used by the benchmark runner.
#[derive(Debug, Clone, Copy, PartialEq, Eq, Structural)]
pub struct CacheConfig {
    /// Block-cache capacity in bytes.
    pub block_bytes: u64,
    /// Metadata-cache capacity in bytes.
    pub metadata_bytes: u64,
}

/// Runtime shape of one preparation phase or workload.
pub struct TaskConfig {
    /// Catalog task represented by this configuration.
    pub task: Task,
    /// Number of concurrent closed-loop clients.
    pub clients: usize,
    /// Warmup duration in milliseconds.
    pub warmup_ms: u64,
    /// Measured client duration in milliseconds.
    pub measurement_ms: u64,
    /// Initial database state: `empty`, `golden`, or `none`.
    pub initial_state: String,
    /// Key-selection strategy used by workload operations.
    pub key_selection: String,
    /// Operation name to bit pattern of its probability; active workloads sum to one.
    pub operation_mix: Named<u64>,
    /// Maximum number of records returned by each scan.
    pub scan_limit: Option<usize>,
    /// Number of keys in the transaction contention hot set.
    pub transaction_hot_keys: Option<u64>,
    /// Reads performed by each transaction attempt.
    pub transaction_reads: Option<usize>,
    /// Updates performed by each transaction attempt.
    pub transaction_updates: Option<usize>,
}

/// Why a task configuration is refused.
#[derive(Debug, Clone, Copy, PartialEq, Eq, Structural)]
pub enum TaskConfigError {
    UnknownKeySelection,
    MixDisagreesWithActivity,
    KeySelectionDisagreesWithActivity,
    UnknownOperation,
    InvalidFraction,
    MixDoesNotSumToOne,
    WritesDisagreeWithTask,
    MissingHotKeys,
    MissingReads,
    MissingUpdates,
    NoHotKeys,
    OperationCountOverflows,
    NoTransactionOperations,
    TooManyTransactionOperations,
    NoTransactionUpdates,
    TransactionOutsideHotSet,
    StrayTransactionSettings,
    NoScanLimit,
    StrayScanLimit,
}

/// Whether a key-selection strategy is known.
pub open spec fn known_selection(name: Seq<char>) -> bool {
    name == "none"@ || name == "uniform"@ || name == "scrambled-zipfian-0.99"@ || name
        == "uniform-absent"@ || name == "unique-sequential"@ || name == "uniform-hot-set"@
}

/// Whether an operation is known.
pub open spec fn known_operation(name: Seq<char>) -> bool {
    name == "get"@ || name == "put"@ || name == "scan"@ || name == "transaction"@
}

/// What is wrong with one operation of a mix.
pub open spec fn operation_fault(name: Seq<char>, fraction: u64) -> Option<TaskConfigError> {
    if !known_operation(name) {
        Some(TaskConfigError::UnknownOperation)
    } else if !(bits::is_finite(fraction) && bits::rank(fraction) > 0) {
        Some(TaskConfigError::InvalidFraction)
    } else {
        None
    }
}

/// What is wrong with the first faulty operation of a mix, from position `i` on.
pub open spec fn mix_fault(
    names: Seq<Seq<char>>,
    fractions: Seq<u64>,
    i: int,
) -> Option<TaskConfigError>
    decreases names.len() - i,
{
    if i < 0 || i >= names.len() {
        None
    } else {
        match operation_fault(names[i], fractions[i]) {
            Some(fault) => Some(fault),
            None => mix_fault(names, fractions, i + 1),
        }
    }
}

impl TaskConfig {
    /// The operation names are in order and none occurs twice.
    pub open spec fn wf(&self) -> bool {
        self.operation_mix.wf()
    }

    /// Whether the task runs clients.
    pub open spec fn active(&self) -> bool {
        !self.task.prepares() && self.task != Task::Idle
    }

    /// Whether an operation is part of the mix.
    pub open spec fn mixes(&self, operation: Seq<char>) -> bool {
        self.operation_mix.map().dom().contains(operation)
    }

    /// What is wrong with the transaction settings.
    pub open spec fn transaction_fault(&self) -> Option<TaskConfigError> {
        if self.mixes("transaction"@) {
            if self.transaction_hot_keys is None {
                Some(TaskConfigError::MissingHotKeys)
            } else if self.transaction_reads is None {
                Some(TaskConfigError::MissingReads)
            } else if self.transaction_updates is None {
                Some(TaskConfigError::MissingUpdates)
            } else {
                let reads = self.transaction_reads->0;
                let updates = self.transaction_updates->0;
                if self.transaction_hot_keys->0 == 0 {
                    Some(TaskConfigError::NoHotKeys)
                } else if reads + updates > usize::MAX {
                    Some(TaskConfigError::OperationCountOverflows)
                } else if reads + updates == 0 {
                    Some(TaskConfigError::NoTransactionOperations)
                } else if reads + updates > 10_000 {
                    Some(TaskConfigError::TooManyTransactionOperations)
                } else if updates == 0 {
                    Some(TaskConfigError::NoTransactionUpdates)
                } else if self.key_selection@ != "uniform-hot-set"@ {
                    Some(TaskConfigError::TransactionOutsideHotSet)
                } else {
                    None
                }
            }
        } else if self.transaction_hot_keys is Some || self.transaction_reads is Some
            || self.transaction_updates is Some {
            Some(TaskConfigError::StrayTransactionSettings)
        } else {
            None
        }
    }

    /// What is wrong with the scan limit.
    pub open spec fn scan_fault(&self) -> Option<TaskConfigError> {
        if self.mixes("scan"@) {
            if self.scan_limit is Some && self.scan_limit->0 > 0 {
                None
            } else {
                Some(TaskConfigError::NoScanLimit)
            }
        } else if self.scan_limit is Some {
            Some(TaskConfigError::StrayScanLimit)
        } else {
            None
        }
    }

    /// The first thing wrong with the configuration, given whether the shares of the mix sum to
    /// one.
    pub open spec fn fault(&self, whole: bool) -> Option<TaskConfigError> {
        if !known_selection(self.key_selection@) {
            Some(TaskConfigError::UnknownKeySelection)
        } else if self.active() == (self.operation_mix.names().len() == 0) {
            Some(TaskConfigError::MixDisagreesWithActivity)
        } else if self.active() == (self.key_selection@ == "none"@) {
            Some(TaskConfigError::KeySelectionDisagreesWithActivity)
        } else if mix_fault(self.operation_mix.names(), self.operation_mix.values(), 0) is Some {
            mix_fault(self.operation_mix.names(), self.operation_mix.values(), 0)
        } else if self.active() && !whole {
            Some(TaskConfigError::MixDoesNotSumToOne)
        } else if self.active() && (self.mixes("put"@) || self.mixes("transaction"@))
            != self.task.writes() {
            Some(TaskConfigError::WritesDisagreeWithTask)
        } else if self.transaction_fault() is Some {
            self.transaction_fault()
        } else {
            self.scan_fault()
        }
    }

    /// Checks catalog invariants before a task is executed or published, given whether the shares
    /// of the operation mix sum to one.
    pub fn validate(&self, whole: bool) -> (r: Result<(), TaskConfigError>)
        requires
            self.wf(),
        ensures
            r == (match self.fault(whole) {
                Some(fault) => Err(fault),
                None => Ok(()),
            }),
    {
        let active = !self.task.is_preparation() && self.task != Task::Idle;
        let selection = self.key_selection.as_str();
        let known = same_text(selection, "none") || same_text(selection, "uniform") || same_text(
            selection,
            "scrambled-zipfian-0.99",
        ) || same_text(selection, "uniform-absent") || same_text(selection, "unique-sequential")
            || same_text(selection, "uniform-hot-set");
        if !known {
            return Err(TaskConfigError::UnknownKeySelection);
        }
        if active == (self.operation_mix.len() == 0) {
            return Err(TaskConfigError::MixDisagreesWithActivity);
        }
        if active == same_text(selection, "none") {
            return Err(TaskConfigError::KeySelectionDisagreesWithActivity);
        }
        let ghost names = self.operation_mix.names();
        let ghost fractions = self.operation_mix.values();
        let mut i: usize = 0;
        while i < self.operation_mix.len()
            invariant
                self.wf(),
                names == self.operation_mix.names(),
                fractions == self.operation_mix.values(),
                i <= names.len(),
                mix_fault(names, fractions, 0) == mix_fault(names, fractions, i as int),
                known_selection(self.key_selection@),
                self.active() != (names.len() == 0),
                self.active() != (self.key_selection@ == "none"@),
            decreases names.len() - i,
        {
            let operation = self.operation_mix.name_at(i).as_str();
            let fraction: u64 = *self.operation_mix.value_at(i);
            if !(same_text(operation, "get") || same_text(operation, "put") || same_text(
                operation,
                "scan",
            ) || same_text(operation, "transaction")) {
                return Err(TaskConfigError::UnknownOperation);
            }
            if !(bits::finite(fraction) && fraction > 0 && fraction < bits::SIGN) {
                return Err(TaskConfigError::InvalidFraction);
            }
            i += 1;
        }
        let puts = self.operation_mix.get("put").is_some();
        let transactions = self.operation_mix.get("transaction").is_some();
        if active {
            if !whole {
                return Err(TaskConfigError::MixDoesNotSumToOne);
            }
            if (puts || transactions) != self.task.may_write() {
                return Err(TaskConfigError::WritesDisagreeWithTask);
            }
        }
        self.validate_transactions(transactions)?;
        if self.operation_mix.get("scan").is_some() {
            match self.scan_limit {
                Some(limit) if limit > 0 => Ok(()),
                _ => Err(TaskConfigError::NoScanLimit),
            }
        } else if self.scan_limit.is_some() {
            Err(TaskConfigError::StrayScanLimit)
        } else {
            Ok(())
        }
    }

    fn validate_transactions(&self, transactions: bool) -> (r: Result<(), TaskConfigError>)
        requires
            transactions == self.mixes("transaction"@),
        ensures
            r == (match self.transaction_fault() {
                Some(fault) => Err(fault),
                None => Ok(()),
            }),
    {
        if !transactions {
            if self.transaction_hot_keys.is_some() || self.transaction_reads.is_some()
                || self.transaction_updates.is_some() {
                return Err(TaskConfigError::StrayTransactionSettings);
            }
            return Ok(());
        }
        let hot_keys: u64 = match self.transaction_hot_keys {
            Some(n) => n,
            None => {
                return Err(TaskConfigError::MissingHotKeys);
            },
        };
        let reads: usize = match self.transaction_reads {
            Some(n) => n,
            None => {
                return Err(TaskConfigError::MissingReads);
            },
        };
        let updates: usize = match self.transaction_updates {
            Some(n) => n,
            None => {
                return Err(TaskConfigError::MissingUpdates);
            },
        };
        if hot_keys == 0 {
            return Err(TaskConfigError::NoHotKeys);
        }
        let operations: usize = match reads.checked_add(updates) {
            Some(n) => n,
            None => {
                return Err(TaskConfigError::OperationCountOverflows);
            },
        };
        if operations == 0 {
            return Err(TaskConfigError::NoTransactionOperations);
        }
        if operations > 10_000 {
            return Err(TaskConfigError::TooManyTransactionOperations);
        }
        if updates == 0 {
            return Err(TaskConfigError::NoTransactionUpdates);
        }
        if !same_text(self.key_selection.as_str(), "uniform-hot-set") {
            return Err(TaskConfigError::TransactionOutsideHotSet);
        }
        Ok(())
    }
}

/// A catalog value scaled down: the rounded product, within the minimum and the value.
pub open spec fn scaled(value: u64, minimum: u64, product: u64) -> u64 {
    if value == 0 {
        0
    } else {
        count::smaller(count::larger(product, count::smaller(minimum, value)), value)
    }
}

/// Scales a catalog value down, given its rounded product with the scale factor.
pub fn scaled_u64(value: u64, minimum: u64, product: u64) -> (r: u64)
    ensures
        r == scaled(value, minimum, product),
{
    if value == 0 {
        return 0;
    }
    min_of(max_of(product, min_of(minimum, value)), value)
}

/// A scaled value is never above the catalog value, and only below the minimum where the catalog
/// value is.
pub proof fn scaling_stays_in_range(value: u64, minimum: u64, product: u64)
    ensures
        scaled(value, minimum, product) <= value,
        scaled(value, minimum, product) >= count::smaller(minimum, value),
        value > 0 && minimum > 0 ==> scaled(value, minimum, product) > 0,
{
}

/// Of two rounded products of a value, the larger does not scale to a smaller value; both scaled
/// values lie between the minimum and the value, and a product that is the value keeps it.
pub proof fn scaled_values_follow_their_products(value: u64, minimum: u64, a: u64, b: u64)
    requires
        a <= b,
    ensures
        count::smaller(minimum, value) <= scaled(value, minimum, a) <= scaled(value, minimum, b)
            <= value,
        scaled(value, minimum, value) == value,
{
}

/// Rounded products of catalog values with the scale factor.
#[derive(Debug, Clone, Copy, PartialEq, Eq, Structural)]
pub struct ScaledProducts {
    pub record_count: u64,
    pub block_bytes: u64,
    pub metadata_bytes: u64,
    pub warmup_ms: u64,
    pub measurement_ms: u64,
}

/// Whether an operation mix is the catalog's.
pub open spec fn mix_of(mix: Mix, map: Map<Seq<char>, u64>) -> bool {
    match mix {
        Mix::Nothing => map == Map::<Seq<char>, u64>::empty(),
        Mix::Gets => map == Map::<Seq<char>, u64>::empty().insert("get"@, ONE),
        Mix::GetsAndPuts(gets, puts) => map == Map::<Seq<char>, u64>::empty().insert(
            "get"@,
            gets,
        ).insert("put"@, puts),
        Mix::Scans => map == Map::<Seq<char>, u64>::empty().insert("scan"@, ONE),
        Mix::Puts => map == Map::<Seq<char>, u64>::empty().insert("put"@, ONE),
        Mix::Transactions => map == Map::<Seq<char>, u64>::empty().insert("transaction"@, ONE),
    }
}

/// Whether a configuration is that of a catalog task at a scale.
pub open spec fn configures(
    config: TaskConfig,
    task: Task,
    products: ScaledProducts,
    record_count: u64,
) -> bool {
    &&& config.wf()
    &&& config.task == task
    &&& config.clients == task.client_count()
    &&& config.warmup_ms == scaled(task.full_warmup_ms(), MIN_DURATION_MS, products.warmup_ms)
    &&& config.measurement_ms == scaled(
        task.full_measurement_ms(),
        MIN_DURATION_MS,
        products.measurement_ms,
    )
    &&& config.initial_state@ == task.start()
    &&& config.key_selection@ == task.keys()
    &&& mix_of(task.mix(), config.operation_mix.map())
    &&& config.scan_limit == (if task == Task::RangeScan {
        Some(10usize)
    } else {
        None
    })
    &&& config.transaction_hot_keys == (if task == Task::TransactionContention {
        Some(count::smaller(10_000, record_count))
    } else {
        None
    })
    &&& config.transaction_reads == (if task == Task::TransactionContention {
        Some(5usize)
    } else {
        None
    })
    &&& config.transaction_updates == (if task == Task::TransactionContention {
        Some(5usize)
    } else {
        None
    })
}

/// Builds the operation mix of a task.
fn operation_mix(mix: Mix) -> (r: Named<u64>)
    ensures
        r.wf(),
        mix_of(mix, r.map()),
{
    let mut r: Named<u64> = Named::new();
    match mix {
        Mix::Nothing => {},
        Mix::Gets => r.put("get".to_string(), ONE),
        Mix::GetsAndPuts(gets, puts) => {
            r.put("get".to_string(), gets);
            r.put("put".to_string(), puts);
        },
        Mix::Scans => r.put("scan".to_string(), ONE),
        Mix::Puts => r.put("put".to_string(), ONE),
        Mix::Transactions => r.put("transaction".to_string(), ONE),
    }
    r
}

/// Builds the configuration of a catalog task at a scale.
pub fn task_config(task: Task, products: &ScaledProducts, record_count: u64) -> (r: TaskConfig)
    ensures
        configures(r, task, *products, record_count),
{
    let definition = task.definition();
    TaskConfig {
        task,
        clients: definition.clients,
        warmup_ms: scaled_u64(definition.warmup_ms, MIN_DURATION_MS, products.warmup_ms),
        measurement_ms: scaled_u64(
            definition.measurement_ms,
            MIN_DURATION_MS,
            products.measurement_ms,
        ),
        initial_state: definition.initial_state.to_string(),
        key_selection: definition.key_selection.to_string(),
        operation_mix: operation_mix(definition.operation_mix),
        scan_limit: definition.scan_limit,
        transaction_hot_keys: match definition.transaction_hot_keys {
            Some(hot_keys) => Some(min_of(hot_keys, record_count)),
            None => None,
        },
        transaction_reads: definition.transaction_reads,
        transaction_updates: definition.transaction_updates,
    }
}

proof fn sound_mix_has_no_fault(names: Seq<Seq<char>>, fractions: Seq<u64>, i: int)
    requires
        0 <= i <= names.len(),
        forall|k: int|
            0 <= k < names.len() ==> operation_fault(#[trigger] names[k], fractions[k]) is None,
    ensures
        mix_fault(names, fractions, i) is None,
    decreases names.len() - i,
{
    if i < names.len() {
        sound_mix_has_no_fault(names, fractions, i + 1);
    }
}

/// Every configuration of the catalog passes its own checks, at every scale that keeps a record.
pub proof fn catalog_configurations_are_valid(
    config: TaskConfig,
    task: Task,
    products: ScaledProducts,
    record_count: u64,
)
    requires
        configures(config, task, products, record_count),
        record_count > 0,
    ensures
        config.fault(true) is None,
{
    reveal_strlit("get");
    reveal_strlit("put");
    reveal_strlit("scan");
    reveal_strlit("transaction");
    reveal_strlit("none");
    reveal_strlit("uniform");
    reveal_strlit("scrambled-zipfian-0.99");
    reveal_strlit("uniform-absent");
    reveal_strlit("unique-sequential");
    reveal_strlit("uniform-hot-set");
    assert("get"@[0] == 'g' && "put"@[0] == 'p');
    assert("get"@.len() == 3 && "put"@.len() == 3 && "scan"@.len() == 4 && "transaction"@.len()
        == 11);
    let map = config.operation_mix.map();
    let names = config.operation_mix.names();
    let values = config.operation_mix.values();
    assert forall|k: int| 0 <= k < names.len() implies operation_fault(
        #[trigger] names[k],
        values[k],
    ) is None by {
        config.operation_mix.entry(k);
        assert(map.dom().contains(names[k]));
    }
    sound_mix_has_no_fault(names, values, 0);
    if names.len() == 0 {
        assert(map =~= Map::<Seq<char>, u64>::empty());
    } else {
        config.operation_mix.entry(0);
        assert(map.dom().contains(names[0]));
    }
    assert(map.dom().contains("get"@) == (task.mix() is Gets || task.mix() is GetsAndPuts));
    assert(map.dom().contains("put"@) == (task.mix() is Puts || task.mix() is GetsAndPuts));
    assert(map.dom().contains("scan"@) == (task.mix() is Scans));
    assert(map.dom().contains("transaction"@) == (task.mix() is Transactions));
    assert("uniform-hot-set"@.len() != "none"@.len());
}

/// Scale shortens what a task does, and leaves everything else as it is at full scale: a duration
/// is no longer than the full one, stays out where that is, and is never too short to measure.
pub proof fn scale_changes_durations_only(
    task: Task,
    scaled_down: TaskConfig,
    products: ScaledProducts,
    full: TaskConfig,
    full_products: ScaledProducts,
    record_count: u64,
)
    requires
        record_count > 0,
        configures(scaled_down, task, products, record_count),
        configures(full, task, full_products, record_count),
        full_products.warmup_ms == task.full_warmup_ms(),
        full_products.measurement_ms == task.full_measurement_ms(),
    ensures
        scaled_down.task == full.task,
        scaled_down.clients == full.clients,
        scaled_down.initial_state@ == full.initial_state@,
        scaled_down.key_selection@ == full.key_selection@,
        scaled_down.operation_mix.map() == full.operation_mix.map(),
        scaled_down.scan_limit == full.scan_limit,
        scaled_down.transaction_hot_keys == full.transaction_hot_keys,
        scaled_down.transaction_reads == full.transaction_reads,
        scaled_down.transaction_updates == full.transaction_updates,
        full.warmup_ms == task.full_warmup_ms(),
        full.measurement_ms == task.full_measurement_ms(),
        scaled_down.warmup_ms <= full.warmup_ms,
        scaled_down.measurement_ms <= full.measurement_ms,
        scaled_down.warmup_ms == 0 <==> full.warmup_ms == 0,
        scaled_down.measurement_ms == 0 <==> full.measurement_ms == 0,
        scaled_down.warmup_ms > 0 ==> scaled_down.warmup_ms >= MIN_DURATION_MS,
        scaled_down.measurement_ms > 0 ==> scaled_down.measurement_ms >= MIN_DURATION_MS,
        scaled_down.fault(true) is None,
{
    catalog_configurations_are_valid(scaled_down, task, products, record_count);
}

/// Fully resolved settings used to execute one task.
pub struct ResolvedConfig {
    /// Bit pattern of the scale factor applied to the catalog defaults.
    pub scale: u64,
    /// Resolved dataset shape.
    pub dataset: DatasetConfig,
    /// Resolved benchmark cache capacities.
    pub caches: CacheConfig,
    /// Resolved task behavior.
    pub task: TaskConfig,
    /// Effective SlateDB settings in serialized form.
    pub slate_settings: String,
    /// SlateDB defaults in serialized form.
    pub slate_default_settings: String,
    /// Rust build profile, normally `debug` or `release`.
    pub build_profile: String,
    /// SlateDB Cargo features enabled in this runner build.
    pub enabled_features: Vec<String>,
}

/// Where the settings of a task come from.
#[derive(Debug, Clone, Copy, PartialEq, Eq, Structural)]
pub enum SettingsSource {
    /// The file of the workload, a complete replacement for the shared file.
    Workload,
    /// The file that all tasks share.
    Shared,
    /// SlateDB's defaults.
    Defaults,
}

/// The name of the settings file of one workload.
pub open spec fn workload_settings_file(task: Task) -> Seq<char> {
    "settings."@ + task.label() + ".toml"@
}

/// Returns the name of the settings file of one workload.
pub fn workload_settings_name(task: Task) -> (r: String)
    ensures
        r@ == workload_settings_file(task),
{
    let mut name: String = "settings.".to_string();
    name.append(task.as_str());
    name.append(".toml");
    name
}

/// Selects the settings of a task, given which files exist.
///
/// A preparation phase has no file of its own.
pub fn settings_path_for_task(task: Task, workload_exists: bool, shared_exists: bool) -> (r:
    SettingsSource)
    ensures
        r == (if !task.prepares() && workload_exists {
            SettingsSource::Workload
        } else if shared_exists {
            SettingsSource::Shared
        } else {
            SettingsSource::Defaults
        }),
{
    if !task.is_preparation() && workload_exists {
        SettingsSource::Workload
    } else if shared_exists {
        SettingsSource::Shared
    } else {
        SettingsSource::Defaults
    }
}

/// Resolves catalog defaults and scale for one task.
///
/// The caller supplies the rounded products with the scale factor, whether the shares of the
/// operation mix sum to one, and the serialized SlateDB settings.
pub fn load(
    task: Task,
    scale: BenchmarkScale,
    products: &ScaledProducts,
    whole: bool,
    slate_settings: String,
    slate_default_settings: String,
    build_profile: String,
    features: &str,
) -> (r: Result<ResolvedConfig, TaskConfigError>)
    ensures
        whole ==> r is Ok,
        !whole && task.client_count() == 0 ==> r is Ok,
        !whole && task.client_count() > 0 ==> r == Err::<ResolvedConfig, TaskConfigError>(
            TaskConfigError::MixDoesNotSumToOne,
        ),
        r matches Ok(config) ==> {
            &&& config.scale == scale.number()
            &&& config.dataset == (DatasetConfig {
                record_count: scaled(RECORD_COUNT, 1, products.record_count),
                key_bytes: KEY_BYTES,
                value_bytes: VALUE_BYTES,
                value_compression_ratio: ONE,
            })
            &&& config.caches == (CacheConfig {
                block_bytes: scaled(
                    BLOCK_CACHE_BYTES,
                    MIN_BLOCK_CACHE_BYTES,
                    products.block_bytes,
                ),
                metadata_bytes: scaled(
                    METADATA_CACHE_BYTES,
                    MIN_METADATA_CACHE_BYTES,
                    products.metadata_bytes,
                ),
            })
            &&& configures(config.task, task, *products, config.dataset.record_count)
            &&& config.slate_settings == slate_settings
            &&& config.slate_default_settings == slate_default_settings
            &&& config.build_profile == build_profile
            &&& crate::text::texts(config.enabled_features@) == crate::text::non_empty(
                crate::text::pieces(features@, ','),
            )
        },
{
    let dataset = DatasetConfig {
        record_count: scaled_u64(RECORD_COUNT, 1, products.record_count),
        key_bytes: KEY_BYTES,
        value_bytes: VALUE_BYTES,
        value_compression_ratio: ONE,
    };
    let caches = CacheConfig {
        block_bytes: scaled_u64(BLOCK_CACHE_BYTES, MIN_BLOCK_CACHE_BYTES, products.block_bytes),
        metadata_bytes: scaled_u64(
            METADATA_CACHE_BYTES,
            MIN_METADATA_CACHE_BYTES,
            products.metadata_bytes,
        ),
    };
    let config = task_config(task, products, dataset.record_count);
    proof {
        catalog_configurations_are_valid(config, task, *products, dataset.record_count);
    }
    match config.validate(whole) {
        Ok(()) => {},
        Err(fault) => {
            return Err(fault);
        },
    }
    Ok(
        ResolvedConfig {
            scale: scale.factor(),
            dataset,
            caches,
            task: config,
            slate_settings,
            slate_default_settings,
            build_profile,
            enabled_features: split_non_empty(features, ','),
        },
    )
}

/// The catalog of workloads: what each is called, where it starts, how it selects keys, and for how
/// long it runs at full scale.
pub proof fn the_catalog_is_as_published(task: Task)
    ensures
        Task::BulkLoad.label() == "bulk-load"@,
        Task::Compaction.label() == "compaction"@,
        Task::Idle.label() == "idle"@,
        Task::PointReadUniform.label() == "point-read-uniform"@,
        Task::PointReadSkewed.label() == "point-read-skewed"@,
        Task::PointReadMissing.label() == "point-read-missing"@,
        Task::ReadHeavy.label() == "read-heavy"@,
        Task::Balanced.label() == "balanced"@,
        Task::UpdateHeavy.label() == "update-heavy"@,
        Task::RangeScan.label() == "range-scan"@,
        Task::SustainedIngest.label() == "sustained-ingest"@,
        Task::TransactionContention.label() == "transaction-contention"@,
        task.start() == (if task == Task::BulkLoad || task == Task::Compaction {
            "none"@
        } else if task == Task::SustainedIngest {
            "empty"@
        } else {
            "golden"@
        }),
        task.keys() == (if task == Task::PointReadUniform || task == Task::RangeScan {
            "uniform"@
        } else if task == Task::PointReadMissing {
            "uniform-absent"@
        } else if task == Task::SustainedIngest {
            "unique-sequential"@
        } else if task == Task::TransactionContention {
            "uniform-hot-set"@
        } else if task == Task::BulkLoad || task == Task::Compaction || task == Task::Idle {
            "none"@
        } else {
            "scrambled-zipfian-0.99"@
        }),
        task.client_count() == (if task == Task::BulkLoad || task == Task::Compaction || task
            == Task::Idle {
            0usize
        } else {
            64usize
        }),
        task.full_warmup_ms() == (if task == Task::BulkLoad || task == Task::Compaction || task
            == Task::Idle || task == Task::SustainedIngest {
            0u64
        } else {
            300_000u64
        }),
        task.full_measurement_ms() == (if task == Task::BulkLoad || task == Task::Compaction {
            0u64
        } else if task == Task::Idle {
            300_000u64
        } else if task == Task::SustainedIngest {
            1_200_000u64
        } else {
            900_000u64
        }),
        task.writes() <==> (task == Task::BulkLoad || task == Task::ReadHeavy || task
            == Task::Balanced || task == Task::UpdateHeavy || task == Task::SustainedIngest || task
            == Task::TransactionContention),
        task.golden() <==> (task != Task::BulkLoad && task != Task::Compaction && task
            != Task::SustainedIngest),
        task.prepares() <==> (task == Task::BulkLoad || task == Task::Compaction),
{
}

/// The mix of a workload's configuration is the published one: gets alone, gets and puts of 95 to
/// 5, of half each or of 5 to 95 in a hundred, scans, puts or transactions alone, or nothing.
pub proof fn mixes_are_as_published(
    config: TaskConfig,
    task: Task,
    products: ScaledProducts,
    record_count: u64,
    name: Seq<char>,
)
    requires
        configures(config, task, products, record_count),
    ensures
        ({
            let mix = config.operation_mix.map();
            let reads = task == Task::PointReadUniform || task == Task::PointReadSkewed || task
                == Task::PointReadMissing;
            let mixed = task == Task::ReadHeavy || task == Task::Balanced || task
                == Task::UpdateHeavy;
            &&& mix.dom().contains(name) <==> {
                ||| name == "get"@ && (reads || mixed)
                ||| name == "put"@ && (mixed || task == Task::SustainedIngest)
                ||| name == "scan"@ && task == Task::RangeScan
                ||| name == "transaction"@ && task == Task::TransactionContention
            }
            &&& reads ==> mix["get"@] == 0x3ff0_0000_0000_0000
            &&& task == Task::ReadHeavy ==> mix["get"@] == 0x3fee_6666_6666_6666 && mix["put"@]
                == 0x3fa9_9999_9999_999a
            &&& task == Task::Balanced ==> mix["get"@] == 0x3fe0_0000_0000_0000 && mix["put"@]
                == 0x3fe0_0000_0000_0000
            &&& task == Task::UpdateHeavy ==> mix["get"@] == 0x3fa9_9999_9999_999a && mix["put"@]
                == 0x3fee_6666_6666_6666
        }),
        config.scan_limit == (if task == Task::RangeScan {
            Some(10usize)
        } else {
            None
        }),
        task == Task::TransactionContention ==> {
            &&& config.transaction_reads == Some(5usize)
            &&& config.transaction_updates == Some(5usize)
            &&& record_count >= 10_000 ==> config.transaction_hot_keys == Some(10_000u64)
            &&& record_count < 10_000 ==> config.transaction_hot_keys == Some(record_count)
        },
        task != Task::TransactionContention ==> config.transaction_reads is None
            && config.transaction_updates is None && config.transaction_hot_keys is None,
{
    reveal_strlit("get");
    reveal_strlit("put");
    assert("get"@[0] == 'g' && "put"@[0] == 'p');
}

/// A scaled value is its product where that lies between the least value and the full one, and the
/// nearer of the two where it does not; a full value that is smaller than the least stays as it is.
pub proof fn scaled_values_are_their_products(value: u64, minimum: u64, product: u64)
    ensures
        minimum <= product <= value ==> scaled(value, minimum, product) == product,
        product > value && value > 0 ==> scaled(value, minimum, product) == value,
        product < minimum <= value ==> scaled(value, minimum, product) == minimum,
        value < minimum ==> scaled(value, minimum, product) == value,
        value == 0 ==> scaled(value, minimum, product) == 0,
{
}

/// A configuration is accepted only where its keys and operations are known, it has operations
/// exactly where its task has clients, its fractions are positive and sum to one, it writes exactly
/// where its task does, and its transactions and scans have their settings.
pub proof fn accepted_configurations_are_consistent(config: TaskConfig, whole: bool, i: int)
    requires
        config.fault(whole) is None,
    ensures
        ({
            let active = config.task != Task::BulkLoad && config.task != Task::Compaction
                && config.task != Task::Idle;
            let mix = config.operation_mix.map().dom();
            let selection = config.key_selection@;
            &&& selection == "none"@ || selection == "uniform"@ || selection
                == "scrambled-zipfian-0.99"@ || selection == "uniform-absent"@ || selection
                == "unique-sequential"@ || selection == "uniform-hot-set"@
            &&& active <==> config.operation_mix.names().len() > 0
            &&& active <==> selection != "none"@
            &&& active ==> whole
            &&& 0 <= i < config.operation_mix.names().len() ==> {
                let name = config.operation_mix.names()[i];
                let fraction = config.operation_mix.values()[i];
                &&& name == "get"@ || name == "put"@ || name == "scan"@ || name == "transaction"@
                &&& bits::is_finite(fraction) && bits::rank(fraction) > 0
            }
            &&& active ==> ((mix.contains("put"@) || mix.contains("transaction"@))
                <==> config.task.writes())
            &&& mix.contains("transaction"@) ==> {
                &&& config.transaction_hot_keys is Some && config.transaction_hot_keys->0 > 0
                &&& config.transaction_reads is Some
                &&& config.transaction_updates is Some && config.transaction_updates->0 > 0
                &&& config.transaction_reads->0 + config.transaction_updates->0 <= 10_000
                &&& selection == "uniform-hot-set"@
            }
            &&& !mix.contains("transaction"@) ==> config.transaction_hot_keys is None
                && config.transaction_reads is None && config.transaction_updates is None
            &&& mix.contains("scan"@) ==> config.scan_limit is Some && config.scan_limit->0 > 0
            &&& !mix.contains("scan"@) ==> config.scan_limit is None
        }),
{
    let names = config.operation_mix.names();
    let fractions = config.operation_mix.values();
    if 0 <= i < names.len() {
        no_fault_before(names, fractions, 0, i);
    }
}

proof fn no_fault_before(names: Seq<Seq<char>>, fractions: Seq<u64>, from: int, i: int)
    requires
        0 <= from <= i < names.len(),
        mix_fault(names, fractions, from) is None,
    ensures
        operation_fault(names[i], fractions[i]) is None,
    decreases i - from,
{
    if from < i {
        no_fault_before(names, fractions, from + 1, i);
    }
}

/// The bytes of a record are those of its key and its value.
pub proof fn records_add_up(dataset: DatasetConfig)
    requires
        dataset.key_bytes + dataset.value_bytes <= usize::MAX,
    ensures
        dataset.record_bytes() == dataset.key_bytes + dataset.value_bytes,
{
}

} // verus!
