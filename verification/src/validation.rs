//! Semantic validation of artifacts.
//!
//! Each check names the first thing that is wrong. Whether a published average agrees with its total
//! and interval is arithmetic on double-precision numbers, so it is handed in.

use crate::bits;
use crate::bits::{no_more_than, plain};
use crate::config::{DatasetConfig, Task};
use crate::count;
use crate::count::{plus, times};
use crate::faults;
use crate::faults::{fault_unless, first_listed};
use crate::model::{
    ApplicationMetrics, CheckpointReference, DistributionSummary, Environment, GoldenDatasetMetadata,
    GoldenManifest, LatencySummary, MachineStatistics, ObjectStoreMetrics, PreparationResult,
    ProcessStatistics, RateSummary, ResultConfiguration, SourceIdentity, ThroughputSummary,
    WorkloadResult,
};
use crate::named::Named;
use crate::text;
use crate::text::{chars_of, same_text};
use crate::workloads::dataset::DATASET_BATCH_RECORDS;
use vstd::prelude::*;

verus! {

/// What is wrong with an artifact.
#[derive(Debug, Clone, Copy, PartialEq, Eq, Structural)]
pub enum Fault {
    StatusNotOk,
    WrongKindOfTask,
    NoGoldenId,
    NoSession,
    InvalidTimestamp,
    MissingSourceField,
    ForeignConfiguration,
    InvalidScale,
    NoRecords,
    NoKeyBytes,
    NoValueBytes,
    NoBlockCache,
    NoMetadataCache,
    SettingsNotATable,
    UnknownBuildProfile,
    DuplicateFeatures,
    NoCpuCores,
    NoRam,
    MissingEnvironmentField,
    EmptyInterval,
    IntervalTooShort,
    MissingDrain,
    UnexpectedDrain,
    NotEmptyAtStart,
    CheckpointAtEmptyStart,
    NotGoldenAtStart,
    NoInitialCheckpoint,
    NoInitialManifest,
    InvalidDigest,
    UnnamedApi,
    NoCalls,
    NoBytes,
    NegativeOrNotFinite,
    NotOrdered,
    ReversedBounds,
    NoLatencyRow,
    InvalidLatencyAverage,
    CountsDiffer,
    AverageDiffers,
    ThroughputWithoutOperations,
    LatencyWithoutOperations,
    UnknownMethod,
    ThroughputWithoutRequests,
    LogicalBytesDiffer,
    NoCheckpointPath,
    NoCheckpointId,
    InvalidCheckpointId,
    NoSstData,
    SstBytesDiffer,
    UnexpectedSourceCheckpoint,
    NoSourceCheckpoint,
    ReusedCheckpoint,
    DatasetDiffers,
    OperationRowsDiffer,
    LatencyRowsDiffer,
    ThroughputRowsDiffer,
    WriteCountDiffers,
    FlushCountDiffers,
    WriteBytesDiffer,
    UnexpectedCalls,
    DurableCountDiffers,
    TransactionCountsDiffer,
    DurableCountExceedsCommits,
}

/// Whether a text is a timestamp after RFC 3339.
pub uninterp spec fn is_rfc3339(text: Seq<char>) -> bool;

/// `chrono::DateTime::parse_from_rfc3339`: whether it accepts a text.
#[verifier::external_body]
pub(crate) fn parses_as_rfc3339(text: &str) -> (r: bool)
    ensures
        r == is_rfc3339(text@),
{
    chrono::DateTime::parse_from_rfc3339(text).is_ok()
}

/// Whether a text is a UUID in one of its written forms.
pub uninterp spec fn is_uuid(text: Seq<char>) -> bool;

/// `uuid::Uuid::parse_str`: whether it accepts a text.
#[verifier::external_body]
pub(crate) fn parses_as_uuid(text: &str) -> (r: bool)
    ensures
        r == is_uuid(text@),
{
    uuid::Uuid::parse_str(text).is_ok()
}

/// Whether a character is a digit or a lowercase letter of base sixteen.
pub open spec fn is_lower_hex(c: char) -> bool {
    ('0' <= c && c <= '9') || ('a' <= c && c <= 'f')
}

/// Whether a text is a SHA-256 digest in lowercase.
pub open spec fn is_digest(text: Seq<char>) -> bool {
    text.len() == 64 && forall|i: int| 0 <= i < text.len() ==> is_lower_hex(#[trigger] text[i])
}

/// Tells whether a text is a SHA-256 digest in lowercase.
pub fn is_sha256(value: &str) -> (r: bool)
    ensures
        r == is_digest(value@),
{
    let chars = chars_of(value);
    if chars.len() != 64 {
        return false;
    }
    let mut i: usize = 0;
    while i < chars.len()
        invariant
            chars@ == value@,
            chars.len() == 64,
            i <= chars.len(),
            forall|k: int| 0 <= k < i ==> is_lower_hex(#[trigger] chars@[k]),
        decreases chars.len() - i,
    {
        let c: char = chars[i];
        if !(('0' <= c && c <= '9') || ('a' <= c && c <= 'f')) {
            return false;
        }
        i += 1;
    }
    true
}

/// Whether all values are finite and not negative.
pub open spec fn all_plain(values: Seq<u64>) -> bool {
    forall|i: int| 0 <= i < values.len() ==> bits::is_plain(#[trigger] values[i])
}

/// Whether no value is more than the next.
pub open spec fn rises(values: Seq<u64>) -> bool {
    forall|i: int|
        0 < i < values.len() ==> bits::at_most(values[i - 1], #[trigger] values[i])
}

/// What is wrong with values that may not be negative.
pub open spec fn nonnegative_fault(values: Seq<u64>) -> Option<Fault> {
    faults::unless(all_plain(values), Fault::NegativeOrNotFinite)
}

/// What is wrong with values that are to rise.
pub open spec fn ordered_fault(values: Seq<u64>) -> Option<Fault> {
    faults::first(nonnegative_fault(values), faults::unless(rises(values), Fault::NotOrdered))
}

fn check_nonnegative(values: &Vec<u64>) -> (r: Option<Fault>)
    ensures
        r == nonnegative_fault(values@),
{
    let mut i: usize = 0;
    while i < values.len()
        invariant
            i <= values.len(),
            forall|k: int| 0 <= k < i ==> bits::is_plain(#[trigger] values@[k]),
        decreases values.len() - i,
    {
        if !plain(values[i]) {
            return Some(Fault::NegativeOrNotFinite);
        }
        i += 1;
    }
    None
}

fn check_ordered(values: &Vec<u64>) -> (r: Option<Fault>)
    ensures
        r == ordered_fault(values@),
{
    if let Some(fault) = check_nonnegative(values) {
        return Some(fault);
    }
    let mut i: usize = 1;
    while i < values.len()
        invariant
            1 <= i,
            nonnegative_fault(values@) is None,
            forall|k: int|
                0 < k < i && k < values.len() ==> bits::at_most(
                    values@[k - 1],
                    #[trigger] values@[k],
                ),
        decreases values.len() - i,
    {
        if !no_more_than(values[i - 1], values[i]) {
            return Some(Fault::NotOrdered);
        }
        i += 1;
    }
    None
}

/// What is wrong with a rate summary.
pub open spec fn rate_fault(s: RateSummary) -> Option<Fault> {
    faults::first(
        faults::unless(s.total > 0, Fault::NoCalls),
        faults::first(
            ordered_fault(seq![s.min_per_second, s.p50_per_second, s.p95_per_second, s.p99_per_second, s.p999_per_second, s.max_per_second]),
            nonnegative_fault(seq![s.avg_per_second, s.p50_per_second, s.p95_per_second, s.p99_per_second, s.p999_per_second, s.min_per_second, s.max_per_second]),
        ),
    )
}

fn check_rate(s: &RateSummary) -> (r: Option<Fault>)
    ensures
        r == rate_fault(*s),
{
    if s.total == 0 {
        return Some(Fault::NoCalls);
    }
    let ordered: Vec<u64> = vec![s.min_per_second, s.p50_per_second, s.p95_per_second, s.p99_per_second, s.p999_per_second, s.max_per_second];
    assert(ordered@ =~= seq![s.min_per_second, s.p50_per_second, s.p95_per_second, s.p99_per_second, s.p999_per_second, s.max_per_second]);
    if let Some(fault) = check_ordered(&ordered) {
        return Some(fault);
    }
    let all: Vec<u64> = vec![s.avg_per_second, s.p50_per_second, s.p95_per_second, s.p99_per_second, s.p999_per_second, s.min_per_second, s.max_per_second];
    assert(all@ =~= seq![s.avg_per_second, s.p50_per_second, s.p95_per_second, s.p99_per_second, s.p999_per_second, s.min_per_second, s.max_per_second]);
    check_nonnegative(&all)
}

/// What is wrong with a throughput summary.
pub open spec fn throughput_fault(s: ThroughputSummary) -> Option<Fault> {
    faults::first(
        faults::unless(s.total_bytes > 0, Fault::NoBytes),
        faults::first(
            ordered_fault(seq![s.min_bytes_per_second, s.p50_bytes_per_second, s.p95_bytes_per_second, s.p99_bytes_per_second, s.p999_bytes_per_second, s.max_bytes_per_second]),
            nonnegative_fault(seq![s.avg_bytes_per_second, s.p50_bytes_per_second, s.p95_bytes_per_second, s.p99_bytes_per_second, s.p999_bytes_per_second, s.min_bytes_per_second, s.max_bytes_per_second]),
        ),
    )
}

fn check_throughput(s: &ThroughputSummary) -> (r: Option<Fault>)
    ensures
        r == throughput_fault(*s),
{
    if s.total_bytes == 0 {
        return Some(Fault::NoBytes);
    }
    let ordered: Vec<u64> = vec![s.min_bytes_per_second, s.p50_bytes_per_second, s.p95_bytes_per_second, s.p99_bytes_per_second, s.p999_bytes_per_second, s.max_bytes_per_second];
    assert(ordered@ =~= seq![s.min_bytes_per_second, s.p50_bytes_per_second, s.p95_bytes_per_second, s.p99_bytes_per_second, s.p999_bytes_per_second, s.max_bytes_per_second]);
    if let Some(fault) = check_ordered(&ordered) {
        return Some(fault);
    }
    let all: Vec<u64> = vec![s.avg_bytes_per_second, s.p50_bytes_per_second, s.p95_bytes_per_second, s.p99_bytes_per_second, s.p999_bytes_per_second, s.min_bytes_per_second, s.max_bytes_per_second];
    assert(all@ =~= seq![s.avg_bytes_per_second, s.p50_bytes_per_second, s.p95_bytes_per_second, s.p99_bytes_per_second, s.p999_bytes_per_second, s.min_bytes_per_second, s.max_bytes_per_second]);
    check_nonnegative(&all)
}

/// What is wrong with a latency summary.
pub open spec fn latency_fault(s: LatencySummary) -> Option<Fault> {
    faults::first(
        faults::unless(s.count > 0, Fault::NoCalls),
        faults::first(
            faults::unless(bits::is_plain(s.avg_ns), Fault::InvalidLatencyAverage),
            faults::first(
                faults::unless(s.min_ns <= s.max_ns, Fault::ReversedBounds),
                faults::unless(
                    s.min_ns <= s.p50_ns && s.p50_ns <= s.p95_ns && s.p95_ns <= s.p99_ns
                        && s.p99_ns <= s.p999_ns && s.p999_ns <= s.max_ns,
                    Fault::NotOrdered,
                ),
            ),
        ),
    )
}

fn check_latency(s: &LatencySummary) -> (r: Option<Fault>)
    ensures
        r == latency_fault(*s),
{
    if s.count == 0 {
        Some(Fault::NoCalls)
    } else if !plain(s.avg_ns) {
        Some(Fault::InvalidLatencyAverage)
    } else if s.min_ns > s.max_ns {
        Some(Fault::ReversedBounds)
    } else if !(s.min_ns <= s.p50_ns && s.p50_ns <= s.p95_ns && s.p95_ns <= s.p99_ns && s.p99_ns
        <= s.p999_ns && s.p999_ns <= s.max_ns) {
        Some(Fault::NotOrdered)
    } else {
        None
    }
}

/// What is wrong with a distribution summary.
pub open spec fn distribution_fault(s: DistributionSummary) -> Option<Fault> {
    faults::first(
        nonnegative_fault(seq![s.avg, s.p50, s.p95, s.p99, s.p999, s.min, s.max]),
        faults::first(
            faults::unless(bits::at_most(s.min, s.max), Fault::ReversedBounds),
            ordered_fault(seq![s.min, s.p50, s.p95, s.p99, s.p999, s.max]),
        ),
    )
}

/// Checks a distribution summary.
pub fn validate_distribution(s: &DistributionSummary) -> (r: Result<(), Fault>)
    ensures
        distribution_fault(*s) matches Some(fault) ==> r == Err::<(), Fault>(fault),
        distribution_fault(*s) is None ==> r == Ok::<(), Fault>(()),
{
    let all: Vec<u64> = vec![s.avg, s.p50, s.p95, s.p99, s.p999, s.min, s.max];
    assert(all@ =~= seq![s.avg, s.p50, s.p95, s.p99, s.p999, s.min, s.max]);
    if let Some(fault) = check_nonnegative(&all) {
        return Err(fault);
    }
    if !no_more_than(s.min, s.max) {
        return Err(Fault::ReversedBounds);
    }
    let ordered: Vec<u64> = vec![s.min, s.p50, s.p95, s.p99, s.p999, s.max];
    assert(ordered@ =~= seq![s.min, s.p50, s.p95, s.p99, s.p999, s.max]);
    match check_ordered(&ordered) {
        Some(fault) => Err(fault),
        None => Ok(()),
    }
}

fn check_distributions(all: &Vec<DistributionSummary>) -> (r: Option<Fault>)
    ensures
        r == faults::first_of(all@.map_values(|s: DistributionSummary| distribution_fault(s))),
{
    let ghost faults = all@.map_values(|s: DistributionSummary| distribution_fault(s));
    let mut i: usize = 0;
    while i < all.len()
        invariant
            i <= all.len(),
            faults == all@.map_values(|s: DistributionSummary| distribution_fault(s)),
            faults::first_of(faults.take(i as int)) is None,
        decreases all.len() - i,
    {
        assert(faults[i as int] == distribution_fault(all@[i as int]));
        if let Err(fault) = validate_distribution(&all[i]) {
            proof {
                faults::settled(faults, i as int);
            }
            return Some(fault);
        }
        proof {
            faults::nothing_yet(faults, i as int);
        }
        i += 1;
    }
    proof {
        faults::settled(faults, i as int);
    }
    None
}

/// Which published averages agree with their totals and the recorded interval.
pub struct AverageVerdicts {
    /// Operation name to verdict on its call rate.
    pub operations: Named<bool>,
    /// Operation name to verdict on its throughput.
    pub throughput: Named<bool>,
    /// HTTP method to verdict on its request rate.
    pub requests: Named<bool>,
    /// HTTP method to verdict on its throughput.
    pub transfers: Named<bool>,
}

impl AverageVerdicts {
    /// The names of each table are in order and none occurs twice.
    pub open spec fn wf(&self) -> bool {
        self.operations.wf() && self.throughput.wf() && self.requests.wf() && self.transfers.wf()
    }
}

/// Whether a row's average agrees.
pub open spec fn agrees(verdicts: &Named<bool>, name: Seq<char>) -> bool {
    verdicts.has(name) && verdicts.at(name)
}

fn average_agrees(verdicts: &Named<bool>, name: &str) -> (r: bool)
    requires
        verdicts.wf(),
    ensures
        r == agrees(verdicts, name@),
{
    match verdicts.get(name) {
        Some(verdict) => *verdict,
        None => false,
    }
}

/// Whether a method is one that requests are counted under.
pub open spec fn known_method(name: Seq<char>) -> bool {
    name == "GET"@ || name == "PUT"@ || name == "HEAD"@ || name == "DELETE"@ || name == "POST"@
        || name == "OTHER"@
}

fn is_known_method(name: &str) -> (r: bool)
    ensures
        r == known_method(name@),
{
    same_text(name, "GET") || same_text(name, "PUT") || same_text(name, "HEAD") || same_text(
        name,
        "DELETE",
    ) || same_text(name, "POST") || same_text(name, "OTHER")
}

/// What is wrong with the row of an operation.
pub open spec fn operation_row_fault(metrics: &ApplicationMetrics, verdicts: &AverageVerdicts, i: int) -> Option<Fault> {
    let name = metrics.operations.names()[i];
    let row = metrics.operations.values()[i];
    faults::first(
        faults::unless(name.len() > 0, Fault::UnnamedApi),
        faults::first(
            rate_fault(row),
            if !metrics.latency.has(name) {
                Some(Fault::NoLatencyRow)
            } else {
                let latency = metrics.latency.at(name);
                faults::first(
                    latency_fault(latency),
                    faults::first(
                        faults::unless(latency.count == row.total, Fault::CountsDiffer),
                        faults::unless(agrees(&verdicts.operations, name), Fault::AverageDiffers),
                    ),
                )
            },
        ),
    )
}

/// The first fault of the rows.
pub open spec fn operation_rows_fault(metrics: &ApplicationMetrics, verdicts: &AverageVerdicts) -> Option<Fault> {
    faults::first_of(Seq::new(metrics.operations.names().len(), |i: int| operation_row_fault(metrics, verdicts, i)))
}

fn check_operation_rows(metrics: &ApplicationMetrics, verdicts: &AverageVerdicts) -> (r: Option<Fault>)
    requires
        metrics.wf(),
        verdicts.wf(),
    ensures
        r == operation_rows_fault(metrics, verdicts),
{
    let ghost faults = Seq::new(metrics.operations.names().len(), |i: int| operation_row_fault(metrics, verdicts, i));
    let mut i: usize = 0;
    while i < metrics.operations.len()
        invariant
            metrics.wf(),
            verdicts.wf(),
            i <= metrics.operations.names().len(),
            faults == Seq::new(metrics.operations.names().len(), |i: int| operation_row_fault(metrics, verdicts, i)),
            faults::first_of(faults.take(i as int)) is None,
        decreases metrics.operations.names().len() - i,
    {
        let fault: Option<Fault> = check_operation_row(metrics, verdicts, i);
        assert(faults[i as int] == fault);
        if fault.is_some() {
            proof {
                faults::settled(faults, i as int);
            }
            return fault;
        }
        proof {
            faults::nothing_yet(faults, i as int);
        }
        i += 1;
    }
    proof {
        faults::settled(faults, i as int);
    }
    None
}

fn check_operation_row(metrics: &ApplicationMetrics, verdicts: &AverageVerdicts, i: usize) -> (r: Option<Fault>)
    requires
        metrics.wf(),
        verdicts.wf(),
        i < metrics.operations.names().len(),
    ensures
        r == operation_row_fault(metrics, verdicts, i as int),
{
    let name: &str = metrics.operations.name_at(i).as_str();
    let row = metrics.operations.value_at(i);
    if name.is_empty() {
        return Some(Fault::UnnamedApi);
    }
    if let Some(fault) = check_rate(row) {
        return Some(fault);
    }
    match metrics.latency.get(name) {
        None => Some(Fault::NoLatencyRow),
        Some(latency) => {
            if let Some(fault) = check_latency(latency) {
                return Some(fault);
            }
            if latency.count != row.total {
                return Some(Fault::CountsDiffer);
            }
            if !average_agrees(&verdicts.operations, name) {
                return Some(Fault::AverageDiffers);
            }
            None
        },
    }
}

/// What is wrong with the row of an operation's throughput.
pub open spec fn throughput_row_fault(metrics: &ApplicationMetrics, verdicts: &AverageVerdicts, i: int) -> Option<Fault> {
    let name = metrics.throughput.names()[i];
    let row = metrics.throughput.values()[i];
    faults::first(
        faults::unless(metrics.operations.has(name), Fault::ThroughputWithoutOperations),
        faults::first(
            throughput_fault(row),
            faults::unless(agrees(&verdicts.throughput, name), Fault::AverageDiffers),
        ),
    )
}

/// The first fault of the rows.
pub open spec fn throughput_rows_fault(metrics: &ApplicationMetrics, verdicts: &AverageVerdicts) -> Option<Fault> {
    faults::first_of(Seq::new(metrics.throughput.names().len(), |i: int| throughput_row_fault(metrics, verdicts, i)))
}

fn check_throughput_rows(metrics: &ApplicationMetrics, verdicts: &AverageVerdicts) -> (r: Option<Fault>)
    requires
        metrics.wf(),
        verdicts.wf(),
    ensures
        r == throughput_rows_fault(metrics, verdicts),
{
    let ghost faults = Seq::new(metrics.throughput.names().len(), |i: int| throughput_row_fault(metrics, verdicts, i));
    let mut i: usize = 0;
    while i < metrics.throughput.len()
        invariant
            metrics.wf(),
            verdicts.wf(),
            i <= metrics.throughput.names().len(),
            faults == Seq::new(metrics.throughput.names().len(), |i: int| throughput_row_fault(metrics, verdicts, i)),
            faults::first_of(faults.take(i as int)) is None,
        decreases metrics.throughput.names().len() - i,
    {
        let fault: Option<Fault> = check_throughput_row(metrics, verdicts, i);
        assert(faults[i as int] == fault);
        if fault.is_some() {
            proof {
                faults::settled(faults, i as int);
            }
            return fault;
        }
        proof {
            faults::nothing_yet(faults, i as int);
        }
        i += 1;
    }
    proof {
        faults::settled(faults, i as int);
    }
    None
}

fn check_throughput_row(metrics: &ApplicationMetrics, verdicts: &AverageVerdicts, i: usize) -> (r: Option<Fault>)
    requires
        metrics.wf(),
        verdicts.wf(),
        i < metrics.throughput.names().len(),
    ensures
        r == throughput_row_fault(metrics, verdicts, i as int),
{
    let name: &str = metrics.throughput.name_at(i).as_str();
    let row = metrics.throughput.value_at(i);
    if metrics.operations.get(name).is_none() {
        return Some(Fault::ThroughputWithoutOperations);
    }
    if let Some(fault) = check_throughput(row) {
        return Some(fault);
    }
    if !average_agrees(&verdicts.throughput, name) {
        return Some(Fault::AverageDiffers);
    }
    None
}

/// What is wrong with the row of an operation's latency.
pub open spec fn latency_row_fault(metrics: &ApplicationMetrics, verdicts: &AverageVerdicts, i: int) -> Option<Fault> {
    let name = metrics.latency.names()[i];
    let row = metrics.latency.values()[i];
    faults::first(
        latency_fault(row),
        faults::unless(
            name == "durable"@ || metrics.operations.has(name),
            Fault::LatencyWithoutOperations,
        ),
    )
}

/// The first fault of the rows.
pub open spec fn latency_rows_fault(metrics: &ApplicationMetrics, verdicts: &AverageVerdicts) -> Option<Fault> {
    faults::first_of(Seq::new(metrics.latency.names().len(), |i: int| latency_row_fault(metrics, verdicts, i)))
}

fn check_latency_rows(metrics: &ApplicationMetrics, verdicts: &AverageVerdicts) -> (r: Option<Fault>)
    requires
        metrics.wf(),
        verdicts.wf(),
    ensures
        r == latency_rows_fault(metrics, verdicts),
{
    let ghost faults = Seq::new(metrics.latency.names().len(), |i: int| latency_row_fault(metrics, verdicts, i));
    let mut i: usize = 0;
    while i < metrics.latency.len()
        invariant
            metrics.wf(),
            verdicts.wf(),
            i <= metrics.latency.names().len(),
            faults == Seq::new(metrics.latency.names().len(), |i: int| latency_row_fault(metrics, verdicts, i)),
            faults::first_of(faults.take(i as int)) is None,
        decreases metrics.latency.names().len() - i,
    {
        let fault: Option<Fault> = check_latency_row(metrics, verdicts, i);
        assert(faults[i as int] == fault);
        if fault.is_some() {
            proof {
                faults::settled(faults, i as int);
            }
            return fault;
        }
        proof {
            faults::nothing_yet(faults, i as int);
        }
        i += 1;
    }
    proof {
        faults::settled(faults, i as int);
    }
    None
}

fn check_latency_row(metrics: &ApplicationMetrics, verdicts: &AverageVerdicts, i: usize) -> (r: Option<Fault>)
    requires
        metrics.wf(),
        verdicts.wf(),
        i < metrics.latency.names().len(),
    ensures
        r == latency_row_fault(metrics, verdicts, i as int),
{
    let name: &str = metrics.latency.name_at(i).as_str();
    let row = metrics.latency.value_at(i);
    if let Some(fault) = check_latency(row) {
        return Some(fault);
    }
    if !same_text(name, "durable") && metrics.operations.get(name).is_none() {
        return Some(Fault::LatencyWithoutOperations);
    }
    None
}

/// What is wrong with the row of a method's requests.
pub open spec fn request_row_fault(metrics: &ObjectStoreMetrics, verdicts: &AverageVerdicts, i: int) -> Option<Fault> {
    let name = metrics.requests.names()[i];
    let row = metrics.requests.values()[i];
    faults::first(
        faults::unless(known_method(name), Fault::UnknownMethod),
        faults::first(
            rate_fault(row),
            faults::unless(agrees(&verdicts.requests, name), Fault::AverageDiffers),
        ),
    )
}

/// The first fault of the rows.
pub open spec fn request_rows_fault(metrics: &ObjectStoreMetrics, verdicts: &AverageVerdicts) -> Option<Fault> {
    faults::first_of(Seq::new(metrics.requests.names().len(), |i: int| request_row_fault(metrics, verdicts, i)))
}

fn check_request_rows(metrics: &ObjectStoreMetrics, verdicts: &AverageVerdicts) -> (r: Option<Fault>)
    requires
        metrics.wf(),
        verdicts.wf(),
    ensures
        r == request_rows_fault(metrics, verdicts),
{
    let ghost faults = Seq::new(metrics.requests.names().len(), |i: int| request_row_fault(metrics, verdicts, i));
    let mut i: usize = 0;
    while i < metrics.requests.len()
        invariant
            metrics.wf(),
            verdicts.wf(),
            i <= metrics.requests.names().len(),
            faults == Seq::new(metrics.requests.names().len(), |i: int| request_row_fault(metrics, verdicts, i)),
            faults::first_of(faults.take(i as int)) is None,
        decreases metrics.requests.names().len() - i,
    {
        let fault: Option<Fault> = check_request_row(metrics, verdicts, i);
        assert(faults[i as int] == fault);
        if fault.is_some() {
            proof {
                faults::settled(faults, i as int);
            }
            return fault;
        }
        proof {
            faults::nothing_yet(faults, i as int);
        }
        i += 1;
    }
    proof {
        faults::settled(faults, i as int);
    }
    None
}

fn check_request_row(metrics: &ObjectStoreMetrics, verdicts: &AverageVerdicts, i: usize) -> (r: Option<Fault>)
    requires
        metrics.wf(),
        verdicts.wf(),
        i < metrics.requests.names().len(),
    ensures
        r == request_row_fault(metrics, verdicts, i as int),
{
    let name: &str = metrics.requests.name_at(i).as_str();
    let row = metrics.requests.value_at(i);
    if !is_known_method(name) {
        return Some(Fault::UnknownMethod);
    }
    if let Some(fault) = check_rate(row) {
        return Some(fault);
    }
    if !average_agrees(&verdicts.requests, name) {
        return Some(Fault::AverageDiffers);
    }
    None
}

/// What is wrong with the row of a method's throughput.
pub open spec fn transfer_row_fault(metrics: &ObjectStoreMetrics, verdicts: &AverageVerdicts, i: int) -> Option<Fault> {
    let name = metrics.throughput.names()[i];
    let row = metrics.throughput.values()[i];
    faults::first(
        faults::unless(metrics.requests.has(name), Fault::ThroughputWithoutRequests),
        faults::first(
            throughput_fault(row),
            faults::unless(agrees(&verdicts.transfers, name), Fault::AverageDiffers),
        ),
    )
}

/// The first fault of the rows.
pub open spec fn transfer_rows_fault(metrics: &ObjectStoreMetrics, verdicts: &AverageVerdicts) -> Option<Fault> {
    faults::first_of(Seq::new(metrics.throughput.names().len(), |i: int| transfer_row_fault(metrics, verdicts, i)))
}

fn check_transfer_rows(metrics: &ObjectStoreMetrics, verdicts: &AverageVerdicts) -> (r: Option<Fault>)
    requires
        metrics.wf(),
        verdicts.wf(),
    ensures
        r == transfer_rows_fault(metrics, verdicts),
{
    let ghost faults = Seq::new(metrics.throughput.names().len(), |i: int| transfer_row_fault(metrics, verdicts, i));
    let mut i: usize = 0;
    while i < metrics.throughput.len()
        invariant
            metrics.wf(),
            verdicts.wf(),
            i <= metrics.throughput.names().len(),
            faults == Seq::new(metrics.throughput.names().len(), |i: int| transfer_row_fault(metrics, verdicts, i)),
            faults::first_of(faults.take(i as int)) is None,
        decreases metrics.throughput.names().len() - i,
    {
        let fault: Option<Fault> = check_transfer_row(metrics, verdicts, i);
        assert(faults[i as int] == fault);
        if fault.is_some() {
            proof {
                faults::settled(faults, i as int);
            }
            return fault;
        }
        proof {
            faults::nothing_yet(faults, i as int);
        }
        i += 1;
    }
    proof {
        faults::settled(faults, i as int);
    }
    None
}

fn check_transfer_row(metrics: &ObjectStoreMetrics, verdicts: &AverageVerdicts, i: usize) -> (r: Option<Fault>)
    requires
        metrics.wf(),
        verdicts.wf(),
        i < metrics.throughput.names().len(),
    ensures
        r == transfer_row_fault(metrics, verdicts, i as int),
{
    let name: &str = metrics.throughput.name_at(i).as_str();
    let row = metrics.throughput.value_at(i);
    if metrics.requests.get(name).is_none() {
        return Some(Fault::ThroughputWithoutRequests);
    }
    if let Some(fault) = check_throughput(row) {
        return Some(fault);
    }
    if !average_agrees(&verdicts.transfers, name) {
        return Some(Fault::AverageDiffers);
    }
    None
}

/// The resource distributions in the order of their checks.
pub open spec fn resource_distributions(process: ProcessStatistics, machine: MachineStatistics) -> Seq<
    DistributionSummary,
> {
    seq![
        process.cpu_cores,
        process.rss_bytes,
        machine.cpu_percent,
        machine.rss_bytes,
        machine.network_receive_bytes_per_second,
        machine.network_send_bytes_per_second,
        machine.disk_read_bytes_per_second,
        machine.disk_write_bytes_per_second,
        machine.disk_read_operations_per_second,
        machine.disk_write_operations_per_second,
    ]
}

/// What is wrong with the metrics of a result.
pub open spec fn recorded_metrics_fault(
    recorded_interval_ns: u64,
    application: &ApplicationMetrics,
    object_store: &ObjectStoreMetrics,
    process: ProcessStatistics,
    machine: MachineStatistics,
    verdicts: &AverageVerdicts,
) -> Option<Fault> {
    faults::first_of(
        seq![
            faults::unless(recorded_interval_ns > 0, Fault::EmptyInterval),
            operation_rows_fault(application, verdicts),
            throughput_rows_fault(application, verdicts),
            latency_rows_fault(application, verdicts),
            request_rows_fault(object_store, verdicts),
            transfer_rows_fault(object_store, verdicts),
            faults::first_of(
                resource_distributions(process, machine).map_values(
                    |s: DistributionSummary| distribution_fault(s),
                ),
            ),
        ],
    )
}

fn check_recorded_metrics(
    recorded_interval_ns: u64,
    application: &ApplicationMetrics,
    object_store: &ObjectStoreMetrics,
    process: &ProcessStatistics,
    machine: &MachineStatistics,
    verdicts: &AverageVerdicts,
) -> (r: Option<Fault>)
    requires
        application.wf(),
        object_store.wf(),
        verdicts.wf(),
    ensures
        r == recorded_metrics_fault(
            recorded_interval_ns,
            application,
            object_store,
            *process,
            *machine,
            verdicts,
        ),
{
    let ghost faults = seq![
        faults::unless(recorded_interval_ns > 0, Fault::EmptyInterval),
        operation_rows_fault(application, verdicts),
        throughput_rows_fault(application, verdicts),
        latency_rows_fault(application, verdicts),
        request_rows_fault(object_store, verdicts),
        transfer_rows_fault(object_store, verdicts),
        faults::first_of(
            resource_distributions(*process, *machine).map_values(
                |s: DistributionSummary| distribution_fault(s),
            ),
        ),
    ];
    assert(faults.take(0).len() == 0);
    if recorded_interval_ns == 0 {
        proof {
            faults::settled(faults, 0);
        }
        return Some(Fault::EmptyInterval);
    }
    proof {
        faults::nothing_yet(faults, 0);
    }
    if let Some(fault) = check_operation_rows(application, verdicts) {
        proof {
            faults::settled(faults, 1);
        }
        return Some(fault);
    }
    proof {
        faults::nothing_yet(faults, 1);
    }
    if let Some(fault) = check_throughput_rows(application, verdicts) {
        proof {
            faults::settled(faults, 2);
        }
        return Some(fault);
    }
    proof {
        faults::nothing_yet(faults, 2);
    }
    if let Some(fault) = check_latency_rows(application, verdicts) {
        proof {
            faults::settled(faults, 3);
        }
        return Some(fault);
    }
    proof {
        faults::nothing_yet(faults, 3);
    }
    if let Some(fault) = check_request_rows(object_store, verdicts) {
        proof {
            faults::settled(faults, 4);
        }
        return Some(fault);
    }
    proof {
        faults::nothing_yet(faults, 4);
    }
    if let Some(fault) = check_transfer_rows(object_store, verdicts) {
        proof {
            faults::settled(faults, 5);
        }
        return Some(fault);
    }
    proof {
        faults::nothing_yet(faults, 5);
    }
    let resources: Vec<DistributionSummary> = vec![
        process.cpu_cores,
        process.rss_bytes,
        machine.cpu_percent,
        machine.rss_bytes,
        machine.network_receive_bytes_per_second,
        machine.network_send_bytes_per_second,
        machine.disk_read_bytes_per_second,
        machine.disk_write_bytes_per_second,
        machine.disk_read_operations_per_second,
        machine.disk_write_operations_per_second,
    ];
    assert(resources@ =~= resource_distributions(*process, *machine));
    let fault: Option<Fault> = check_distributions(&resources);
    proof {
        if fault is Some {
            faults::settled(faults, 6);
        } else {
            faults::nothing_yet(faults, 6);
            assert(faults.take(7) =~= faults);
        }
    }
    fault
}

/// Whether no text of a row is empty.
pub open spec fn all_filled(texts: Seq<Seq<char>>) -> bool {
    forall|i: int| 0 <= i < texts.len() ==> (#[trigger] texts[i]).len() > 0
}

fn are_filled(values: &Vec<&String>) -> (r: bool)
    ensures
        r == all_filled(Seq::new(values.len() as nat, |i: int| values@[i]@)),
{
    let ghost texts = Seq::new(values.len() as nat, |i: int| values@[i]@);
    let mut i: usize = 0;
    while i < values.len()
        invariant
            i <= values.len(),
            texts == Seq::new(values.len() as nat, |i: int| values@[i]@),
            forall|k: int| 0 <= k < i ==> (#[trigger] texts[k]).len() > 0,
        decreases values.len() - i,
    {
        if values[i].as_str().is_empty() {
            assert(texts[i as int].len() == 0);
            return false;
        }
        i += 1;
    }
    true
}

/// What is wrong with a source identity.
pub open spec fn source_fault(source: SourceIdentity) -> Option<Fault> {
    faults::unless(
        source.slate_version@.len() > 0 && source.slate_commit@.len() > 0
            && source.runner_version@.len() > 0 && source.runner_commit@.len() > 0
            && source.lockfile_sha256@.len() > 0,
        Fault::MissingSourceField,
    )
}

pub(crate) fn check_source(source: &SourceIdentity) -> (r: Option<Fault>)
    ensures
        r == source_fault(*source),
{
    let values: Vec<&String> = vec![
        &source.slate_version,
        &source.slate_commit,
        &source.runner_version,
        &source.runner_commit,
        &source.lockfile_sha256,
    ];
    let filled = are_filled(&values);
    proof {
        let texts = Seq::new(values.len() as nat, |i: int| values@[i]@);
        assert(texts[0] == source.slate_version@);
        assert(texts[1] == source.slate_commit@);
        assert(texts[2] == source.runner_version@);
        assert(texts[3] == source.runner_commit@);
        assert(texts[4] == source.lockfile_sha256@);
    }
    if filled {
        None
    } else {
        Some(Fault::MissingSourceField)
    }
}

/// Whether no text occurs twice.
pub open spec fn all_distinct(texts: Seq<Seq<char>>) -> bool {
    forall|i: int, j: int| 0 <= i < j < texts.len() ==> #[trigger] texts[i] != #[trigger] texts[j]
}

fn are_distinct(values: &Vec<String>) -> (r: bool)
    ensures
        r == all_distinct(text::texts(values@)),
{
    let ghost all = text::texts(values@);
    let mut i: usize = 0;
    while i < values.len()
        invariant
            i <= values.len(),
            all == text::texts(values@),
            all.len() == values.len(),
            forall|a: int, b: int|
                0 <= a < b < i ==> #[trigger] all[a] != #[trigger] all[b],
        decreases values.len() - i,
    {
        let mut k: usize = 0;
        while k < i
            invariant
                k <= i < values.len(),
                all == text::texts(values@),
                all.len() == values.len(),
                forall|a: int| 0 <= a < k ==> #[trigger] all[a] != all[i as int],
            decreases i - k,
        {
            if same_text(values[k].as_str(), values[i].as_str()) {
                assert(all[k as int] == all[i as int]);
                return false;
            }
            k += 1;
        }
        i += 1;
    }
    true
}

/// What is wrong with a configuration of a task.
pub open spec fn configuration_fault(c: ResultConfiguration, task: Task) -> Option<Fault> {
    faults::first_of(
        seq![
            faults::unless(c.task.task == task, Fault::ForeignConfiguration),
            faults::unless(crate::config::scale_is_valid(c.scale), Fault::InvalidScale),
            faults::unless(c.dataset.record_count > 0, Fault::NoRecords),
            faults::unless(c.dataset.key_bytes > 0, Fault::NoKeyBytes),
            faults::unless(c.dataset.value_bytes > 0, Fault::NoValueBytes),
            faults::unless(c.caches.block_bytes > 0, Fault::NoBlockCache),
            faults::unless(c.caches.metadata_bytes > 0, Fault::NoMetadataCache),
            faults::unless(c.settings_are_table, Fault::SettingsNotATable),
            faults::unless(
                c.build_profile@ == "debug"@ || c.build_profile@ == "release"@,
                Fault::UnknownBuildProfile,
            ),
            faults::unless(
                all_distinct(text::texts(c.enabled_features@)),
                Fault::DuplicateFeatures,
            ),
        ],
    )
}

fn check_configuration(c: &ResultConfiguration, task: Task) -> (r: Option<Fault>)
    ensures
        r == configuration_fault(*c, task),
{
    let profile: &str = c.build_profile.as_str();
    let faults: Vec<Option<Fault>> = vec![
        fault_unless(c.task.task == task, Fault::ForeignConfiguration),
        fault_unless(
            crate::config::BenchmarkScale::validate(c.scale).is_ok(),
            Fault::InvalidScale,
        ),
        fault_unless(c.dataset.record_count > 0, Fault::NoRecords),
        fault_unless(c.dataset.key_bytes > 0, Fault::NoKeyBytes),
        fault_unless(c.dataset.value_bytes > 0, Fault::NoValueBytes),
        fault_unless(c.caches.block_bytes > 0, Fault::NoBlockCache),
        fault_unless(c.caches.metadata_bytes > 0, Fault::NoMetadataCache),
        fault_unless(c.settings_are_table, Fault::SettingsNotATable),
        fault_unless(
            same_text(profile, "debug") || same_text(profile, "release"),
            Fault::UnknownBuildProfile,
        ),
        fault_unless(are_distinct(&c.enabled_features), Fault::DuplicateFeatures),
    ];
    assert(faults@ =~= seq![
        faults::unless(c.task.task == task, Fault::ForeignConfiguration),
        faults::unless(crate::config::scale_is_valid(c.scale), Fault::InvalidScale),
        faults::unless(c.dataset.record_count > 0, Fault::NoRecords),
        faults::unless(c.dataset.key_bytes > 0, Fault::NoKeyBytes),
        faults::unless(c.dataset.value_bytes > 0, Fault::NoValueBytes),
        faults::unless(c.caches.block_bytes > 0, Fault::NoBlockCache),
        faults::unless(c.caches.metadata_bytes > 0, Fault::NoMetadataCache),
        faults::unless(c.settings_are_table, Fault::SettingsNotATable),
        faults::unless(
            c.build_profile@ == "debug"@ || c.build_profile@ == "release"@,
            Fault::UnknownBuildProfile,
        ),
        faults::unless(all_distinct(text::texts(c.enabled_features@)), Fault::DuplicateFeatures),
    ]);
    first_listed(&faults)
}

/// What is wrong with an environment.
pub open spec fn environment_fault(e: Environment) -> Option<Fault> {
    faults::first_of(
        seq![
            faults::unless(e.cpu_cores > 0, Fault::NoCpuCores),
            faults::unless(e.ram_bytes > 0, Fault::NoRam),
            faults::unless(
                e.runner_type@.len() > 0 && e.hostname@.len() > 0 && e.cpu_model@.len() > 0
                    && e.os@.len() > 0 && e.kernel@.len() > 0 && e.object_store@.len() > 0
                    && e.endpoint@.len() > 0 && e.region@.len() > 0,
                Fault::MissingEnvironmentField,
            ),
        ],
    )
}

fn check_environment(e: &Environment) -> (r: Option<Fault>)
    ensures
        r == environment_fault(*e),
{
    let values: Vec<&String> = vec![
        &e.runner_type,
        &e.hostname,
        &e.cpu_model,
        &e.os,
        &e.kernel,
        &e.object_store,
        &e.endpoint,
        &e.region,
    ];
    let filled = are_filled(&values);
    proof {
        let texts = Seq::new(values.len() as nat, |i: int| values@[i]@);
        assert(texts[0] == e.runner_type@);
        assert(texts[1] == e.hostname@);
        assert(texts[2] == e.cpu_model@);
        assert(texts[3] == e.os@);
        assert(texts[4] == e.kernel@);
        assert(texts[5] == e.object_store@);
        assert(texts[6] == e.endpoint@);
        assert(texts[7] == e.region@);
    }
    let faults: Vec<Option<Fault>> = vec![
        fault_unless(e.cpu_cores > 0, Fault::NoCpuCores),
        fault_unless(e.ram_bytes > 0, Fault::NoRam),
        fault_unless(filled, Fault::MissingEnvironmentField),
    ];
    assert(faults@ =~= seq![
        faults::unless(e.cpu_cores > 0, Fault::NoCpuCores),
        faults::unless(e.ram_bytes > 0, Fault::NoRam),
        faults::unless(filled, Fault::MissingEnvironmentField),
    ]);
    first_listed(&faults)
}

/// What is wrong with a checkpoint, given whether its identifier is a UUID.
pub open spec fn checkpoint_fault(c: CheckpointReference, id_is_uuid: bool) -> Option<Fault> {
    faults::first_of(
        seq![
            faults::unless(c.database_path@.len() > 0, Fault::NoCheckpointPath),
            faults::unless(c.checkpoint_id@.len() > 0, Fault::NoCheckpointId),
            faults::unless(id_is_uuid, Fault::InvalidCheckpointId),
            faults::unless(is_digest(c.lsm_digest_sha256@), Fault::InvalidDigest),
        ],
    )
}

fn check_checkpoint(c: &CheckpointReference, id_is_uuid: bool) -> (r: Option<Fault>)
    ensures
        r == checkpoint_fault(*c, id_is_uuid),
{
    let faults: Vec<Option<Fault>> = vec![
        fault_unless(!c.database_path.as_str().is_empty(), Fault::NoCheckpointPath),
        fault_unless(!c.checkpoint_id.as_str().is_empty(), Fault::NoCheckpointId),
        fault_unless(id_is_uuid, Fault::InvalidCheckpointId),
        fault_unless(is_sha256(c.lsm_digest_sha256.as_str()), Fault::InvalidDigest),
    ];
    assert(faults@ =~= seq![
        faults::unless(c.database_path@.len() > 0, Fault::NoCheckpointPath),
        faults::unless(c.checkpoint_id@.len() > 0, Fault::NoCheckpointId),
        faults::unless(id_is_uuid, Fault::InvalidCheckpointId),
        faults::unless(is_digest(c.lsm_digest_sha256@), Fault::InvalidDigest),
    ]);
    first_listed(&faults)
}

/// Whether a table has exactly the rows of a list.
pub open spec fn rows_are<V>(table: &Named<V>, rows: Seq<Seq<char>>) -> bool {
    forall|name: Seq<char>| #[trigger] table.has(name) <==> rows.contains(name)
}

fn has_rows<V>(table: &Named<V>, rows: &Vec<&str>) -> (r: bool)
    requires
        table.wf(),
    ensures
        r == rows_are(table, Seq::new(rows.len() as nat, |i: int| rows@[i]@)),
{
    let ghost expected = Seq::new(rows.len() as nat, |i: int| rows@[i]@);
    let mut i: usize = 0;
    while i < rows.len()
        invariant
            table.wf(),
            i <= rows.len(),
            expected == Seq::new(rows.len() as nat, |i: int| rows@[i]@),
            forall|k: int| 0 <= k < i ==> table.has(#[trigger] expected[k]),
        decreases rows.len() - i,
    {
        if table.get(rows[i]).is_none() {
            assert(expected.contains(expected[i as int]));
            return false;
        }
        i += 1;
    }
    let mut k: usize = 0;
    while k < table.len()
        invariant
            table.wf(),
            k <= table.names().len(),
            expected == Seq::new(rows.len() as nat, |i: int| rows@[i]@),
            forall|a: int| 0 <= a < expected.len() ==> table.has(#[trigger] expected[a]),
            forall|a: int| 0 <= a < k ==> expected.contains(#[trigger] table.names()[a]),
        decreases table.names().len() - k,
    {
        let name: &str = table.name_at(k).as_str();
        let mut found = false;
        let mut j: usize = 0;
        while j < rows.len()
            invariant
                j <= rows.len(),
                k < table.names().len(),
                name@ == table.names()[k as int],
                expected == Seq::new(rows.len() as nat, |i: int| rows@[i]@),
                found <==> exists|a: int| 0 <= a < j && #[trigger] expected[a] == name@,
            decreases rows.len() - j,
        {
            if same_text(rows[j], name) {
                assert(expected[j as int] == name@);
                found = true;
            }
            j += 1;
        }
        if !found {
            assert(table.has(name@));
            assert(!expected.contains(name@));
            return false;
        }
        k += 1;
    }
    assert forall|name: Seq<char>| #[trigger] table.has(name) implies expected.contains(name) by {
        let a = choose|a: int| 0 <= a < table.names().len() && table.names()[a] == name;
        assert(expected.contains(table.names()[a]));
    }
    true
}

/// What is wrong with the state that a workload started from.
pub open spec fn initial_state_fault(result: &WorkloadResult) -> Option<Fault> {
    let state = result.initial_state;
    faults::first(
        if result.task == Task::SustainedIngest {
            faults::first(
                faults::unless(state.kind@ == "empty"@, Fault::NotEmptyAtStart),
                faults::unless(
                    state.checkpoint_id is None && state.manifest_id is None,
                    Fault::CheckpointAtEmptyStart,
                ),
            )
        } else {
            faults::first(
                faults::unless(state.kind@ == "golden"@, Fault::NotGoldenAtStart),
                faults::first(
                    faults::unless(state.checkpoint_id is Some, Fault::NoInitialCheckpoint),
                    faults::unless(state.manifest_id is Some, Fault::NoInitialManifest),
                ),
            )
        },
        faults::unless(is_digest(state.lsm_digest_sha256@), Fault::InvalidDigest),
    )
}

fn check_initial_state(result: &WorkloadResult) -> (r: Option<Fault>)
    ensures
        r == initial_state_fault(result),
{
    let state = &result.initial_state;
    if result.task == Task::SustainedIngest {
        if !same_text(state.kind.as_str(), "empty") {
            return Some(Fault::NotEmptyAtStart);
        }
        if state.checkpoint_id.is_some() || state.manifest_id.is_some() {
            return Some(Fault::CheckpointAtEmptyStart);
        }
    } else {
        if !same_text(state.kind.as_str(), "golden") {
            return Some(Fault::NotGoldenAtStart);
        }
        if state.checkpoint_id.is_none() {
            return Some(Fault::NoInitialCheckpoint);
        }
        if state.manifest_id.is_none() {
            return Some(Fault::NoInitialManifest);
        }
    }
    fault_unless(is_sha256(state.lsm_digest_sha256.as_str()), Fault::InvalidDigest)
}

/// The number of batches that a dataset is written in.
pub open spec fn batches(record_count: u64) -> u64 {
    if record_count % DATASET_BATCH_RECORDS == 0 {
        record_count / DATASET_BATCH_RECORDS
    } else {
        (record_count / DATASET_BATCH_RECORDS + 1) as u64
    }
}

/// Computes the number of batches that a dataset is written in.
pub fn batch_count(record_count: u64) -> (r: u64)
    ensures
        r == batches(record_count),
{
    if record_count % DATASET_BATCH_RECORDS == 0 {
        record_count / DATASET_BATCH_RECORDS
    } else {
        record_count / DATASET_BATCH_RECORDS + 1
    }
}

/// What is wrong with the calls of a preparation phase.
pub open spec fn preparation_rows_fault(
    task: Task,
    application: &ApplicationMetrics,
    dataset: GoldenDatasetMetadata,
) -> Option<Fault> {
    if task == Task::BulkLoad {
        faults::first_of(
            seq![
                faults::unless(
                    rows_are(&application.operations, seq!["flush"@, "write"@]) && rows_are(
                        &application.latency,
                        seq!["flush"@, "write"@],
                    ),
                    Fault::OperationRowsDiffer,
                ),
                faults::unless(
                    rows_are(&application.throughput, seq!["write"@]),
                    Fault::ThroughputRowsDiffer,
                ),
                faults::unless(
                    application.operations.at("write"@).total == batches(dataset.record_count),
                    Fault::WriteCountDiffers,
                ),
                faults::unless(application.operations.at("flush"@).total == 1, Fault::FlushCountDiffers),
                faults::unless(
                    application.throughput.at("write"@).total_bytes == dataset.logical_bytes,
                    Fault::WriteBytesDiffer,
                ),
            ],
        )
    } else {
        faults::unless(
            application.operations.names().len() == 0 && application.throughput.names().len() == 0
                && application.latency.names().len() == 0,
            Fault::UnexpectedCalls,
        )
    }
}

fn rate_total(table: &Named<RateSummary>, name: &str) -> (r: u64)
    requires
        table.wf(),
        table.has(name@),
    ensures
        r == table.at(name@).total,
{
    match table.get(name) {
        Some(row) => row.total,
        None => 0,
    }
}

fn check_preparation_rows(
    task: Task,
    application: &ApplicationMetrics,
    dataset: &GoldenDatasetMetadata,
) -> (r: Option<Fault>)
    requires
        application.wf(),
    ensures
        r == preparation_rows_fault(task, application, *dataset),
{
    if task != Task::BulkLoad {
        return fault_unless(
            application.operations.len() == 0 && application.throughput.len() == 0
                && application.latency.len() == 0,
            Fault::UnexpectedCalls,
        );
    }
    let ghost faults = seq![
        faults::unless(
            rows_are(&application.operations, seq!["flush"@, "write"@]) && rows_are(
                &application.latency,
                seq!["flush"@, "write"@],
            ),
            Fault::OperationRowsDiffer,
        ),
        faults::unless(rows_are(&application.throughput, seq!["write"@]), Fault::ThroughputRowsDiffer),
        faults::unless(
            application.operations.at("write"@).total == batches(dataset.record_count),
            Fault::WriteCountDiffers,
        ),
        faults::unless(application.operations.at("flush"@).total == 1, Fault::FlushCountDiffers),
        faults::unless(
            application.throughput.at("write"@).total_bytes == dataset.logical_bytes,
            Fault::WriteBytesDiffer,
        ),
    ];
    assert(faults.take(0).len() == 0);
    let calls: Vec<&str> = vec!["flush", "write"];
    assert(Seq::new(calls.len() as nat, |i: int| calls@[i]@) =~= seq!["flush"@, "write"@]);
    if !(has_rows(&application.operations, &calls) && has_rows(&application.latency, &calls)) {
        proof {
            faults::settled(faults, 0);
        }
        return Some(Fault::OperationRowsDiffer);
    }
    proof {
        faults::nothing_yet(faults, 0);
    }
    let writes: Vec<&str> = vec!["write"];
    assert(Seq::new(writes.len() as nat, |i: int| writes@[i]@) =~= seq!["write"@]);
    if !has_rows(&application.throughput, &writes) {
        proof {
            faults::settled(faults, 1);
        }
        return Some(Fault::ThroughputRowsDiffer);
    }
    proof {
        faults::nothing_yet(faults, 1);
        assert(seq!["flush"@, "write"@][0] == "flush"@);
        assert(seq!["flush"@, "write"@][1] == "write"@);
        assert(seq!["write"@][0] == "write"@);
        assert(application.operations.has("write"@));
        assert(application.operations.has("flush"@));
        assert(application.throughput.has("write"@));
    }
    if rate_total(&application.operations, "write") != batch_count(dataset.record_count) {
        proof {
            faults::settled(faults, 2);
        }
        return Some(Fault::WriteCountDiffers);
    }
    proof {
        faults::nothing_yet(faults, 2);
    }
    if rate_total(&application.operations, "flush") != 1 {
        proof {
            faults::settled(faults, 3);
        }
        return Some(Fault::FlushCountDiffers);
    }
    proof {
        faults::nothing_yet(faults, 3);
    }
    let written: u64 = match application.throughput.get("write") {
        Some(row) => row.total_bytes,
        None => 0,
    };
    if written != dataset.logical_bytes {
        proof {
            faults::settled(faults, 4);
        }
        return Some(Fault::WriteBytesDiffer);
    }
    proof {
        faults::nothing_yet(faults, 4);
        faults::settled(faults, 5);
    }
    None
}

/// The calls that a workload makes.
pub open spec fn expected_rows(task: Task) -> Seq<Seq<char>> {
    match task {
        Task::PointReadUniform | Task::PointReadSkewed | Task::PointReadMissing => seq!["get"@],
        Task::ReadHeavy | Task::Balanced | Task::UpdateHeavy => seq!["get"@, "put"@, "flush"@],
        Task::RangeScan => seq!["scan"@],
        Task::SustainedIngest => seq!["put"@, "flush"@],
        Task::TransactionContention => seq![
            "transaction.get"@,
            "transaction.put"@,
            "transaction.commit"@,
            "flush"@,
        ],
        Task::Idle | Task::BulkLoad | Task::Compaction => seq![],
    }
}

/// The latencies that a workload records.
pub open spec fn expected_latencies(task: Task) -> Seq<Seq<char>> {
    if task.writes() {
        expected_rows(task).push("durable"@)
    } else {
        expected_rows(task)
    }
}

/// What is wrong with the calls of a workload.
pub open spec fn application_rows_fault(task: Task, application: &ApplicationMetrics) -> Option<
    Fault,
> {
    let operations = application.operations;
    let durable = application.latency.at("durable"@).count;
    let commits = operations.at("transaction.commit"@).total;
    faults::first(
        faults::unless(rows_are(&operations, expected_rows(task)), Fault::OperationRowsDiffer),
        faults::first(
            faults::unless(
                rows_are(&application.latency, expected_latencies(task)),
                Fault::LatencyRowsDiffer,
            ),
            if !task.writes() {
                None
            } else {
                faults::first(
                    faults::unless(operations.at("flush"@).total == 1, Fault::FlushCountDiffers),
                    if task == Task::TransactionContention {
                        faults::first(
                            faults::unless(
                                operations.at("transaction.get"@).total == count::capped_product(
                                    commits,
                                    5,
                                ) && operations.at("transaction.put"@).total
                                    == count::capped_product(commits, 5),
                                Fault::TransactionCountsDiffer,
                            ),
                            faults::unless(durable <= commits, Fault::DurableCountExceedsCommits),
                        )
                    } else {
                        faults::unless(durable == operations.at("put"@).total, Fault::DurableCountDiffers)
                    },
                )
            },
        ),
    )
}

fn rows_of(task: Task) -> (r: Vec<&'static str>)
    ensures
        Seq::new(r.len() as nat, |i: int| r@[i]@) == expected_rows(task),
{
    let rows: Vec<&'static str> = match task {
        Task::PointReadUniform | Task::PointReadSkewed | Task::PointReadMissing => vec!["get"],
        Task::ReadHeavy | Task::Balanced | Task::UpdateHeavy => vec!["get", "put", "flush"],
        Task::RangeScan => vec!["scan"],
        Task::SustainedIngest => vec!["put", "flush"],
        Task::TransactionContention => vec![
            "transaction.get",
            "transaction.put",
            "transaction.commit",
            "flush",
        ],
        Task::Idle | Task::BulkLoad | Task::Compaction => vec![],
    };
    assert(Seq::new(rows.len() as nat, |i: int| rows@[i]@) =~= expected_rows(task));
    rows
}

proof fn listed_rows_are_present<V>(table: &Named<V>, rows: Seq<Seq<char>>)
    requires
        rows_are(table, rows),
    ensures
        forall|i: int| 0 <= i < rows.len() ==> table.has(#[trigger] rows[i]),
{
    assert forall|i: int| 0 <= i < rows.len() implies table.has(#[trigger] rows[i]) by {
        assert(rows.contains(rows[i]));
    }
}

fn check_application_rows(task: Task, application: &ApplicationMetrics) -> (r: Option<Fault>)
    requires
        application.wf(),
        !task.prepares(),
    ensures
        r == application_rows_fault(task, application),
{
    let operations = &application.operations;
    let mut rows = rows_of(task);
    if !has_rows(operations, &rows) {
        return Some(Fault::OperationRowsDiffer);
    }
    if task.may_write() {
        let ghost before = rows@;
        rows.push("durable");
        assert(Seq::new(rows.len() as nat, |i: int| rows@[i]@) =~= expected_latencies(task));
    }
    if !has_rows(&application.latency, &rows) {
        return Some(Fault::LatencyRowsDiffer);
    }
    if !task.may_write() {
        return None;
    }
    proof {
        let names = expected_rows(task);
        listed_rows_are_present(operations, names);
        listed_rows_are_present(&application.latency, expected_latencies(task));
        assert(expected_latencies(task)[names.len() as int] == "durable"@);
        assert(names[names.len() - 1] == "flush"@);
        assert(operations.has("flush"@));
        assert(application.latency.has("durable"@));
    }
    if rate_total(operations, "flush") != 1 {
        return Some(Fault::FlushCountDiffers);
    }
    let durable: u64 = match application.latency.get("durable") {
        Some(row) => row.count,
        None => 0,
    };
    if task == Task::TransactionContention {
        proof {
            let names = expected_rows(task);
            assert(names[0] == "transaction.get"@);
            assert(names[1] == "transaction.put"@);
            assert(names[2] == "transaction.commit"@);
            assert(operations.has("transaction.get"@));
            assert(operations.has("transaction.put"@));
            assert(operations.has("transaction.commit"@));
        }
        let commits: u64 = rate_total(operations, "transaction.commit");
        let expected: u64 = times(commits, 5);
        if rate_total(operations, "transaction.get") != expected || rate_total(
            operations,
            "transaction.put",
        ) != expected {
            return Some(Fault::TransactionCountsDiffer);
        }
        fault_unless(durable <= commits, Fault::DurableCountExceedsCommits)
    } else {
        proof {
            let names = expected_rows(task);
            assert(names[names.len() - 2] == "put"@);
            assert(operations.has("put"@));
        }
        fault_unless(durable == rate_total(operations, "put"), Fault::DurableCountDiffers)
    }
}

/// What is wrong with a dataset and its checkpoint, given whether the checkpoint has a UUID.
pub open spec fn dataset_fault(
    dataset: GoldenDatasetMetadata,
    checkpoint: CheckpointReference,
    id_is_uuid: bool,
) -> Option<Fault> {
    faults::first_of(
        seq![
            faults::unless(dataset.record_count > 0, Fault::NoRecords),
            faults::unless(dataset.key_bytes > 0, Fault::NoKeyBytes),
            faults::unless(dataset.value_bytes > 0, Fault::NoValueBytes),
            faults::unless(
                dataset.logical_bytes == count::capped_product(
                    dataset.record_count,
                    crate::workloads::closed::pair_bytes(dataset.key_bytes, dataset.value_bytes),
                ),
                Fault::LogicalBytesDiffer,
            ),
            checkpoint_fault(checkpoint, id_is_uuid),
            faults::unless(checkpoint.live_sst_bytes > 0, Fault::NoSstData),
            faults::unless(dataset.live_sst_bytes == checkpoint.live_sst_bytes, Fault::SstBytesDiffer),
        ],
    )
}

fn check_dataset(
    dataset: &GoldenDatasetMetadata,
    checkpoint: &CheckpointReference,
    id_is_uuid: bool,
) -> (r: Option<Fault>)
    ensures
        r == dataset_fault(*dataset, *checkpoint, id_is_uuid),
{
    let record_bytes: u64 = crate::workloads::closed::logical_bytes(
        dataset.key_bytes,
        dataset.value_bytes,
    );
    let logical_bytes: u64 = times(dataset.record_count, record_bytes);
    let faults: Vec<Option<Fault>> = vec![
        fault_unless(dataset.record_count > 0, Fault::NoRecords),
        fault_unless(dataset.key_bytes > 0, Fault::NoKeyBytes),
        fault_unless(dataset.value_bytes > 0, Fault::NoValueBytes),
        fault_unless(dataset.logical_bytes == logical_bytes, Fault::LogicalBytesDiffer),
        check_checkpoint(checkpoint, id_is_uuid),
        fault_unless(checkpoint.live_sst_bytes > 0, Fault::NoSstData),
        fault_unless(
            dataset.live_sst_bytes == checkpoint.live_sst_bytes,
            Fault::SstBytesDiffer,
        ),
    ];
    assert(faults@ =~= seq![
        faults::unless(dataset.record_count > 0, Fault::NoRecords),
        faults::unless(dataset.key_bytes > 0, Fault::NoKeyBytes),
        faults::unless(dataset.value_bytes > 0, Fault::NoValueBytes),
        faults::unless(dataset.logical_bytes == logical_bytes, Fault::LogicalBytesDiffer),
        checkpoint_fault(*checkpoint, id_is_uuid),
        faults::unless(checkpoint.live_sst_bytes > 0, Fault::NoSstData),
        faults::unless(dataset.live_sst_bytes == checkpoint.live_sst_bytes, Fault::SstBytesDiffer),
    ]);
    first_listed(&faults)
}

/// Whether a dataset has the shape of its configuration.
pub open spec fn same_shape(configured: DatasetConfig, dataset: GoldenDatasetMetadata) -> bool {
    configured.record_count == dataset.record_count && configured.key_bytes == dataset.key_bytes
        && configured.value_bytes == dataset.value_bytes
}

fn has_shape(configured: &DatasetConfig, dataset: &GoldenDatasetMetadata) -> (r: bool)
    ensures
        r == same_shape(*configured, *dataset),
{
    configured.record_count == dataset.record_count && configured.key_bytes == dataset.key_bytes
        && configured.value_bytes == dataset.value_bytes
}

/// What outside readers say of the texts of an artifact.
#[derive(Debug, Clone, Copy, PartialEq, Eq, Structural)]
pub struct Readings {
    /// The timestamp is one after RFC 3339.
    pub timestamp: bool,
    /// The checkpoint's identifier is a UUID.
    pub checkpoint: bool,
    /// The source checkpoint's identifier is a UUID, where there is one.
    pub source_checkpoint: bool,
}

/// What is wrong with the checkpoint that a preparation phase started from.
pub open spec fn origin_fault(result: &PreparationResult, readings: Readings) -> Option<Fault> {
    if result.task == Task::BulkLoad {
        faults::unless(result.source_checkpoint is None, Fault::UnexpectedSourceCheckpoint)
    } else {
        match result.source_checkpoint {
            None => Some(Fault::NoSourceCheckpoint),
            Some(source) => faults::first(
                checkpoint_fault(source, readings.source_checkpoint),
                faults::unless(
                    source.checkpoint_id@ != result.checkpoint.checkpoint_id@,
                    Fault::ReusedCheckpoint,
                ),
            ),
        }
    }
}

/// What is wrong with the result of a preparation phase.
pub open spec fn preparation_fault(
    result: &PreparationResult,
    verdicts: &AverageVerdicts,
    readings: Readings,
) -> Option<Fault> {
    faults::first_of(
        seq![
            faults::unless(result.status@ == "ok"@, Fault::StatusNotOk),
            faults::unless(result.task.prepares(), Fault::WrongKindOfTask),
            faults::unless(result.golden_id@.len() > 0, Fault::NoGoldenId),
            faults::unless(readings.timestamp, Fault::InvalidTimestamp),
            source_fault(result.source),
            configuration_fault(result.configuration, result.task),
            environment_fault(result.environment),
            recorded_metrics_fault(
                result.recorded_interval_ns,
                &result.application,
                &result.object_store,
                result.process,
                result.machine,
                verdicts,
            ),
            dataset_fault(result.dataset, result.checkpoint, readings.checkpoint),
            origin_fault(result, readings),
            preparation_rows_fault(result.task, &result.application, result.dataset),
            faults::unless(
                same_shape(result.configuration.dataset, result.dataset),
                Fault::DatasetDiffers,
            ),
        ],
    )
}

fn check_origin(result: &PreparationResult, readings: Readings) -> (r: Option<Fault>)
    ensures
        r == origin_fault(result, readings),
{
    if result.task == Task::BulkLoad {
        return fault_unless(
            result.source_checkpoint.is_none(),
            Fault::UnexpectedSourceCheckpoint,
        );
    }
    match &result.source_checkpoint {
        None => Some(Fault::NoSourceCheckpoint),
        Some(source) => {
            if let Some(fault) = check_checkpoint(source, readings.source_checkpoint) {
                return Some(fault);
            }
            fault_unless(
                !same_text(
                    source.checkpoint_id.as_str(),
                    result.checkpoint.checkpoint_id.as_str(),
                ),
                Fault::ReusedCheckpoint,
            )
        },
    }
}

/// Checks the result of a preparation phase, given what outside readers say of its texts.
pub fn check_preparation_result(
    result: &PreparationResult,
    verdicts: &AverageVerdicts,
    readings: Readings,
) -> (r: Result<(), Fault>)
    requires
        result.application.wf(),
        result.object_store.wf(),
        verdicts.wf(),
    ensures
        preparation_fault(result, verdicts, readings) matches Some(fault) ==> r == Err::<
            (),
            Fault,
        >(fault),
        preparation_fault(result, verdicts, readings) is None ==> r == Ok::<(), Fault>(()),
{
    let faults: Vec<Option<Fault>> = vec![
        fault_unless(same_text(result.status.as_str(), "ok"), Fault::StatusNotOk),
        fault_unless(result.task.is_preparation(), Fault::WrongKindOfTask),
        fault_unless(!result.golden_id.as_str().is_empty(), Fault::NoGoldenId),
        fault_unless(readings.timestamp, Fault::InvalidTimestamp),
        check_source(&result.source),
        check_configuration(&result.configuration, result.task),
        check_environment(&result.environment),
        check_recorded_metrics(
            result.recorded_interval_ns,
            &result.application,
            &result.object_store,
            &result.process,
            &result.machine,
            verdicts,
        ),
        check_dataset(&result.dataset, &result.checkpoint, readings.checkpoint),
        check_origin(result, readings),
        check_preparation_rows(result.task, &result.application, &result.dataset),
        fault_unless(
            has_shape(&result.configuration.dataset, &result.dataset),
            Fault::DatasetDiffers,
        ),
    ];
    assert(faults@ =~= seq![
        faults::unless(result.status@ == "ok"@, Fault::StatusNotOk),
        faults::unless(result.task.prepares(), Fault::WrongKindOfTask),
        faults::unless(result.golden_id@.len() > 0, Fault::NoGoldenId),
        faults::unless(readings.timestamp, Fault::InvalidTimestamp),
        source_fault(result.source),
        configuration_fault(result.configuration, result.task),
        environment_fault(result.environment),
        recorded_metrics_fault(
            result.recorded_interval_ns,
            &result.application,
            &result.object_store,
            result.process,
            result.machine,
            verdicts,
        ),
        dataset_fault(result.dataset, result.checkpoint, readings.checkpoint),
        origin_fault(result, readings),
        preparation_rows_fault(result.task, &result.application, result.dataset),
        faults::unless(same_shape(result.configuration.dataset, result.dataset), Fault::DatasetDiffers),
    ]);
    match first_listed(&faults) {
        Some(fault) => Err(fault),
        None => Ok(()),
    }
}

/// What outside readers say of the texts of a preparation result.
pub open spec fn preparation_readings(result: &PreparationResult) -> Readings {
    Readings {
        timestamp: is_rfc3339(result.timestamp@),
        checkpoint: is_uuid(result.checkpoint.checkpoint_id@),
        source_checkpoint: match result.source_checkpoint {
            Some(source) => is_uuid(source.checkpoint_id@),
            None => false,
        },
    }
}

/// Checks the result of a preparation phase.
pub fn validate_preparation_result(result: &PreparationResult, verdicts: &AverageVerdicts) -> (r:
    Result<(), Fault>)
    requires
        result.application.wf(),
        result.object_store.wf(),
        verdicts.wf(),
    ensures
        ({
            let fault = preparation_fault(result, verdicts, preparation_readings(result));
            &&& fault is Some ==> r == Err::<(), Fault>(fault->0)
            &&& fault is None ==> r == Ok::<(), Fault>(())
        }),
{
    let source_checkpoint = match &result.source_checkpoint {
        Some(source) => parses_as_uuid(source.checkpoint_id.as_str()),
        None => false,
    };
    let readings = Readings {
        timestamp: parses_as_rfc3339(result.timestamp.as_str()),
        checkpoint: parses_as_uuid(result.checkpoint.checkpoint_id.as_str()),
        source_checkpoint,
    };
    check_preparation_result(result, verdicts, readings)
}

/// What is wrong with the intervals of a workload.
pub open spec fn intervals_fault(result: &WorkloadResult) -> Option<Fault> {
    faults::first_of(
        seq![
            faults::unless(
                result.recorded_interval_ns >= count::capped_sum(
                    result.client_measurement_ns,
                    result.durability_drain_ns,
                ),
                Fault::IntervalTooShort,
            ),
            faults::unless(result.recorded_interval_ns > 0, Fault::EmptyInterval),
            if result.task.writes() {
                faults::unless(result.durability_drain_ns > 0, Fault::MissingDrain)
            } else {
                faults::unless(result.durability_drain_ns == 0, Fault::UnexpectedDrain)
            },
        ],
    )
}

fn check_intervals(result: &WorkloadResult) -> (r: Option<Fault>)
    ensures
        r == intervals_fault(result),
{
    let covered: u64 = plus(result.client_measurement_ns, result.durability_drain_ns);
    let drain: Option<Fault> = if result.task.may_write() {
        fault_unless(result.durability_drain_ns > 0, Fault::MissingDrain)
    } else {
        fault_unless(result.durability_drain_ns == 0, Fault::UnexpectedDrain)
    };
    let faults: Vec<Option<Fault>> = vec![
        fault_unless(result.recorded_interval_ns >= covered, Fault::IntervalTooShort),
        fault_unless(result.recorded_interval_ns > 0, Fault::EmptyInterval),
        drain,
    ];
    assert(faults@ =~= seq![
        faults::unless(result.recorded_interval_ns >= covered, Fault::IntervalTooShort),
        faults::unless(result.recorded_interval_ns > 0, Fault::EmptyInterval),
        drain,
    ]);
    first_listed(&faults)
}

/// What is wrong with the result of a workload, given whether its timestamp can be read.
pub open spec fn workload_fault(
    result: &WorkloadResult,
    verdicts: &AverageVerdicts,
    timestamp: bool,
) -> Option<Fault> {
    faults::first_of(
        seq![
            faults::unless(result.status@ == "ok"@, Fault::StatusNotOk),
            faults::unless(!result.task.prepares(), Fault::WrongKindOfTask),
            faults::unless(result.golden_id@.len() > 0, Fault::NoGoldenId),
            faults::unless(result.session@.len() > 0, Fault::NoSession),
            faults::unless(timestamp, Fault::InvalidTimestamp),
            source_fault(result.source),
            configuration_fault(result.configuration, result.task),
            environment_fault(result.environment),
            intervals_fault(result),
            initial_state_fault(result),
            recorded_metrics_fault(
                result.recorded_interval_ns,
                &result.application,
                &result.object_store,
                result.process,
                result.machine,
                verdicts,
            ),
            application_rows_fault(result.task, &result.application),
        ],
    )
}

/// Checks the result of a workload, given whether its timestamp can be read.
pub fn check_workload_result(
    result: &WorkloadResult,
    verdicts: &AverageVerdicts,
    timestamp: bool,
) -> (r: Result<(), Fault>)
    requires
        result.application.wf(),
        result.object_store.wf(),
        verdicts.wf(),
    ensures
        workload_fault(result, verdicts, timestamp) matches Some(fault) ==> r == Err::<(), Fault>(
            fault,
        ),
        workload_fault(result, verdicts, timestamp) is None ==> r == Ok::<(), Fault>(()),
{
    let rows: Option<Fault> = if result.task.is_preparation() {
        None
    } else {
        check_application_rows(result.task, &result.application)
    };
    let faults: Vec<Option<Fault>> = vec![
        fault_unless(same_text(result.status.as_str(), "ok"), Fault::StatusNotOk),
        fault_unless(!result.task.is_preparation(), Fault::WrongKindOfTask),
        fault_unless(!result.golden_id.as_str().is_empty(), Fault::NoGoldenId),
        fault_unless(!result.session.as_str().is_empty(), Fault::NoSession),
        fault_unless(timestamp, Fault::InvalidTimestamp),
        check_source(&result.source),
        check_configuration(&result.configuration, result.task),
        check_environment(&result.environment),
        check_intervals(result),
        check_initial_state(result),
        check_recorded_metrics(
            result.recorded_interval_ns,
            &result.application,
            &result.object_store,
            &result.process,
            &result.machine,
            verdicts,
        ),
        rows,
    ];
    let ghost expected = seq![
        faults::unless(result.status@ == "ok"@, Fault::StatusNotOk),
        faults::unless(!result.task.prepares(), Fault::WrongKindOfTask),
        faults::unless(result.golden_id@.len() > 0, Fault::NoGoldenId),
        faults::unless(result.session@.len() > 0, Fault::NoSession),
        faults::unless(timestamp, Fault::InvalidTimestamp),
        source_fault(result.source),
        configuration_fault(result.configuration, result.task),
        environment_fault(result.environment),
        intervals_fault(result),
        initial_state_fault(result),
        recorded_metrics_fault(
            result.recorded_interval_ns,
            &result.application,
            &result.object_store,
            result.process,
            result.machine,
            verdicts,
        ),
        application_rows_fault(result.task, &result.application),
    ];
    proof {
        if result.task.prepares() {
            assert(expected[1] is Some && faults@[1] is Some);
            assert(faults@.take(2) =~= expected.take(2));
            faults::later_checks_do_not_matter(faults@, expected, 1);
        } else {
            assert(faults@ =~= expected);
        }
    }
    match first_listed(&faults) {
        Some(fault) => Err(fault),
        None => Ok(()),
    }
}

/// Checks the result of a workload.
pub fn validate_workload_result(result: &WorkloadResult, verdicts: &AverageVerdicts) -> (r: Result<
    (),
    Fault,
>)
    requires
        result.application.wf(),
        result.object_store.wf(),
        verdicts.wf(),
    ensures
        ({
            let fault = workload_fault(result, verdicts, is_rfc3339(result.timestamp@));
            &&& fault is Some ==> r == Err::<(), Fault>(fault->0)
            &&& fault is None ==> r == Ok::<(), Fault>(())
        }),
{
    check_workload_result(result, verdicts, parses_as_rfc3339(result.timestamp.as_str()))
}

/// What is wrong with the manifest of a golden dataset.
pub open spec fn golden_fault(
    golden: &GoldenManifest,
    timestamp: bool,
    checkpoint: bool,
) -> Option<Fault> {
    faults::first_of(
        seq![
            faults::unless(golden.status@ == "ok"@, Fault::StatusNotOk),
            faults::unless(golden.configuration.task.task.prepares(), Fault::WrongKindOfTask),
            faults::unless(golden.golden_id@.len() > 0, Fault::NoGoldenId),
            faults::unless(timestamp, Fault::InvalidTimestamp),
            source_fault(golden.source),
            configuration_fault(golden.configuration, golden.configuration.task.task),
            environment_fault(golden.environment),
            dataset_fault(golden.dataset, golden.checkpoint, checkpoint),
            faults::unless(
                same_shape(golden.configuration.dataset, golden.dataset),
                Fault::DatasetDiffers,
            ),
        ],
    )
}

/// Checks the manifest of a golden dataset, given whether its timestamp can be read and its
/// checkpoint has a UUID.
pub fn check_golden_manifest(golden: &GoldenManifest, timestamp: bool, checkpoint: bool) -> (r:
    Result<(), Fault>)
    ensures
        golden_fault(golden, timestamp, checkpoint) matches Some(fault) ==> r == Err::<(), Fault>(
            fault,
        ),
        golden_fault(golden, timestamp, checkpoint) is None ==> r == Ok::<(), Fault>(()),
{
    let task = golden.configuration.task.task;
    let faults: Vec<Option<Fault>> = vec![
        fault_unless(same_text(golden.status.as_str(), "ok"), Fault::StatusNotOk),
        fault_unless(task.is_preparation(), Fault::WrongKindOfTask),
        fault_unless(!golden.golden_id.as_str().is_empty(), Fault::NoGoldenId),
        fault_unless(timestamp, Fault::InvalidTimestamp),
        check_source(&golden.source),
        check_configuration(&golden.configuration, task),
        check_environment(&golden.environment),
        check_dataset(&golden.dataset, &golden.checkpoint, checkpoint),
        fault_unless(
            has_shape(&golden.configuration.dataset, &golden.dataset),
            Fault::DatasetDiffers,
        ),
    ];
    assert(faults@ =~= seq![
        faults::unless(golden.status@ == "ok"@, Fault::StatusNotOk),
        faults::unless(golden.configuration.task.task.prepares(), Fault::WrongKindOfTask),
        faults::unless(golden.golden_id@.len() > 0, Fault::NoGoldenId),
        faults::unless(timestamp, Fault::InvalidTimestamp),
        source_fault(golden.source),
        configuration_fault(golden.configuration, golden.configuration.task.task),
        environment_fault(golden.environment),
        dataset_fault(golden.dataset, golden.checkpoint, checkpoint),
        faults::unless(same_shape(golden.configuration.dataset, golden.dataset), Fault::DatasetDiffers),
    ]);
    match first_listed(&faults) {
        Some(fault) => Err(fault),
        None => Ok(()),
    }
}

/// Checks the manifest of a golden dataset.
pub fn validate_golden_manifest(golden: &GoldenManifest) -> (r: Result<(), Fault>)
    ensures
        ({
            let fault = golden_fault(
                golden,
                is_rfc3339(golden.timestamp@),
                is_uuid(golden.checkpoint.checkpoint_id@),
            );
            &&& fault is Some ==> r == Err::<(), Fault>(fault->0)
            &&& fault is None ==> r == Ok::<(), Fault>(())
        }),
{
    check_golden_manifest(
        golden,
        parses_as_rfc3339(golden.timestamp.as_str()),
        parses_as_uuid(golden.checkpoint.checkpoint_id.as_str()),
    )
}

/// A distribution that was summarized from values that are not negative is valid, where its mean is
/// finite and not negative.
pub proof fn summaries_are_valid(
    d: DistributionSummary,
    values: Seq<u64>,
    mean: u64,
)
    requires
        crate::system::summarizes(d, values, mean),
        bits::is_plain(d.avg),
        forall|i: int|
            0 <= i < values.len() && bits::is_finite(#[trigger] values[i]) ==> bits::is_plain(
                values[i],
            ),
    ensures
        distribution_fault(d) is None,
{
    crate::system::summaries_rise(d, values, mean);
    let ordered = seq![d.min, d.p50, d.p95, d.p99, d.p999, d.max];
    assert forall|i: int| 0 < i < ordered.len() implies bits::at_most(
        ordered[i - 1],
        #[trigger] ordered[i],
    ) by {
        assert(i == 1 || i == 2 || i == 3 || i == 4 || i == 5);
    }
}

/// The digest of a histogram with observations is a valid latency, where its mean in nanoseconds is
/// finite and not negative.
pub proof fn digests_are_valid(
    summary: LatencySummary,
    digest: crate::histogram::LatencyDigest,
    avg_ns: u64,
)
    requires
        summary.publishes(digest, avg_ns),
        digest.count > 0,
        crate::histogram::digest_rises(digest),
        bits::is_plain(avg_ns),
    ensures
        latency_fault(summary) is None,
{
}

/// A workload result without faults counts one durable write for each accepted put, or at most one
/// for each committed transaction.
pub proof fn valid_results_account_for_durability(
    result: &WorkloadResult,
    verdicts: &AverageVerdicts,
    timestamp: bool,
)
    requires
        workload_fault(result, verdicts, timestamp) is None,
        result.task.writes(),
    ensures
        result.durability_drain_ns > 0,
        result.application.operations.at("flush"@).total == 1,
        result.task != Task::TransactionContention ==> result.application.latency.at(
            "durable"@,
        ).count == result.application.operations.at("put"@).total,
        result.task == Task::TransactionContention ==> result.application.latency.at(
            "durable"@,
        ).count <= result.application.operations.at("transaction.commit"@).total,
{
    let faults = seq![
        faults::unless(result.status@ == "ok"@, Fault::StatusNotOk),
        faults::unless(!result.task.prepares(), Fault::WrongKindOfTask),
        faults::unless(result.golden_id@.len() > 0, Fault::NoGoldenId),
        faults::unless(result.session@.len() > 0, Fault::NoSession),
        faults::unless(timestamp, Fault::InvalidTimestamp),
        source_fault(result.source),
        configuration_fault(result.configuration, result.task),
        environment_fault(result.environment),
        intervals_fault(result),
        initial_state_fault(result),
        recorded_metrics_fault(
            result.recorded_interval_ns,
            &result.application,
            &result.object_store,
            result.process,
            result.machine,
            verdicts,
        ),
        application_rows_fault(result.task, &result.application),
    ];
    faults::none_found(faults, 8);
    faults::none_found(faults, 11);
    let intervals = seq![
        faults::unless(
            result.recorded_interval_ns >= count::capped_sum(
                result.client_measurement_ns,
                result.durability_drain_ns,
            ),
            Fault::IntervalTooShort,
        ),
        faults::unless(result.recorded_interval_ns > 0, Fault::EmptyInterval),
        faults::unless(result.durability_drain_ns > 0, Fault::MissingDrain),
    ];
    assert(faults::first_of(intervals) == intervals_fault(result));
    faults::none_found(intervals, 2);
}

proof fn seven_are_plain(a: u64, b: u64, c: u64, d: u64, e: u64, f: u64, g: u64)
    ensures
        nonnegative_fault(seq![a, b, c, d, e, f, g]) is None <==> {
            &&& bits::is_plain(a)
            &&& bits::is_plain(b)
            &&& bits::is_plain(c)
            &&& bits::is_plain(d)
            &&& bits::is_plain(e)
            &&& bits::is_plain(f)
            &&& bits::is_plain(g)
        },
{
    let values = seq![a, b, c, d, e, f, g];
    if all_plain(values) {
        assert(bits::is_plain(values[0]) && bits::is_plain(values[1]) && bits::is_plain(values[2])
            && bits::is_plain(values[3]) && bits::is_plain(values[4]) && bits::is_plain(values[5])
            && bits::is_plain(values[6]));
    }
}

proof fn six_in_order(a: u64, b: u64, c: u64, d: u64, e: u64, f: u64)
    ensures
        ordered_fault(seq![a, b, c, d, e, f]) is None <==> {
            &&& bits::is_plain(a)
            &&& bits::is_plain(b)
            &&& bits::is_plain(c)
            &&& bits::is_plain(d)
            &&& bits::is_plain(e)
            &&& bits::is_plain(f)
            &&& bits::at_most(a, b)
            &&& bits::at_most(b, c)
            &&& bits::at_most(c, d)
            &&& bits::at_most(d, e)
            &&& bits::at_most(e, f)
        },
{
    let values = seq![a, b, c, d, e, f];
    if ordered_fault(values) is None {
        assert(bits::is_plain(values[0]) && bits::is_plain(values[1]) && bits::is_plain(values[2])
            && bits::is_plain(values[3]) && bits::is_plain(values[4]) && bits::is_plain(values[5]));
        assert(bits::at_most(values[0], values[1]) && bits::at_most(values[1], values[2])
            && bits::at_most(values[2], values[3]) && bits::at_most(values[3], values[4])
            && bits::at_most(values[4], values[5]));
    } else {
        assert forall|i: int|
            {
                &&& 0 < i < values.len()
                &&& bits::at_most(a, b)
                &&& bits::at_most(b, c)
                &&& bits::at_most(c, d)
                &&& bits::at_most(d, e)
                &&& bits::at_most(e, f)
            } implies bits::at_most(values[i - 1], #[trigger] values[i]) by {
            assert(i == 1 || i == 2 || i == 3 || i == 4 || i == 5);
        }
    }
}

/// A rate is accepted exactly where it counts something, no value is negative or infinite, and its
/// percentiles rise from the minimum to the maximum.
pub proof fn rates_are_accepted_in_order(s: RateSummary)
    ensures
        rate_fault(s) is None <==> {
            &&& s.total > 0
            &&& bits::is_plain(s.avg_per_second)
            &&& bits::is_plain(s.min_per_second)
            &&& bits::is_plain(s.p50_per_second)
            &&& bits::is_plain(s.p95_per_second)
            &&& bits::is_plain(s.p99_per_second)
            &&& bits::is_plain(s.p999_per_second)
            &&& bits::is_plain(s.max_per_second)
            &&& bits::at_most(s.min_per_second, s.p50_per_second)
            &&& bits::at_most(s.p50_per_second, s.p95_per_second)
            &&& bits::at_most(s.p95_per_second, s.p99_per_second)
            &&& bits::at_most(s.p99_per_second, s.p999_per_second)
            &&& bits::at_most(s.p999_per_second, s.max_per_second)
        },
{
    six_in_order(
        s.min_per_second,
        s.p50_per_second,
        s.p95_per_second,
        s.p99_per_second,
        s.p999_per_second,
        s.max_per_second,
    );
    seven_are_plain(
        s.avg_per_second,
        s.p50_per_second, s.p95_per_second, s.p99_per_second, s.p999_per_second,
        s.min_per_second,
        s.max_per_second,
    );
    if rate_fault(s) is None {
        assert(bits::is_plain(s.avg_per_second));
    }
}

/// A throughput is accepted exactly where it counts bytes, no value is negative or infinite, and
/// its percentiles rise from the minimum to the maximum.
pub proof fn throughputs_are_accepted_in_order(s: ThroughputSummary)
    ensures
        throughput_fault(s) is None <==> {
            &&& s.total_bytes > 0
            &&& bits::is_plain(s.avg_bytes_per_second)
            &&& bits::is_plain(s.min_bytes_per_second)
            &&& bits::is_plain(s.p50_bytes_per_second)
            &&& bits::is_plain(s.p95_bytes_per_second)
            &&& bits::is_plain(s.p99_bytes_per_second)
            &&& bits::is_plain(s.p999_bytes_per_second)
            &&& bits::is_plain(s.max_bytes_per_second)
            &&& bits::at_most(s.min_bytes_per_second, s.p50_bytes_per_second)
            &&& bits::at_most(s.p50_bytes_per_second, s.p95_bytes_per_second)
            &&& bits::at_most(s.p95_bytes_per_second, s.p99_bytes_per_second)
            &&& bits::at_most(s.p99_bytes_per_second, s.p999_bytes_per_second)
            &&& bits::at_most(s.p999_bytes_per_second, s.max_bytes_per_second)
        },
{
    six_in_order(
        s.min_bytes_per_second,
        s.p50_bytes_per_second,
        s.p95_bytes_per_second,
        s.p99_bytes_per_second,
        s.p999_bytes_per_second,
        s.max_bytes_per_second,
    );
    seven_are_plain(
        s.avg_bytes_per_second,
        s.p50_bytes_per_second,
        s.p95_bytes_per_second,
        s.p99_bytes_per_second,
        s.p999_bytes_per_second,
        s.min_bytes_per_second,
        s.max_bytes_per_second,
    );
    if throughput_fault(s) is None {
        assert(bits::is_plain(s.avg_bytes_per_second));
    }
}

/// A distribution is accepted exactly where no value is negative or infinite and its percentiles
/// rise from the minimum to the maximum.
pub proof fn distributions_are_accepted_in_order(s: DistributionSummary)
    ensures
        distribution_fault(s) is None <==> {
            &&& bits::is_plain(s.avg)
            &&& bits::is_plain(s.min)
            &&& bits::is_plain(s.p50)
            &&& bits::is_plain(s.p95)
            &&& bits::is_plain(s.p99)
            &&& bits::is_plain(s.p999)
            &&& bits::is_plain(s.max)
            &&& bits::at_most(s.min, s.p50)
            &&& bits::at_most(s.p50, s.p95)
            &&& bits::at_most(s.p95, s.p99)
            &&& bits::at_most(s.p99, s.p999)
            &&& bits::at_most(s.p999, s.max)
        },
{
    six_in_order(s.min, s.p50, s.p95, s.p99, s.p999, s.max);
    seven_are_plain(
        s.avg,
        s.p50, s.p95, s.p99, s.p999,
        s.min,
        s.max,
    );
    if bits::at_most(s.min, s.p50) && bits::at_most(s.p50, s.p95) && bits::at_most(s.p95, s.p99)
        && bits::at_most(s.p99, s.p999) && bits::at_most(s.p999, s.max) {
        assert(bits::at_most(s.min, s.max));
    }
    if distribution_fault(s) is None {
        assert(bits::is_plain(s.avg));
    }
}

/// A latency is accepted exactly where it has observations, its mean is not negative or infinite,
/// and its percentiles rise from the minimum to the maximum.
pub proof fn latencies_are_accepted_in_order(s: LatencySummary)
    ensures
        latency_fault(s) is None <==> {
            &&& s.count > 0
            &&& bits::is_plain(s.avg_ns)
            &&& s.min_ns <= s.p50_ns <= s.p95_ns <= s.p99_ns <= s.p999_ns <= s.max_ns
        },
{
}

/// Metrics are accepted only where every operation counts calls, has as many latencies as calls and
/// a mean rate that agrees, every throughput belongs to an operation, and every latency belongs to
/// an operation or to durability.
pub proof fn accepted_metrics_agree(
    recorded_interval_ns: u64,
    application: &ApplicationMetrics,
    object_store: &ObjectStoreMetrics,
    process: ProcessStatistics,
    machine: MachineStatistics,
    verdicts: &AverageVerdicts,
    i: int,
)
    requires
        recorded_metrics_fault(
            recorded_interval_ns,
            application,
            object_store,
            process,
            machine,
            verdicts,
        ) is None,
    ensures
        recorded_interval_ns > 0,
        0 <= i < application.operations.names().len() ==> {
            let name = application.operations.names()[i];
            let row = application.operations.values()[i];
            &&& name.len() > 0
            &&& row.total > 0
            &&& rate_fault(row) is None
            &&& application.latency.has(name)
            &&& application.latency.at(name).count == row.total
            &&& latency_fault(application.latency.at(name)) is None
            &&& verdicts.operations.has(name) && verdicts.operations.at(name)
        },
        0 <= i < application.throughput.names().len() ==> {
            let name = application.throughput.names()[i];
            let row = application.throughput.values()[i];
            &&& application.operations.has(name)
            &&& row.total_bytes > 0
            &&& throughput_fault(row) is None
            &&& verdicts.throughput.has(name) && verdicts.throughput.at(name)
        },
        0 <= i < application.latency.names().len() ==> {
            let name = application.latency.names()[i];
            &&& latency_fault(application.latency.values()[i]) is None
            &&& name == "durable"@ || application.operations.has(name)
        },
        0 <= i < object_store.requests.names().len() ==> {
            let name = object_store.requests.names()[i];
            &&& name == "GET"@ || name == "PUT"@ || name == "HEAD"@ || name == "DELETE"@ || name
                == "POST"@ || name == "OTHER"@
            &&& rate_fault(object_store.requests.values()[i]) is None
            &&& verdicts.requests.has(name) && verdicts.requests.at(name)
        },
        0 <= i < object_store.throughput.names().len() ==> {
            let name = object_store.throughput.names()[i];
            &&& object_store.requests.has(name)
            &&& throughput_fault(object_store.throughput.values()[i]) is None
            &&& verdicts.transfers.has(name) && verdicts.transfers.at(name)
        },
        distribution_fault(process.cpu_cores) is None,
        distribution_fault(process.rss_bytes) is None,
        distribution_fault(machine.cpu_percent) is None,
        distribution_fault(machine.rss_bytes) is None,
        distribution_fault(machine.network_receive_bytes_per_second) is None,
        distribution_fault(machine.network_send_bytes_per_second) is None,
        distribution_fault(machine.disk_read_bytes_per_second) is None,
        distribution_fault(machine.disk_write_bytes_per_second) is None,
        distribution_fault(machine.disk_read_operations_per_second) is None,
        distribution_fault(machine.disk_write_operations_per_second) is None,
{
    let resources = resource_distributions(process, machine).map_values(
        |s: DistributionSummary| distribution_fault(s),
    );
    let checks = seq![
        faults::unless(recorded_interval_ns > 0, Fault::EmptyInterval),
        operation_rows_fault(application, verdicts),
        throughput_rows_fault(application, verdicts),
        latency_rows_fault(application, verdicts),
        request_rows_fault(object_store, verdicts),
        transfer_rows_fault(object_store, verdicts),
        faults::first_of(resources),
    ];
    faults::rows_pass_where_every_check_does(checks);
    assert(checks[0] is None && checks[1] is None && checks[2] is None && checks[3] is None
        && checks[4] is None && checks[5] is None && checks[6] is None);
    faults::rows_pass_where_every_check_does(resources);
    assert(resources[0] is None && resources[1] is None && resources[2] is None && resources[3]
        is None && resources[4] is None && resources[5] is None && resources[6] is None
        && resources[7] is None && resources[8] is None && resources[9] is None);
    let operations = Seq::new(
        application.operations.names().len(),
        |i: int| operation_row_fault(application, verdicts, i),
    );
    let throughputs = Seq::new(
        application.throughput.names().len(),
        |i: int| throughput_row_fault(application, verdicts, i),
    );
    let latencies = Seq::new(
        application.latency.names().len(),
        |i: int| latency_row_fault(application, verdicts, i),
    );
    let requests = Seq::new(
        object_store.requests.names().len(),
        |i: int| request_row_fault(object_store, verdicts, i),
    );
    let transfers = Seq::new(
        object_store.throughput.names().len(),
        |i: int| transfer_row_fault(object_store, verdicts, i),
    );
    faults::rows_pass_where_every_check_does(operations);
    faults::rows_pass_where_every_check_does(throughputs);
    faults::rows_pass_where_every_check_does(latencies);
    faults::rows_pass_where_every_check_does(requests);
    faults::rows_pass_where_every_check_does(transfers);
    if 0 <= i < operations.len() {
        assert(operations[i] is None);
    }
    if 0 <= i < throughputs.len() {
        assert(throughputs[i] is None);
    }
    if 0 <= i < latencies.len() {
        assert(latencies[i] is None);
    }
    if 0 <= i < requests.len() {
        assert(requests[i] is None);
    }
    if 0 <= i < transfers.len() {
        assert(transfers[i] is None);
    }
}

/// A source is accepted exactly where both versions, both commits and the digest of the lock file
/// are given, and an environment exactly where it has cores, memory and every name.
pub proof fn identities_are_complete(source: SourceIdentity, e: Environment)
    ensures
        source_fault(source) is None <==> {
            &&& source.slate_version@.len() > 0
            &&& source.slate_commit@.len() > 0
            &&& source.runner_version@.len() > 0
            &&& source.runner_commit@.len() > 0
            &&& source.lockfile_sha256@.len() > 0
        },
        environment_fault(e) is None <==> {
            &&& e.cpu_cores > 0
            &&& e.ram_bytes > 0
            &&& e.runner_type@.len() > 0
            &&& e.hostname@.len() > 0
            &&& e.cpu_model@.len() > 0
            &&& e.os@.len() > 0
            &&& e.kernel@.len() > 0
            &&& e.object_store@.len() > 0
            &&& e.endpoint@.len() > 0
            &&& e.region@.len() > 0
        },
{
    let named = e.runner_type@.len() > 0 && e.hostname@.len() > 0 && e.cpu_model@.len() > 0
        && e.os@.len() > 0 && e.kernel@.len() > 0 && e.object_store@.len() > 0 && e.endpoint@.len()
        > 0 && e.region@.len() > 0;
    let checks = seq![
        faults::unless(e.cpu_cores > 0, Fault::NoCpuCores),
        faults::unless(e.ram_bytes > 0, Fault::NoRam),
        faults::unless(named, Fault::MissingEnvironmentField),
    ];
    faults::rows_pass_where_every_check_does(checks);
    assert(environment_fault(e) == faults::first_of(checks));
    if environment_fault(e) is None {
        assert(checks[0] is None && checks[1] is None && checks[2] is None);
    }
}

/// A configuration is accepted exactly where it is the task's, has a valid scale, records, sizes
/// and caches, a table of settings, a known build, and no feature twice.
pub proof fn configurations_are_complete(c: ResultConfiguration, task: Task)
    ensures
        configuration_fault(c, task) is None <==> {
            &&& c.task.task == task
            &&& crate::config::scale_is_valid(c.scale)
            &&& c.dataset.record_count > 0
            &&& c.dataset.key_bytes > 0
            &&& c.dataset.value_bytes > 0
            &&& c.caches.block_bytes > 0
            &&& c.caches.metadata_bytes > 0
            &&& c.settings_are_table
            &&& c.build_profile@ == "debug"@ || c.build_profile@ == "release"@
            &&& forall|i: int, j: int|
                0 <= i < j < c.enabled_features@.len() ==> (#[trigger] c.enabled_features@[i])@
                    != (#[trigger] c.enabled_features@[j])@
        },
{
    let checks = seq![
        faults::unless(c.task.task == task, Fault::ForeignConfiguration),
        faults::unless(crate::config::scale_is_valid(c.scale), Fault::InvalidScale),
        faults::unless(c.dataset.record_count > 0, Fault::NoRecords),
        faults::unless(c.dataset.key_bytes > 0, Fault::NoKeyBytes),
        faults::unless(c.dataset.value_bytes > 0, Fault::NoValueBytes),
        faults::unless(c.caches.block_bytes > 0, Fault::NoBlockCache),
        faults::unless(c.caches.metadata_bytes > 0, Fault::NoMetadataCache),
        faults::unless(c.settings_are_table, Fault::SettingsNotATable),
        faults::unless(
            c.build_profile@ == "debug"@ || c.build_profile@ == "release"@,
            Fault::UnknownBuildProfile,
        ),
        faults::unless(all_distinct(text::texts(c.enabled_features@)), Fault::DuplicateFeatures),
    ];
    faults::rows_pass_where_every_check_does(checks);
    assert(configuration_fault(c, task) == faults::first_of(checks));
    if configuration_fault(c, task) is None {
        assert(checks[0] is None && checks[1] is None && checks[2] is None && checks[3] is None
            && checks[4] is None && checks[5] is None && checks[6] is None && checks[7] is None
            && checks[8] is None && checks[9] is None);
    }
    let features = text::texts(c.enabled_features@);
    if all_distinct(features) {
        assert forall|i: int, j: int| 0 <= i < j < c.enabled_features@.len() implies (
        #[trigger] c.enabled_features@[i])@ != (#[trigger] c.enabled_features@[j])@ by {
            assert(features[i] != features[j]);
        }
    }
}

/// A checkpoint is accepted exactly where it has a path, an identifier that reads as one, and a
/// digest of sixty-four lower-case hexadecimal digits.
pub proof fn checkpoints_are_complete(c: CheckpointReference, id_is_uuid: bool)
    ensures
        checkpoint_fault(c, id_is_uuid) is None <==> {
            &&& c.database_path@.len() > 0
            &&& c.checkpoint_id@.len() > 0
            &&& id_is_uuid
            &&& c.lsm_digest_sha256@.len() == 64
            &&& forall|i: int|
                0 <= i < 64 ==> {
                    let d = #[trigger] c.lsm_digest_sha256@[i];
                    ('0' <= d && d <= '9') || ('a' <= d && d <= 'f')
                }
        },
{
    let checks = seq![
        faults::unless(c.database_path@.len() > 0, Fault::NoCheckpointPath),
        faults::unless(c.checkpoint_id@.len() > 0, Fault::NoCheckpointId),
        faults::unless(id_is_uuid, Fault::InvalidCheckpointId),
        faults::unless(is_digest(c.lsm_digest_sha256@), Fault::InvalidDigest),
    ];
    faults::rows_pass_where_every_check_does(checks);
    assert(checkpoint_fault(c, id_is_uuid) == faults::first_of(checks));
    if checkpoint_fault(c, id_is_uuid) is None {
        assert(checks[0] is None && checks[1] is None && checks[2] is None && checks[3] is None);
    }
    if is_digest(c.lsm_digest_sha256@) {
        assert forall|i: int| 0 <= i < 64 implies ({
            let d = #[trigger] c.lsm_digest_sha256@[i];
            ('0' <= d && d <= '9') || ('a' <= d && d <= 'f')
        }) by {
            assert(is_lower_hex(c.lsm_digest_sha256@[i]));
        }
    }
}

/// A golden dataset is accepted exactly where its logical size is that of all its records, its
/// checkpoint is complete, and the size of its tables is that of the checkpoint.
pub proof fn datasets_are_consistent(
    dataset: GoldenDatasetMetadata,
    checkpoint: CheckpointReference,
    id_is_uuid: bool,
)
    requires
        dataset.key_bytes + dataset.value_bytes <= usize::MAX,
        dataset.record_count * (dataset.key_bytes + dataset.value_bytes) <= u64::MAX,
    ensures
        dataset_fault(dataset, checkpoint, id_is_uuid) is None <==> {
            &&& dataset.record_count > 0
            &&& dataset.key_bytes > 0
            &&& dataset.value_bytes > 0
            &&& dataset.logical_bytes == dataset.record_count * (dataset.key_bytes
                + dataset.value_bytes)
            &&& checkpoint_fault(checkpoint, id_is_uuid) is None
            &&& checkpoint.live_sst_bytes > 0
            &&& dataset.live_sst_bytes == checkpoint.live_sst_bytes
        },
{
    let checks = seq![
        faults::unless(dataset.record_count > 0, Fault::NoRecords),
        faults::unless(dataset.key_bytes > 0, Fault::NoKeyBytes),
        faults::unless(dataset.value_bytes > 0, Fault::NoValueBytes),
        faults::unless(
            dataset.logical_bytes == count::capped_product(
                dataset.record_count,
                crate::workloads::closed::pair_bytes(dataset.key_bytes, dataset.value_bytes),
            ),
            Fault::LogicalBytesDiffer,
        ),
        checkpoint_fault(checkpoint, id_is_uuid),
        faults::unless(checkpoint.live_sst_bytes > 0, Fault::NoSstData),
        faults::unless(dataset.live_sst_bytes == checkpoint.live_sst_bytes, Fault::SstBytesDiffer),
    ];
    faults::rows_pass_where_every_check_does(checks);
    assert(dataset_fault(dataset, checkpoint, id_is_uuid) == faults::first_of(checks));
    if dataset_fault(dataset, checkpoint, id_is_uuid) is None {
        assert(checks[0] is None && checks[1] is None && checks[2] is None && checks[3] is None
            && checks[4] is None && checks[5] is None && checks[6] is None);
    }
}

/// The operations that a workload must report are those that its clients call, with a flush and
/// durable latencies where it writes.
pub proof fn reports_name_the_calls_of_their_workload(task: Task, name: Seq<char>)
    ensures
        task == Task::PointReadUniform || task == Task::PointReadSkewed || task
            == Task::PointReadMissing ==> (expected_rows(task).contains(name) <==> name == "get"@)
            && expected_latencies(task) == expected_rows(task),
        task == Task::ReadHeavy || task == Task::Balanced || task == Task::UpdateHeavy ==> {
            &&& expected_rows(task).contains(name) <==> name == "get"@ || name == "put"@ || name
                == "flush"@
            &&& expected_latencies(task).contains(name) <==> name == "get"@ || name == "put"@
                || name == "flush"@ || name == "durable"@
        },
        task == Task::RangeScan ==> (expected_rows(task).contains(name) <==> name == "scan"@)
            && expected_latencies(task) == expected_rows(task),
        task == Task::SustainedIngest ==> {
            &&& expected_rows(task).contains(name) <==> name == "put"@ || name == "flush"@
            &&& expected_latencies(task).contains(name) <==> name == "put"@ || name == "flush"@
                || name == "durable"@
        },
        task == Task::TransactionContention ==> {
            &&& expected_rows(task).contains(name) <==> name == "transaction.get"@ || name
                == "transaction.put"@ || name == "transaction.commit"@ || name == "flush"@
            &&& expected_latencies(task).contains(name) <==> name == "transaction.get"@ || name
                == "transaction.put"@ || name == "transaction.commit"@ || name == "flush"@ || name
                == "durable"@
        },
        task == Task::Idle ==> !expected_rows(task).contains(name) && !expected_latencies(
            task,
        ).contains(name),
{
    let rows = expected_rows(task);
    let latencies = expected_latencies(task);
    if rows.len() > 0 {
        assert(rows.contains(rows[0]));
    }
    if rows.len() > 1 {
        assert(rows.contains(rows[1]));
    }
    if rows.len() > 2 {
        assert(rows.contains(rows[2]));
    }
    if rows.len() > 3 {
        assert(rows.contains(rows[3]));
    }
    if latencies.len() > 0 {
        assert(latencies.contains(latencies[0]));
        assert(latencies.contains(latencies[latencies.len() - 1]));
    }
    if latencies.len() > 1 {
        assert(latencies.contains(latencies[1]));
    }
    if latencies.len() > 2 {
        assert(latencies.contains(latencies[2]));
    }
    if latencies.len() > 3 {
        assert(latencies.contains(latencies[3]));
    }
}

/// A workload result is accepted only where it succeeded, names its run, took at least as long as
/// its parts, drained exactly where it writes, and started from the state of its task.
pub proof fn accepted_workloads_are_sound(
    result: &WorkloadResult,
    verdicts: &AverageVerdicts,
    timestamp: bool,
)
    requires
        workload_fault(result, verdicts, timestamp) is None,
    ensures
        result.status@ == "ok"@,
        result.task != Task::BulkLoad && result.task != Task::Compaction,
        result.golden_id@.len() > 0,
        result.session@.len() > 0,
        timestamp,
        source_fault(result.source) is None,
        configuration_fault(result.configuration, result.task) is None,
        environment_fault(result.environment) is None,
        result.recorded_interval_ns > 0,
        result.client_measurement_ns + result.durability_drain_ns <= u64::MAX
            ==> result.recorded_interval_ns >= result.client_measurement_ns
            + result.durability_drain_ns,
        result.durability_drain_ns > 0 <==> (result.task == Task::ReadHeavy || result.task
            == Task::Balanced || result.task == Task::UpdateHeavy || result.task
            == Task::SustainedIngest || result.task == Task::TransactionContention),
        result.task == Task::SustainedIngest ==> result.initial_state.kind@ == "empty"@
            && result.initial_state.checkpoint_id is None && result.initial_state.manifest_id
            is None,
        result.task != Task::SustainedIngest ==> result.initial_state.kind@ == "golden"@
            && result.initial_state.checkpoint_id is Some && result.initial_state.manifest_id
            is Some,
        is_digest(result.initial_state.lsm_digest_sha256@),
        recorded_metrics_fault(
            result.recorded_interval_ns,
            &result.application,
            &result.object_store,
            result.process,
            result.machine,
            verdicts,
        ) is None,
        forall|name: Seq<char>| #[trigger]
            result.application.operations.has(name) <==> expected_rows(result.task).contains(name),
        forall|name: Seq<char>| #[trigger]
            result.application.latency.has(name) <==> expected_latencies(result.task).contains(
                name,
            ),
        result.task == Task::TransactionContention ==> {
            let commits = result.application.operations.at("transaction.commit"@).total;
            commits * 5 <= u64::MAX ==> result.application.operations.at("transaction.get"@).total
                == 5 * commits && result.application.operations.at("transaction.put"@).total == 5
                * commits
        },
{
    let checks = seq![
        faults::unless(result.status@ == "ok"@, Fault::StatusNotOk),
        faults::unless(!result.task.prepares(), Fault::WrongKindOfTask),
        faults::unless(result.golden_id@.len() > 0, Fault::NoGoldenId),
        faults::unless(result.session@.len() > 0, Fault::NoSession),
        faults::unless(timestamp, Fault::InvalidTimestamp),
        source_fault(result.source),
        configuration_fault(result.configuration, result.task),
        environment_fault(result.environment),
        intervals_fault(result),
        initial_state_fault(result),
        recorded_metrics_fault(
            result.recorded_interval_ns,
            &result.application,
            &result.object_store,
            result.process,
            result.machine,
            verdicts,
        ),
        application_rows_fault(result.task, &result.application),
    ];
    assert(workload_fault(result, verdicts, timestamp) == faults::first_of(checks));
    faults::rows_pass_where_every_check_does(checks);
    assert(checks[0] is None && checks[1] is None && checks[2] is None && checks[3] is None
        && checks[4] is None && checks[5] is None && checks[6] is None && checks[7] is None
        && checks[8] is None && checks[9] is None && checks[10] is None && checks[11] is None);
    let intervals = seq![
        faults::unless(
            result.recorded_interval_ns >= count::capped_sum(
                result.client_measurement_ns,
                result.durability_drain_ns,
            ),
            Fault::IntervalTooShort,
        ),
        faults::unless(result.recorded_interval_ns > 0, Fault::EmptyInterval),
        if result.task.writes() {
            faults::unless(result.durability_drain_ns > 0, Fault::MissingDrain)
        } else {
            faults::unless(result.durability_drain_ns == 0, Fault::UnexpectedDrain)
        },
    ];
    assert(intervals_fault(result) == faults::first_of(intervals));
    faults::rows_pass_where_every_check_does(intervals);
    assert(intervals[0] is None && intervals[1] is None && intervals[2] is None);
}

/// A preparation result is accepted only where it succeeded and describes its own dataset: a load
/// writes every record in batches, flushes once, and has no source; a compaction calls nothing, and
/// comes of another checkpoint.
pub proof fn accepted_preparations_are_sound(
    result: &PreparationResult,
    verdicts: &AverageVerdicts,
    readings: Readings,
)
    requires
        preparation_fault(result, verdicts, readings) is None,
    ensures
        result.status@ == "ok"@,
        result.task == Task::BulkLoad || result.task == Task::Compaction,
        result.golden_id@.len() > 0,
        readings.timestamp,
        source_fault(result.source) is None,
        configuration_fault(result.configuration, result.task) is None,
        environment_fault(result.environment) is None,
        dataset_fault(result.dataset, result.checkpoint, readings.checkpoint) is None,
        result.configuration.dataset.record_count == result.dataset.record_count,
        result.configuration.dataset.key_bytes == result.dataset.key_bytes,
        result.configuration.dataset.value_bytes == result.dataset.value_bytes,
        result.task == Task::BulkLoad ==> {
            let writes = result.application.operations.at("write"@).total;
            &&& result.source_checkpoint is None
            &&& result.application.operations.at("flush"@).total == 1
            &&& result.application.throughput.at("write"@).total_bytes
                == result.dataset.logical_bytes
            &&& (writes - 1) * 1_024 < result.dataset.record_count <= writes * 1_024
        },
        result.task == Task::Compaction ==> {
            &&& result.source_checkpoint is Some
            &&& result.source_checkpoint->0.checkpoint_id@ != result.checkpoint.checkpoint_id@
            &&& checkpoint_fault(result.source_checkpoint->0, readings.source_checkpoint) is None
            &&& result.application.operations.names().len() == 0
            &&& result.application.throughput.names().len() == 0
            &&& result.application.latency.names().len() == 0
        },
{
    let checks = seq![
        faults::unless(result.status@ == "ok"@, Fault::StatusNotOk),
        faults::unless(result.task.prepares(), Fault::WrongKindOfTask),
        faults::unless(result.golden_id@.len() > 0, Fault::NoGoldenId),
        faults::unless(readings.timestamp, Fault::InvalidTimestamp),
        source_fault(result.source),
        configuration_fault(result.configuration, result.task),
        environment_fault(result.environment),
        recorded_metrics_fault(
            result.recorded_interval_ns,
            &result.application,
            &result.object_store,
            result.process,
            result.machine,
            verdicts,
        ),
        dataset_fault(result.dataset, result.checkpoint, readings.checkpoint),
        origin_fault(result, readings),
        preparation_rows_fault(result.task, &result.application, result.dataset),
        faults::unless(
            same_shape(result.configuration.dataset, result.dataset),
            Fault::DatasetDiffers,
        ),
    ];
    assert(preparation_fault(result, verdicts, readings) == faults::first_of(checks));
    faults::rows_pass_where_every_check_does(checks);
    assert(checks[0] is None && checks[1] is None && checks[2] is None && checks[3] is None
        && checks[4] is None && checks[5] is None && checks[6] is None && checks[7] is None
        && checks[8] is None && checks[9] is None && checks[10] is None && checks[11] is None);
    if result.task == Task::BulkLoad {
        let application = result.application;
        let dataset = result.dataset;
        let rows = seq![
            faults::unless(
                rows_are(&application.operations, seq!["flush"@, "write"@]) && rows_are(
                    &application.latency,
                    seq!["flush"@, "write"@],
                ),
                Fault::OperationRowsDiffer,
            ),
            faults::unless(
                rows_are(&application.throughput, seq!["write"@]),
                Fault::ThroughputRowsDiffer,
            ),
            faults::unless(
                application.operations.at("write"@).total == batches(dataset.record_count),
                Fault::WriteCountDiffers,
            ),
            faults::unless(
                application.operations.at("flush"@).total == 1,
                Fault::FlushCountDiffers,
            ),
            faults::unless(
                application.throughput.at("write"@).total_bytes == dataset.logical_bytes,
                Fault::WriteBytesDiffer,
            ),
        ];
        assert(preparation_rows_fault(result.task, &application, dataset) == faults::first_of(
            rows,
        ));
        faults::rows_pass_where_every_check_does(rows);
        assert(rows[2] is None && rows[3] is None && rows[4] is None);
    }
}

/// A golden manifest is accepted exactly where it succeeded, comes of a preparation, names itself,
/// has a readable time, and describes a consistent dataset of its own configuration.
pub proof fn golden_manifests_are_judged(golden: &GoldenManifest, timestamp: bool, checkpoint: bool)
    ensures
        golden_fault(golden, timestamp, checkpoint) is None <==> {
            &&& golden.status@ == "ok"@
            &&& golden.configuration.task.task == Task::BulkLoad || golden.configuration.task.task
                == Task::Compaction
            &&& golden.golden_id@.len() > 0
            &&& timestamp
            &&& source_fault(golden.source) is None
            &&& configuration_fault(golden.configuration, golden.configuration.task.task) is None
            &&& environment_fault(golden.environment) is None
            &&& dataset_fault(golden.dataset, golden.checkpoint, checkpoint) is None
            &&& golden.configuration.dataset.record_count == golden.dataset.record_count
            &&& golden.configuration.dataset.key_bytes == golden.dataset.key_bytes
            &&& golden.configuration.dataset.value_bytes == golden.dataset.value_bytes
        },
{
    let checks = seq![
        faults::unless(golden.status@ == "ok"@, Fault::StatusNotOk),
        faults::unless(golden.configuration.task.task.prepares(), Fault::WrongKindOfTask),
        faults::unless(golden.golden_id@.len() > 0, Fault::NoGoldenId),
        faults::unless(timestamp, Fault::InvalidTimestamp),
        source_fault(golden.source),
        configuration_fault(golden.configuration, golden.configuration.task.task),
        environment_fault(golden.environment),
        dataset_fault(golden.dataset, golden.checkpoint, checkpoint),
        faults::unless(
            same_shape(golden.configuration.dataset, golden.dataset),
            Fault::DatasetDiffers,
        ),
    ];
    assert(golden_fault(golden, timestamp, checkpoint) == faults::first_of(checks));
    faults::rows_pass_where_every_check_does(checks);
    if golden_fault(golden, timestamp, checkpoint) is None {
        assert(checks[0] is None && checks[1] is None && checks[2] is None && checks[3] is None
            && checks[4] is None && checks[5] is None && checks[6] is None && checks[7] is None
            && checks[8] is None);
    }
}

} // verus!
