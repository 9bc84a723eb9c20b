//! What a published result has to satisfy.

use crate::count;
use crate::count::minus;
use crate::faults;
use crate::faults::fault_unless;
use crate::named::Named;
use crate::suite::encoding;
use crate::suite::encoding::{read_summary, EncodedHistogram, HistogramsFile, LatencySummary, Reading};
use crate::suite::records::{
    ApplicationPerformance, MetricSeries, MetricSeriesValue, MetricValueType, Number, ResultRecord,
    TimeseriesFile,
};
use crate::text;
use crate::text::{chars_of, same_text};
use vstd::prelude::*;

verus! {

/// The longest delay of a scheduler at the 99th percentile, in nanoseconds.
pub const MAX_SCHEDULING_DELAY_NS: u64 = 1_000_000_000;

/// A summary of a result.
#[derive(Debug, Clone, Copy, PartialEq, Eq, Structural)]
pub enum Subject {
    Returns,
    ObjectStorePut,
    ObjectStoreGet,
    Operation,
    Response,
    SchedulingDelay,
    Batch,
    DurabilityLag,
}

/// What is wrong with a summary.
#[derive(Debug, Clone, Copy, PartialEq, Eq, Structural)]
pub enum SummaryFault {
    Missing,
    NotBase64,
    NotHistogram,
    Uncountable,
    Mismatch,
}

/// What is wrong with a metric.
#[derive(Debug, Clone, Copy, PartialEq, Eq, Structural)]
pub enum MetricFault {
    Duplicate,
    ValueCount,
    NoBoundaries,
    ScalarInHistogram,
    BucketCount,
    Boundaries,
    HistogramInScalar,
    NegativeCounter,
    NotWhole,
}

/// What is wrong with a result.
#[derive(Debug, Clone, Copy, PartialEq, Eq, Structural)]
pub enum ResultFault {
    ReturnCount,
    ReturnSummaryCount,
    Summary(Subject, SummaryFault),
    ResponseCount,
    SchedulingDelayCount,
    OperationErrors,
    NoDurableSequence,
    WritesNotDurable,
    TooFewSamples,
    Metric(MetricFault),
    SamplesEndEarly,
    NoDigest,
    InvalidDigest,
    OfferedTooLittle,
    SchedulingDelayed,
}

/// The histogram under a name.
pub open spec fn found(histograms: HistogramsFile, name: Seq<char>) -> Option<EncodedHistogram> {
    if histograms.histograms.map().dom().contains(name) {
        Some(histograms.histograms.map()[name])
    } else {
        None
    }
}

/// The number of observations under a name.
pub open spec fn counted(histograms: HistogramsFile, name: Seq<char>) -> u64 {
    match found(histograms, name) {
        Some(h) => h.count,
        None => 0,
    }
}

fn count_of(histograms: &HistogramsFile, name: &str) -> (r: u64)
    requires
        histograms.histograms.wf(),
    ensures
        r == counted(*histograms, name@),
{
    match histograms.histograms.get(name) {
        Some(h) => h.count,
        None => 0,
    }
}

/// What is found where the summaries of a result should have their histograms.
pub struct SummaryReadings {
    pub returns: Reading,
    pub put: Reading,
    pub get: Reading,
    /// One for each operation, in the order of their names.
    pub operations: Vec<Reading>,
    pub response: Reading,
    pub scheduling_delay: Reading,
    pub batch: Reading,
    pub durability_lag: Reading,
}

/// Whether readings are those of a file, for the operations of a result.
pub open spec fn readings_of(
    readings: SummaryReadings,
    histograms: HistogramsFile,
    application: ApplicationPerformance,
) -> bool {
    let names = application.return_latency_by_operation.names();
    &&& readings.returns == encoding::reading_of(found(histograms, "return"@))
    &&& readings.put == encoding::reading_of(found(histograms, "object_store/put"@))
    &&& readings.get == encoding::reading_of(found(histograms, "object_store/get"@))
    &&& readings.operations.len() == names.len()
    &&& forall|i: int|
        0 <= i < names.len() ==> #[trigger] readings.operations@[i] == encoding::reading_of(
            found(histograms, "return/"@ + names[i]),
        )
    &&& readings.response == encoding::reading_of(found(histograms, "response"@))
    &&& readings.scheduling_delay == encoding::reading_of(found(histograms, "scheduling_delay"@))
    &&& readings.batch == encoding::reading_of(found(histograms, "batch"@))
    &&& readings.durability_lag == encoding::reading_of(found(histograms, "durability_lag"@))
}

/// What is wrong with a summary, given what was found for it.
pub open spec fn summary_fault(reading: Reading, expected: LatencySummary) -> Option<SummaryFault> {
    match reading {
        Reading::Missing => Some(SummaryFault::Missing),
        Reading::NotBase64 => Some(SummaryFault::NotBase64),
        Reading::NotHistogram => Some(SummaryFault::NotHistogram),
        Reading::Uncountable => Some(SummaryFault::Uncountable),
        Reading::Summary(actual) => if actual == expected {
            None
        } else {
            Some(SummaryFault::Mismatch)
        },
    }
}

/// Judges a summary by what was found for it.
pub fn judge_summary(reading: Reading, expected: LatencySummary) -> (r: Option<SummaryFault>)
    ensures
        r == summary_fault(reading, expected),
{
    match reading {
        Reading::Missing => Some(SummaryFault::Missing),
        Reading::NotBase64 => Some(SummaryFault::NotBase64),
        Reading::NotHistogram => Some(SummaryFault::NotHistogram),
        Reading::Uncountable => Some(SummaryFault::Uncountable),
        Reading::Summary(actual) => if actual == expected {
            None
        } else {
            Some(SummaryFault::Mismatch)
        },
    }
}

/// Checks that a summary is that of the histogram under a name.
pub fn validate_histogram_summary(
    histograms: &HistogramsFile,
    name: &str,
    expected: LatencySummary,
) -> (r: Result<(), SummaryFault>)
    requires
        histograms.histograms.wf(),
    ensures
        r is Ok <==> summary_fault(encoding::reading_of(found(*histograms, name@)), expected) is None,
        r matches Err(e) ==> Some(e) == summary_fault(
            encoding::reading_of(found(*histograms, name@)),
            expected,
        ),
{
    match judge_summary(read_summary(histograms.histograms.get(name)), expected) {
        Some(fault) => Err(fault),
        None => Ok(()),
    }
}

/// What is wrong with a summary of a result.
pub open spec fn subject_fault(
    subject: Subject,
    reading: Reading,
    expected: LatencySummary,
) -> Option<ResultFault> {
    match summary_fault(reading, expected) {
        Some(fault) => Some(ResultFault::Summary(subject, fault)),
        None => None,
    }
}

/// What is wrong with a summary that a result need not have.
pub open spec fn optional_fault(
    subject: Subject,
    reading: Reading,
    expected: Option<LatencySummary>,
) -> Option<ResultFault> {
    match expected {
        Some(summary) => subject_fault(subject, reading, summary),
        None => None,
    }
}

fn judge(subject: Subject, reading: Reading, expected: LatencySummary) -> (r: Option<ResultFault>)
    ensures
        r == subject_fault(subject, reading, expected),
{
    match judge_summary(reading, expected) {
        Some(fault) => Some(ResultFault::Summary(subject, fault)),
        None => None,
    }
}

fn judge_optional(subject: Subject, reading: Reading, expected: Option<LatencySummary>) -> (r: Option<
    ResultFault,
>)
    ensures
        r == optional_fault(subject, reading, expected),
{
    match expected {
        Some(summary) => judge(subject, reading, summary),
        None => None,
    }
}

/// What is wrong with the summaries of the operations.
pub open spec fn operations_fault(
    summaries: Named<LatencySummary>,
    readings: Seq<Reading>,
) -> Option<ResultFault> {
    faults::first_of(
        Seq::new(
            summaries.values().len(),
            |i: int| subject_fault(Subject::Operation, readings[i], summaries.values()[i]),
        ),
    )
}

fn judge_operations(summaries: &Named<LatencySummary>, readings: &Vec<Reading>) -> (r: Option<
    ResultFault,
>)
    requires
        readings.len() == summaries.values().len(),
    ensures
        r == operations_fault(*summaries, readings@),
{
    let ghost all = Seq::new(
        summaries.values().len(),
        |i: int| subject_fault(Subject::Operation, readings@[i], summaries.values()[i]),
    );
    let mut i: usize = 0;
    assert(all.take(0).len() == 0);
    while i < readings.len()
        invariant
            i <= readings.len(),
            readings.len() == summaries.values().len(),
            all == Seq::new(
                summaries.values().len(),
                |i: int| subject_fault(Subject::Operation, readings@[i], summaries.values()[i]),
            ),
            faults::first_of(all.take(i as int)) is None,
        decreases readings.len() - i,
    {
        let fault = judge(Subject::Operation, readings[i], *summaries.value_at(i));
        assert(fault == all[i as int]);
        if fault.is_some() {
            proof {
                faults::found_here(all, i as int);
            }
            return fault;
        }
        proof {
            faults::nothing_yet(all, i as int);
        }
        i += 1;
    }
    proof {
        faults::nothing_at_all(all);
    }
    None
}

/// What makes two series belong to one metric.
pub open spec fn same_metric(a: MetricSeries, b: MetricSeries) -> bool {
    a.name@ == b.name@ && a.labels.names() == b.labels.names() && text::texts(a.labels.values())
        == text::texts(b.labels.values())
}

/// Whether a metric occurs before a position.
pub open spec fn metric_repeats(metrics: Seq<MetricSeries>, i: int) -> bool {
    exists|j: int| 0 <= j < i && same_metric(#[trigger] metrics[j], metrics[i])
}

/// What is wrong with one value of a metric.
pub open spec fn value_fault(
    value_type: MetricValueType,
    boundaries: nat,
    value: Option<MetricSeriesValue>,
) -> Option<MetricFault> {
    match value {
        None => None,
        Some(MetricSeriesValue::Scalar(number)) => match value_type {
            MetricValueType::Histogram => Some(MetricFault::ScalarInHistogram),
            MetricValueType::Counter => faults::unless(
                number is Whole,
                MetricFault::NegativeCounter,
            ),
            _ => faults::unless(!(number is Fraction), MetricFault::NotWhole),
        },
        Some(MetricSeriesValue::Histogram(h)) => if value_type == MetricValueType::Histogram {
            faults::unless(h.bucket_counts@.len() == boundaries + 1, MetricFault::BucketCount)
        } else {
            Some(MetricFault::HistogramInScalar)
        },
    }
}

fn judge_value(value_type: MetricValueType, boundaries: usize, value: &Option<MetricSeriesValue>) -> (r:
    Option<MetricFault>)
    ensures
        r == value_fault(value_type, boundaries as nat, *value),
{
    match value {
        None => None,
        Some(MetricSeriesValue::Scalar(number)) => {
            let number = *number;
            match value_type {
                MetricValueType::Histogram => Some(MetricFault::ScalarInHistogram),
                MetricValueType::Counter => match number {
                    Number::Whole(_) => None,
                    _ => Some(MetricFault::NegativeCounter),
                },
                _ => match number {
                    Number::Fraction(_) => Some(MetricFault::NotWhole),
                    _ => None,
                },
            }
        },
        Some(MetricSeriesValue::Histogram(h)) => {
            if let MetricValueType::Histogram = value_type {
                let buckets: usize = h.bucket_counts.len();
                fault_unless(buckets > 0 && buckets - 1 == boundaries, MetricFault::BucketCount)
            } else {
                Some(MetricFault::HistogramInScalar)
            }
        },
    }
}

/// The number of boundaries of a metric.
pub open spec fn boundary_count(metric: MetricSeries) -> nat {
    match metric.boundaries {
        Some(boundaries) => boundaries@.len(),
        None => 0,
    }
}

/// What is wrong with the boundaries of a metric.
pub open spec fn boundaries_fault(metric: MetricSeries) -> Option<MetricFault> {
    if metric.value_type == MetricValueType::Histogram {
        faults::unless(metric.boundaries is Some, MetricFault::NoBoundaries)
    } else {
        faults::unless(metric.boundaries is None, MetricFault::Boundaries)
    }
}

/// What is wrong with the metric at a position.
pub open spec fn metric_fault(metrics: Seq<MetricSeries>, i: int, samples: nat) -> Option<
    MetricFault,
> {
    let metric = metrics[i];
    faults::first_of(
        seq![
            faults::unless(!metric_repeats(metrics, i), MetricFault::Duplicate),
            faults::unless(metric.values@.len() == samples, MetricFault::ValueCount),
            boundaries_fault(metric),
            faults::first_of(
                Seq::new(
                    metric.values@.len(),
                    |k: int|
                        value_fault(metric.value_type, boundary_count(metric), metric.values@[k]),
                ),
            ),
        ],
    )
}

/// What is wrong with the metrics of a result.
pub open spec fn metrics_fault(timeseries: TimeseriesFile) -> Option<ResultFault> {
    let first = faults::first_of(
        Seq::new(
            timeseries.slatedb_metrics@.len(),
            |i: int|
                metric_fault(timeseries.slatedb_metrics@, i, timeseries.samples@.len()),
        ),
    );
    match first {
        Some(fault) => Some(ResultFault::Metric(fault)),
        None => None,
    }
}

fn same_labels(a: &Named<String>, b: &Named<String>) -> (r: bool)
    requires
        a.wf(),
        b.wf(),
    ensures
        r == (a.names() == b.names() && text::texts(a.values()) == text::texts(b.values())),
{
    if a.len() != b.len() {
        return false;
    }
    let mut i: usize = 0;
    while i < a.len()
        invariant
            a.wf(),
            b.wf(),
            a.names().len() == b.names().len(),
            i <= a.names().len(),
            forall|k: int| 0 <= k < i ==> #[trigger] a.names()[k] == b.names()[k],
            forall|k: int| 0 <= k < i ==> (#[trigger] a.values()[k])@ == b.values()[k]@,
        decreases a.names().len() - i,
    {
        if !same_text(a.name_at(i).as_str(), b.name_at(i).as_str()) {
            return false;
        }
        if !same_text(a.value_at(i).as_str(), b.value_at(i).as_str()) {
            assert(text::texts(a.values())[i as int] != text::texts(b.values())[i as int]);
            return false;
        }
        i += 1;
    }
    assert(a.names() =~= b.names());
    assert(text::texts(a.values()) =~= text::texts(b.values()));
    true
}

fn repeats(metrics: &Vec<MetricSeries>, i: usize) -> (r: bool)
    requires
        i < metrics.len(),
        forall|k: int| 0 <= k < metrics.len() ==> (#[trigger] metrics@[k]).labels.wf(),
    ensures
        r == metric_repeats(metrics@, i as int),
{
    let mut j: usize = 0;
    while j < i
        invariant
            j <= i < metrics.len(),
            forall|k: int| 0 <= k < metrics.len() ==> (#[trigger] metrics@[k]).labels.wf(),
            forall|k: int|
                0 <= k < j ==> !same_metric(#[trigger] metrics@[k], metrics@[i as int]),
        decreases i - j,
    {
        if same_text(metrics[j].name.as_str(), metrics[i].name.as_str()) && same_labels(
            &metrics[j].labels,
            &metrics[i].labels,
        ) {
            assert(same_metric(metrics@[j as int], metrics@[i as int]));
            return true;
        }
        j += 1;
    }
    false
}

fn judge_metric(metrics: &Vec<MetricSeries>, i: usize, samples: usize) -> (r: Option<MetricFault>)
    requires
        i < metrics.len(),
        forall|k: int| 0 <= k < metrics.len() ==> (#[trigger] metrics@[k]).labels.wf(),
    ensures
        r == metric_fault(metrics@, i as int, samples as nat),
{
    let metric = &metrics[i];
    let ghost values = Seq::new(
        metric.values@.len(),
        |k: int| value_fault(metric.value_type, boundary_count(*metric), metric.values@[k]),
    );
    let ghost row = seq![
        faults::unless(!metric_repeats(metrics@, i as int), MetricFault::Duplicate),
        faults::unless(metric.values@.len() == samples, MetricFault::ValueCount),
        boundaries_fault(*metric),
        faults::first_of(values),
    ];
    assert(row.take(0).len() == 0);
    if repeats(metrics, i) {
        proof {
            faults::found_here(row, 0);
        }
        return Some(MetricFault::Duplicate);
    }
    proof {
        faults::nothing_yet(row, 0);
    }
    if metric.values.len() != samples {
        proof {
            faults::found_here(row, 1);
        }
        return Some(MetricFault::ValueCount);
    }
    proof {
        faults::nothing_yet(row, 1);
    }
    let boundaries: usize = match &metric.boundaries {
        Some(boundaries) => boundaries.len(),
        None => 0,
    };
    let fault: Option<MetricFault> = if let MetricValueType::Histogram = metric.value_type {
        fault_unless(metric.boundaries.is_some(), MetricFault::NoBoundaries)
    } else {
        fault_unless(metric.boundaries.is_none(), MetricFault::Boundaries)
    };
    assert(fault == row[2]);
    if fault.is_some() {
        proof {
            faults::found_here(row, 2);
        }
        return fault;
    }
    proof {
        faults::nothing_yet(row, 2);
    }
    let mut k: usize = 0;
    assert(values.take(0).len() == 0);
    while k < metric.values.len()
        invariant
            k <= metric.values.len(),
            boundaries as nat == boundary_count(*metric),
            values == Seq::new(
                metric.values@.len(),
                |k: int| value_fault(metric.value_type, boundary_count(*metric), metric.values@[k]),
            ),
            faults::first_of(values.take(k as int)) is None,
            row == seq![
                faults::unless(!metric_repeats(metrics@, i as int), MetricFault::Duplicate),
                faults::unless(metric.values@.len() == samples, MetricFault::ValueCount),
                boundaries_fault(*metric),
                faults::first_of(values),
            ],
            faults::first_of(row.take(3)) is None,
            *metric == metrics@[i as int],
        decreases metric.values.len() - k,
    {
        let fault = judge_value(metric.value_type, boundaries, &metric.values[k]);
        assert(fault == values[k as int]);
        if fault.is_some() {
            proof {
                faults::found_here(values, k as int);
                faults::found_here(row, 3);
            }
            return fault;
        }
        proof {
            faults::nothing_yet(values, k as int);
        }
        k += 1;
    }
    proof {
        faults::nothing_at_all(values);
        faults::nothing_yet(row, 3);
        faults::nothing_at_all(row);
    }
    None
}

fn judge_metrics(timeseries: &TimeseriesFile) -> (r: Option<ResultFault>)
    requires
        forall|k: int|
            0 <= k < timeseries.slatedb_metrics.len() ==> (
            #[trigger] timeseries.slatedb_metrics@[k]).labels.wf(),
    ensures
        r == metrics_fault(*timeseries),
{
    let ghost all = Seq::new(
        timeseries.slatedb_metrics@.len(),
        |i: int| metric_fault(timeseries.slatedb_metrics@, i, timeseries.samples@.len()),
    );
    let mut i: usize = 0;
    assert(all.take(0).len() == 0);
    while i < timeseries.slatedb_metrics.len()
        invariant
            i <= timeseries.slatedb_metrics.len(),
            all == Seq::new(
                timeseries.slatedb_metrics@.len(),
                |i: int| metric_fault(timeseries.slatedb_metrics@, i, timeseries.samples@.len()),
            ),
            faults::first_of(all.take(i as int)) is None,
            forall|k: int|
                0 <= k < timeseries.slatedb_metrics.len() ==> (
                #[trigger] timeseries.slatedb_metrics@[k]).labels.wf(),
        decreases timeseries.slatedb_metrics.len() - i,
    {
        let fault = judge_metric(&timeseries.slatedb_metrics, i, timeseries.samples.len());
        assert(fault == all[i as int]);
        if let Some(fault) = fault {
            proof {
                faults::found_here(all, i as int);
            }
            return Some(ResultFault::Metric(fault));
        }
        proof {
            faults::nothing_yet(all, i as int);
        }
        i += 1;
    }
    proof {
        faults::nothing_at_all(all);
    }
    None
}

/// The operations that were never returned because they were dropped.
pub open spec fn dropped_operations(application: ApplicationPerformance) -> u64 {
    if application.dropped_ops_per_second is Some {
        count::floored_difference(application.total_operations, application.return_latency.count)
    } else {
        0
    }
}

/// The operations that returned.
pub open spec fn expected_returns(application: ApplicationPerformance) -> u64 {
    count::floored_difference(application.total_operations, dropped_operations(application))
}

/// Whether a character is a hexadecimal digit.
pub open spec fn is_hex(c: char) -> bool {
    ('0' <= c && c <= '9') || ('a' <= c && c <= 'f') || ('A' <= c && c <= 'F')
}

/// Whether a text is a SHA-256 digest in hexadecimal digits.
pub open spec fn is_hex_digest(text: Seq<char>) -> bool {
    text.len() == 64 && forall|i: int| 0 <= i < text.len() ==> is_hex(#[trigger] text[i])
}

fn hex_digest(value: &str) -> (r: bool)
    ensures
        r == is_hex_digest(value@),
{
    let chars = chars_of(value);
    if chars.len() != 64 {
        return false;
    }
    let mut i: usize = 0;
    while i < chars.len()
        invariant
            chars@ == value@,
            chars.len() == 64,
            i <= chars.len(),
            forall|k: int| 0 <= k < i ==> is_hex(#[trigger] chars@[k]),
        decreases chars.len() - i,
    {
        let c = chars[i];
        if !(('0' <= c && c <= '9') || ('a' <= c && c <= 'f') || ('A' <= c && c <= 'F')) {
            return false;
        }
        i += 1;
    }
    true
}

/// The offset of the last sample.
pub open spec fn last_offset(timeseries: TimeseriesFile) -> u64 {
    if timeseries.samples@.len() == 0 {
        0
    } else {
        timeseries.samples@.last().offset_ns
    }
}

/// Whether operations were offered at a rate that was asked for.
pub open spec fn is_paced(result: ResultRecord) -> bool {
    result.configuration.target_rate is Some && result.application.offered_ops_per_second is Some
}

/// What the checks of the latencies find, in their order.
pub open spec fn latency_checks(
    result: ResultRecord,
    histograms: HistogramsFile,
    readings: SummaryReadings,
) -> Seq<Option<ResultFault>> {
    let application = result.application;
    let returned = counted(histograms, "return"@);
    let expected = expected_returns(application);
    let offered = application.offered_ops_per_second is Some;
    seq![
        faults::unless(returned == expected, ResultFault::ReturnCount),
        faults::unless(
            application.return_latency.count == returned,
            ResultFault::ReturnSummaryCount,
        ),
        subject_fault(Subject::Returns, readings.returns, application.return_latency),
        subject_fault(
            Subject::ObjectStorePut,
            readings.put,
            result.object_store_baseline.put_latency,
        ),
        subject_fault(
            Subject::ObjectStoreGet,
            readings.get,
            result.object_store_baseline.get_latency,
        ),
        operations_fault(application.return_latency_by_operation, readings.operations@),
        optional_fault(Subject::Response, readings.response, application.response_latency),
        optional_fault(
            Subject::SchedulingDelay,
            readings.scheduling_delay,
            application.scheduling_delay,
        ),
        optional_fault(Subject::Batch, readings.batch, application.batch_latency),
        optional_fault(Subject::DurabilityLag, readings.durability_lag, result.durability.lag),
        faults::unless(
            !offered || counted(histograms, "response"@) == expected,
            ResultFault::ResponseCount,
        ),
        faults::unless(
            !offered || counted(histograms, "scheduling_delay"@) == expected,
            ResultFault::SchedulingDelayCount,
        ),
    ]
}

/// What the other checks of a result find, in their order.
///
/// `rate_met` tells that the offered rate is no less than 95% of the target.
pub open spec fn state_checks(
    result: ResultRecord,
    timeseries: TimeseriesFile,
    rate_met: bool,
) -> Seq<Option<ResultFault>> {
    let application = result.application;
    let durability = result.durability;
    let digest = result.initial_state.lsm_digest_sha256@;
    seq![
        faults::unless(application.errors == 0, ResultFault::OperationErrors),
        faults::unless(
            durability.last_measured_sequence is None || durability.final_durable_sequence is Some,
            ResultFault::NoDurableSequence,
        ),
        faults::unless(
            durability.last_measured_sequence is None || durability.final_durable_sequence is None
                || durability.final_durable_sequence->0 >= durability.last_measured_sequence->0,
            ResultFault::WritesNotDurable,
        ),
        faults::unless(timeseries.samples@.len() >= 2, ResultFault::TooFewSamples),
        metrics_fault(timeseries),
        faults::unless(
            last_offset(timeseries) >= result.configuration.measurement_ns,
            ResultFault::SamplesEndEarly,
        ),
        faults::unless(digest.len() > 0, ResultFault::NoDigest),
        faults::unless(is_hex_digest(digest), ResultFault::InvalidDigest),
        faults::unless(!is_paced(result) || rate_met, ResultFault::OfferedTooLittle),
        faults::unless(
            !is_paced(result) || (application.scheduling_delay is Some
                && application.scheduling_delay->0.p99_ns <= MAX_SCHEDULING_DELAY_NS),
            ResultFault::SchedulingDelayed,
        ),
    ]
}

/// What is wrong with a result, the first of it.
pub open spec fn invariants_fault(
    result: ResultRecord,
    histograms: HistogramsFile,
    timeseries: TimeseriesFile,
    readings: SummaryReadings,
    rate_met: bool,
) -> Option<ResultFault> {
    faults::first(
        faults::first_of(latency_checks(result, histograms, readings)),
        faults::first_of(state_checks(result, timeseries, rate_met)),
    )
}

/// Whether the collections of a result are in order.
pub open spec fn well_formed(
    result: ResultRecord,
    histograms: HistogramsFile,
    timeseries: TimeseriesFile,
) -> bool {
    &&& histograms.histograms.wf()
    &&& result.application.return_latency_by_operation.wf()
    &&& forall|k: int|
        0 <= k < timeseries.slatedb_metrics.len() ==> (
        #[trigger] timeseries.slatedb_metrics@[k]).labels.wf()
}

fn judge_latencies(
    result: &ResultRecord,
    histograms: &HistogramsFile,
    readings: &SummaryReadings,
) -> (r: Option<ResultFault>)
    requires
        histograms.histograms.wf(),
        readings.operations.len() == result.application.return_latency_by_operation.values().len(),
    ensures
        r == faults::first_of(latency_checks(*result, *histograms, *readings)),
{
    let application = &result.application;
    let returned: u64 = count_of(histograms, "return");
    let dropped: u64 = if application.dropped_ops_per_second.is_some() {
        minus(application.total_operations, application.return_latency.count)
    } else {
        0
    };
    let expected: u64 = minus(application.total_operations, dropped);
    let offered = application.offered_ops_per_second.is_some();
    let found = vec![
        fault_unless(returned == expected, ResultFault::ReturnCount),
        fault_unless(
            application.return_latency.count == returned,
            ResultFault::ReturnSummaryCount,
        ),
        judge(Subject::Returns, readings.returns, application.return_latency),
        judge(Subject::ObjectStorePut, readings.put, result.object_store_baseline.put_latency),
        judge(Subject::ObjectStoreGet, readings.get, result.object_store_baseline.get_latency),
        judge_operations(&application.return_latency_by_operation, &readings.operations),
        judge_optional(Subject::Response, readings.response, application.response_latency),
        judge_optional(
            Subject::SchedulingDelay,
            readings.scheduling_delay,
            application.scheduling_delay,
        ),
        judge_optional(Subject::Batch, readings.batch, application.batch_latency),
        judge_optional(Subject::DurabilityLag, readings.durability_lag, result.durability.lag),
        fault_unless(
            !offered || count_of(histograms, "response") == expected,
            ResultFault::ResponseCount,
        ),
        fault_unless(
            !offered || count_of(histograms, "scheduling_delay") == expected,
            ResultFault::SchedulingDelayCount,
        ),
    ];
    assert(found@ =~= latency_checks(*result, *histograms, *readings));
    faults::first_listed(&found)
}

fn judge_state(result: &ResultRecord, timeseries: &TimeseriesFile, rate_met: bool) -> (r: Option<
    ResultFault,
>)
    requires
        forall|k: int|
            0 <= k < timeseries.slatedb_metrics.len() ==> (
            #[trigger] timeseries.slatedb_metrics@[k]).labels.wf(),
    ensures
        r == faults::first_of(state_checks(*result, *timeseries, rate_met)),
{
    let application = &result.application;
    let (no_durable, not_durable): (bool, bool) = match result.durability.last_measured_sequence {
        None => (false, false),
        Some(last) => match result.durability.final_durable_sequence {
            None => (true, false),
            Some(durable) => (false, durable < last),
        },
    };
    let last: u64 = if timeseries.samples.len() == 0 {
        0
    } else {
        timeseries.samples[timeseries.samples.len() - 1].offset_ns
    };
    let digest: &str = result.initial_state.lsm_digest_sha256.as_str();
    let paced = result.configuration.target_rate.is_some()
        && application.offered_ops_per_second.is_some();
    let delayed = match application.scheduling_delay {
        Some(summary) => summary.p99_ns > MAX_SCHEDULING_DELAY_NS,
        None => true,
    };
    let found = vec![
        fault_unless(application.errors == 0, ResultFault::OperationErrors),
        fault_unless(!no_durable, ResultFault::NoDurableSequence),
        fault_unless(!not_durable, ResultFault::WritesNotDurable),
        fault_unless(timeseries.samples.len() >= 2, ResultFault::TooFewSamples),
        judge_metrics(timeseries),
        fault_unless(last >= result.configuration.measurement_ns, ResultFault::SamplesEndEarly),
        fault_unless(!digest.is_empty(), ResultFault::NoDigest),
        fault_unless(hex_digest(digest), ResultFault::InvalidDigest),
        fault_unless(!paced || rate_met, ResultFault::OfferedTooLittle),
        fault_unless(!paced || !delayed, ResultFault::SchedulingDelayed),
    ];
    assert(found@ =~= state_checks(*result, *timeseries, rate_met));
    faults::first_listed(&found)
}

/// Checks a result against its histograms and series, given what its summaries were found to be.
pub fn check_invariants(
    result: &ResultRecord,
    histograms: &HistogramsFile,
    timeseries: &TimeseriesFile,
    readings: &SummaryReadings,
    rate_met: bool,
) -> (r: Result<(), ResultFault>)
    requires
        well_formed(*result, *histograms, *timeseries),
        readings.operations.len() == result.application.return_latency_by_operation.values().len(),
    ensures
        r is Ok <==> invariants_fault(*result, *histograms, *timeseries, *readings, rate_met)
            is None,
        r matches Err(e) ==> Some(e) == invariants_fault(
            *result,
            *histograms,
            *timeseries,
            *readings,
            rate_met,
        ),
{
    if let Some(fault) = judge_latencies(result, histograms, readings) {
        return Err(fault);
    }
    match judge_state(result, timeseries, rate_met) {
        Some(fault) => Err(fault),
        None => Ok(()),
    }
}

/// Reads the histograms that the summaries of a result have to match.
pub fn read_summaries(histograms: &HistogramsFile, application: &ApplicationPerformance) -> (r:
    SummaryReadings)
    requires
        histograms.histograms.wf(),
        application.return_latency_by_operation.wf(),
    ensures
        readings_of(r, *histograms, *application),
{
    let names = &application.return_latency_by_operation;
    let mut operations: Vec<Reading> = Vec::new();
    let mut i: usize = 0;
    while i < names.len()
        invariant
            histograms.histograms.wf(),
            names == &application.return_latency_by_operation,
            i <= names.names().len(),
            operations.len() == i,
            forall|k: int|
                0 <= k < i ==> #[trigger] operations@[k] == encoding::reading_of(
                    found(*histograms, "return/"@ + names.names()[k]),
                ),
        decreases names.names().len() - i,
    {
        let name = "return/".to_string().concat(names.name_at(i).as_str());
        operations.push(read_summary(histograms.histograms.get(name.as_str())));
        i += 1;
    }
    SummaryReadings {
        returns: read_summary(histograms.histograms.get("return")),
        put: read_summary(histograms.histograms.get("object_store/put")),
        get: read_summary(histograms.histograms.get("object_store/get")),
        operations,
        response: read_summary(histograms.histograms.get("response")),
        scheduling_delay: read_summary(histograms.histograms.get("scheduling_delay")),
        batch: read_summary(histograms.histograms.get("batch")),
        durability_lag: read_summary(histograms.histograms.get("durability_lag")),
    }
}

/// Checks a result against its histograms and series.
pub fn validate_invariants(
    result: &ResultRecord,
    histograms: &HistogramsFile,
    timeseries: &TimeseriesFile,
    rate_met: bool,
) -> (r: Result<(), ResultFault>)
    requires
        well_formed(*result, *histograms, *timeseries),
    ensures
        exists|readings: SummaryReadings|
            {
                &&& #[trigger] readings_of(readings, *histograms, result.application)
                &&& r is Ok <==> invariants_fault(
                    *result,
                    *histograms,
                    *timeseries,
                    readings,
                    rate_met,
                ) is None
                &&& r matches Err(e) ==> Some(e) == invariants_fault(
                    *result,
                    *histograms,
                    *timeseries,
                    readings,
                    rate_met,
                )
            },
{
    let readings = read_summaries(histograms, &result.application);
    assert(readings_of(readings, *histograms, result.application));
    check_invariants(result, histograms, timeseries, &readings, rate_met)
}

/// A result that is accepted reports what its histograms hold, covers its measurement and its
/// writes, and has no errors.
pub proof fn accepted_results_are_supported(
    result: ResultRecord,
    histograms: HistogramsFile,
    timeseries: TimeseriesFile,
    readings: SummaryReadings,
    rate_met: bool,
)
    requires
        invariants_fault(result, histograms, timeseries, readings, rate_met) is None,
        readings_of(readings, histograms, result.application),
    ensures
        encoding::reading_of(found(histograms, "return"@)) == Reading::Summary(
            result.application.return_latency,
        ),
        result.application.return_latency.count == expected_returns(result.application),
        result.durability.lag matches Some(lag) ==> encoding::reading_of(
            found(histograms, "durability_lag"@),
        ) == Reading::Summary(lag),
        result.application.errors == 0,
        result.durability.last_measured_sequence matches Some(last)
            ==> result.durability.final_durable_sequence is Some
            && result.durability.final_durable_sequence->0 >= last,
        last_offset(timeseries) >= result.configuration.measurement_ns,
        is_hex_digest(result.initial_state.lsm_digest_sha256@),
{
    let latencies = latency_checks(result, histograms, readings);
    let state = state_checks(result, timeseries, rate_met);
    faults::none_found(latencies, 0);
    faults::none_found(latencies, 1);
    faults::none_found(latencies, 2);
    faults::none_found(latencies, 9);
    faults::none_found(state, 0);
    faults::none_found(state, 1);
    faults::none_found(state, 2);
    faults::none_found(state, 5);
    faults::none_found(state, 7);
}

/// A summary is accepted exactly where its histogram is there, readable, and gives the same
/// summary.
pub proof fn summaries_are_judged(reading: Reading, expected: LatencySummary)
    ensures
        summary_fault(reading, expected) is None <==> reading == Reading::Summary(expected),
{
}

/// Of an accepted result every latency is that of its histogram, as many operations returned as
/// were not dropped, and an open loop kept its pace.
pub proof fn accepted_results_agree_with_their_files(
    result: ResultRecord,
    histograms: HistogramsFile,
    timeseries: TimeseriesFile,
    readings: SummaryReadings,
    rate_met: bool,
    i: int,
)
    requires
        invariants_fault(result, histograms, timeseries, readings, rate_met) is None,
        result.application.return_latency.count <= result.application.total_operations,
    ensures
        ({
            let a = result.application;
            let paced = result.configuration.target_rate is Some && a.offered_ops_per_second
                is Some;
            &&& counted(histograms, "return"@) == a.return_latency.count
            &&& a.dropped_ops_per_second is None ==> a.return_latency.count == a.total_operations
            &&& readings.returns == Reading::Summary(a.return_latency)
            &&& readings.put == Reading::Summary(result.object_store_baseline.put_latency)
            &&& readings.get == Reading::Summary(result.object_store_baseline.get_latency)
            &&& 0 <= i < a.return_latency_by_operation.values().len() ==> readings.operations@[i]
                == Reading::Summary(a.return_latency_by_operation.values()[i])
            &&& a.response_latency matches Some(s) ==> readings.response == Reading::Summary(s)
            &&& a.scheduling_delay matches Some(s) ==> readings.scheduling_delay
                == Reading::Summary(s)
            &&& a.batch_latency matches Some(s) ==> readings.batch == Reading::Summary(s)
            &&& result.durability.lag matches Some(s) ==> readings.durability_lag
                == Reading::Summary(s)
            &&& a.offered_ops_per_second is Some ==> counted(histograms, "response"@)
                == a.return_latency.count && counted(histograms, "scheduling_delay"@)
                == a.return_latency.count
            &&& a.errors == 0
            &&& timeseries.samples@.len() >= 2
            &&& timeseries.samples@.last().offset_ns >= result.configuration.measurement_ns
            &&& metrics_fault(timeseries) is None
            &&& paced ==> rate_met && a.scheduling_delay is Some && a.scheduling_delay->0.p99_ns
                <= 1_000_000_000
        }),
{
    let latencies = latency_checks(result, histograms, readings);
    let states = state_checks(result, timeseries, rate_met);
    faults::rows_pass_where_every_check_does(latencies);
    faults::rows_pass_where_every_check_does(states);
    assert(latencies[0] is None && latencies[1] is None && latencies[2] is None && latencies[3]
        is None && latencies[4] is None && latencies[5] is None && latencies[6] is None
        && latencies[7] is None && latencies[8] is None && latencies[9] is None && latencies[10]
        is None && latencies[11] is None);
    assert(states[0] is None && states[3] is None && states[4] is None && states[5] is None
        && states[8] is None && states[9] is None);
    let summaries = result.application.return_latency_by_operation;
    let operations = Seq::new(
        summaries.values().len(),
        |i: int| subject_fault(Subject::Operation, readings.operations@[i], summaries.values()[i]),
    );
    assert(operations_fault(summaries, readings.operations@) == faults::first_of(operations));
    faults::rows_pass_where_every_check_does(operations);
    if 0 <= i < operations.len() {
        assert(operations[i] is None);
    }
}

/// An accepted metric occurs once, has a value for each sample, and boundaries exactly where it is
/// a histogram; a counter is never negative, and a histogram has a bucket more than boundaries.
pub proof fn accepted_metrics_are_consistent(
    metrics: Seq<MetricSeries>,
    i: int,
    samples: nat,
    k: int,
)
    requires
        metric_fault(metrics, i, samples) is None,
    ensures
        ({
            let m = metrics[i];
            &&& forall|j: int| 0 <= j < i ==> !same_metric(#[trigger] metrics[j], m)
            &&& m.values@.len() == samples
            &&& m.boundaries is Some <==> m.value_type == MetricValueType::Histogram
            &&& 0 <= k < samples ==> match m.values@[k] {
                None => true,
                Some(MetricSeriesValue::Scalar(number)) => {
                    &&& m.value_type != MetricValueType::Histogram
                    &&& m.value_type == MetricValueType::Counter ==> number is Whole
                    &&& m.value_type != MetricValueType::Counter ==> !(number is Fraction)
                },
                Some(MetricSeriesValue::Histogram(h)) => {
                    &&& m.value_type == MetricValueType::Histogram
                    &&& h.bucket_counts@.len() == m.boundaries->0@.len() + 1
                },
            }
        }),
{
    let metric = metrics[i];
    let values = Seq::new(
        metric.values@.len(),
        |k: int| value_fault(metric.value_type, boundary_count(metric), metric.values@[k]),
    );
    let checks = seq![
        faults::unless(!metric_repeats(metrics, i), MetricFault::Duplicate),
        faults::unless(metric.values@.len() == samples, MetricFault::ValueCount),
        boundaries_fault(metric),
        faults::first_of(values),
    ];
    assert(metric_fault(metrics, i, samples) == faults::first_of(checks));
    faults::rows_pass_where_every_check_does(checks);
    assert(checks[0] is None && checks[1] is None && checks[2] is None && checks[3] is None);
    faults::rows_pass_where_every_check_does(values);
    if 0 <= k < samples {
        assert(values[k] is None);
    }
}

} // verus!
