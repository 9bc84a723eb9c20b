//! Readings of the machine and the store while a suite runs.

use crate::bits;
use crate::bits::finite;
use crate::count;
use crate::count::{max_of, minus, plus};
use crate::named::Named;
use crate::suite::records::{MetricSnapshot, MetricValue, TimeseriesSample};
use vstd::prelude::*;

verus! {

/// The operations and errors of the application so far.
#[derive(Debug, Clone, Copy, PartialEq, Eq, Structural)]
pub struct ApplicationCounters {
    pub operations: u64,
    pub errors: u64,
}

impl ApplicationCounters {
    /// The counters after an operation.
    pub open spec fn with_operation(self) -> Self {
        ApplicationCounters { operations: count::capped_sum(self.operations, 1), ..self }
    }

    /// The counters after an error.
    pub open spec fn with_error(self) -> Self {
        ApplicationCounters { errors: count::capped_sum(self.errors, 1), ..self }
    }

    /// Counters that start from zero.
    pub fn new() -> (r: Self)
        ensures
            r.operations == 0,
            r.errors == 0,
    {
        ApplicationCounters { operations: 0, errors: 0 }
    }

    /// Starts from zero again.
    pub fn reset(&mut self)
        ensures
            final(self).operations == 0,
            final(self).errors == 0,
    {
        self.operations = 0;
        self.errors = 0;
    }

    /// Counts an operation.
    pub fn count_operation(&mut self)
        ensures
            *final(self) == old(self).with_operation(),
    {
        self.operations = plus(self.operations, 1);
    }

    /// Counts an error.
    pub fn count_error(&mut self)
        ensures
            *final(self) == old(self).with_error(),
    {
        self.errors = plus(self.errors, 1);
    }
}

/// A number that is not finite, as zero.
pub open spec fn or_zero(bits: u64) -> u64 {
    if bits::is_finite(bits) {
        bits
    } else {
        0
    }
}

/// Returns a number, or zero where it is not finite, by bit patterns.
pub fn finite_or_zero(bits: u64) -> (r: u64)
    ensures
        r == or_zero(bits),
{
    if finite(bits) {
        bits
    } else {
        0
    }
}

/// The labels that a list gives, where later ones stand in place of earlier ones.
pub open spec fn labels_of(listed: Seq<(String, String)>) -> Map<Seq<char>, Seq<char>>
    decreases listed.len(),
{
    if listed.len() == 0 {
        Map::empty()
    } else {
        labels_of(listed.drop_last()).insert(listed.last().0@, listed.last().1@)
    }
}

fn collect_labels(listed: &Vec<(String, String)>) -> (r: Named<String>)
    ensures
        r.wf(),
        r.map().map_values(|v: String| v@) == labels_of(listed@),
{
    let mut labels: Named<String> = Named::new();
    let mut i: usize = 0;
    assert(labels.map().map_values(|v: String| v@) =~= labels_of(listed@.take(0)));
    while i < listed.len()
        invariant
            i <= listed.len(),
            labels.wf(),
            labels.map().map_values(|v: String| v@) == labels_of(listed@.take(i as int)),
        decreases listed.len() - i,
    {
        let ghost before = labels.map();
        let value = listed[i].1.clone();
        labels.put(listed[i].0.clone(), value);
        proof {
            assert(listed@.take(i + 1).drop_last() =~= listed@.take(i as int));
            assert(labels.map().map_values(|v: String| v@) =~= before.map_values(
                |v: String| v@,
            ).insert(listed@[i as int].0@, value@));
        }
        i += 1;
    }
    assert(listed@.take(i as int) =~= listed@);
    labels
}

/// What is kept of the value of a metric: of a distribution, only what is finite.
pub open spec fn kept(value: MetricValue) -> MetricValue {
    match value {
        MetricValue::Histogram { count, sum, min, max, boundaries, bucket_counts } => {
            MetricValue::Histogram {
                count,
                sum: or_zero(sum),
                min: or_zero(min),
                max: or_zero(max),
                boundaries,
                bucket_counts,
            }
        },
        other => other,
    }
}

/// Takes a metric down.
pub fn convert_metric(
    name: String,
    description: String,
    labels: &Vec<(String, String)>,
    value: MetricValue,
) -> (r: MetricSnapshot)
    ensures
        r.name == name,
        r.description == description,
        r.labels.wf(),
        r.labels.map().map_values(|v: String| v@) == labels_of(labels@),
        r.value == kept(value),
{
    let value = match value {
        MetricValue::Histogram { count, sum, min, max, boundaries, bucket_counts } => {
            MetricValue::Histogram {
                count,
                sum: finite_or_zero(sum),
                min: finite_or_zero(min),
                max: finite_or_zero(max),
                boundaries,
                bucket_counts,
            }
        },
        MetricValue::Counter(n) => MetricValue::Counter(n),
        MetricValue::Gauge(n) => MetricValue::Gauge(n),
        MetricValue::UpDownCounter(n) => MetricValue::UpDownCounter(n),
    };
    MetricSnapshot { name, description, labels: collect_labels(labels), value }
}

/// What the machine spent between the first and the last sample, but for the processor.
#[derive(Debug, Clone, Copy, PartialEq, Eq, Structural)]
pub struct ResourceTotals {
    pub peak_rss_bytes: u64,
    pub network_bytes_sent: u64,
    pub network_bytes_received: u64,
    pub disk_bytes_read: u64,
    pub disk_bytes_written: u64,
    pub disk_read_operations: u64,
    pub disk_write_operations: u64,
}

/// The most memory of some samples.
pub open spec fn peak_rss(samples: Seq<TimeseriesSample>) -> u64
    decreases samples.len(),
{
    if samples.len() == 0 {
        0
    } else {
        count::larger(peak_rss(samples.drop_last()), samples.last().rss_bytes)
    }
}

/// What the machine spent between the first and the last sample.
pub open spec fn spent(samples: Seq<TimeseriesSample>) -> ResourceTotals {
    if samples.len() == 0 {
        ResourceTotals {
            peak_rss_bytes: 0,
            network_bytes_sent: 0,
            network_bytes_received: 0,
            disk_bytes_read: 0,
            disk_bytes_written: 0,
            disk_read_operations: 0,
            disk_write_operations: 0,
        }
    } else {
        let a = samples[0];
        let b = samples.last();
        ResourceTotals {
            peak_rss_bytes: peak_rss(samples),
            network_bytes_sent: count::floored_difference(
                b.network_bytes_sent,
                a.network_bytes_sent,
            ),
            network_bytes_received: count::floored_difference(
                b.network_bytes_received,
                a.network_bytes_received,
            ),
            disk_bytes_read: count::floored_difference(b.disk_bytes_read, a.disk_bytes_read),
            disk_bytes_written: count::floored_difference(
                b.disk_bytes_written,
                a.disk_bytes_written,
            ),
            disk_read_operations: count::floored_difference(
                b.disk_read_operations,
                a.disk_read_operations,
            ),
            disk_write_operations: count::floored_difference(
                b.disk_write_operations,
                a.disk_write_operations,
            ),
        }
    }
}

/// Adds up what the machine spent.
pub fn summarize_resources(samples: &Vec<TimeseriesSample>) -> (r: ResourceTotals)
    ensures
        r == spent(samples@),
{
    if samples.len() == 0 {
        return ResourceTotals {
            peak_rss_bytes: 0,
            network_bytes_sent: 0,
            network_bytes_received: 0,
            disk_bytes_read: 0,
            disk_bytes_written: 0,
            disk_read_operations: 0,
            disk_write_operations: 0,
        };
    }
    let mut peak: u64 = 0;
    let mut i: usize = 0;
    assert(samples@.take(0).len() == 0);
    while i < samples.len()
        invariant
            i <= samples.len(),
            peak == peak_rss(samples@.take(i as int)),
        decreases samples.len() - i,
    {
        proof {
            assert(samples@.take(i + 1).drop_last() =~= samples@.take(i as int));
        }
        peak = max_of(peak, samples[i].rss_bytes);
        i += 1;
    }
    assert(samples@.take(i as int) =~= samples@);
    let first = &samples[0];
    let last = &samples[samples.len() - 1];
    ResourceTotals {
        peak_rss_bytes: peak,
        network_bytes_sent: minus(last.network_bytes_sent, first.network_bytes_sent),
        network_bytes_received: minus(last.network_bytes_received, first.network_bytes_received),
        disk_bytes_read: minus(last.disk_bytes_read, first.disk_bytes_read),
        disk_bytes_written: minus(last.disk_bytes_written, first.disk_bytes_written),
        disk_read_operations: minus(last.disk_read_operations, first.disk_read_operations),
        disk_write_operations: minus(last.disk_write_operations, first.disk_write_operations),
    }
}

/// A stretch of time over which a size changed from one sample to the next.
#[derive(Debug, Clone, Copy, PartialEq, Eq, Structural)]
pub struct SizeStretch {
    pub from_bytes: u64,
    pub to_bytes: u64,
    pub duration_ns: u64,
}

/// How the average size of a database is found.
pub enum SizeAverage {
    /// The samples do not tell; the mean of the first and the last size stands in.
    Mean(u64),
    /// The size over time, stretch by stretch.
    Stretches(Vec<SizeStretch>),
}

/// The stretch between a sample and the next.
pub open spec fn stretch_at(samples: Seq<TimeseriesSample>, i: int) -> SizeStretch {
    SizeStretch {
        from_bytes: samples[i].database_size_bytes,
        to_bytes: samples[i + 1].database_size_bytes,
        duration_ns: count::floored_difference(samples[i + 1].offset_ns, samples[i].offset_ns),
    }
}

/// The stretches of a measurement: between the samples, and at the last size to the end.
pub open spec fn stretches(
    samples: Seq<TimeseriesSample>,
    elapsed_ns: u64,
    final_bytes: u64,
) -> Seq<SizeStretch> {
    let between = Seq::new((samples.len() - 1) as nat, |i: int| stretch_at(samples, i));
    if samples.last().offset_ns < elapsed_ns {
        between.push(
            SizeStretch {
                from_bytes: final_bytes,
                to_bytes: final_bytes,
                duration_ns: count::floored_difference(elapsed_ns, samples.last().offset_ns),
            },
        )
    } else {
        between
    }
}

/// Decides how the average size of a database is found.
pub fn average_database_size(
    samples: &Vec<TimeseriesSample>,
    elapsed_ns: u64,
    initial_bytes: u64,
    final_bytes: u64,
) -> (r: SizeAverage)
    ensures
        elapsed_ns == 0 || samples.len() < 2 ==> r == SizeAverage::Mean(
            count::capped_sum(initial_bytes, final_bytes) / 2,
        ),
        elapsed_ns > 0 && samples.len() >= 2 ==> r is Stretches && r->Stretches_0@ == stretches(
            samples@,
            elapsed_ns,
            final_bytes,
        ),
{
    if elapsed_ns == 0 || samples.len() < 2 {
        return SizeAverage::Mean(plus(initial_bytes, final_bytes) / 2);
    }
    let mut out: Vec<SizeStretch> = Vec::new();
    let mut i: usize = 0;
    while i < samples.len() - 1
        invariant
            samples.len() >= 2,
            i <= samples.len() - 1,
            out.len() == i,
            forall|k: int| 0 <= k < i ==> #[trigger] out@[k] == stretch_at(samples@, k),
        decreases samples.len() - i,
    {
        out.push(
            SizeStretch {
                from_bytes: samples[i].database_size_bytes,
                to_bytes: samples[i + 1].database_size_bytes,
                duration_ns: minus(samples[i + 1].offset_ns, samples[i].offset_ns),
            },
        );
        i += 1;
    }
    let last: u64 = samples[samples.len() - 1].offset_ns;
    if last < elapsed_ns {
        out.push(
            SizeStretch {
                from_bytes: final_bytes,
                to_bytes: final_bytes,
                duration_ns: minus(elapsed_ns, last),
            },
        );
    }
    assert(out@ =~= stretches(samples@, elapsed_ns, final_bytes));
    SizeAverage::Stretches(out)
}

/// The length of some stretches together.
pub open spec fn covered_ns(stretches: Seq<SizeStretch>) -> int
    decreases stretches.len(),
{
    if stretches.len() == 0 {
        0
    } else {
        covered_ns(stretches.drop_last()) + stretches.last().duration_ns
    }
}

/// Where the samples rise in time, their stretches cover the time from the first sample to the
/// end of the measurement.
pub proof fn stretches_cover_the_measurement(
    samples: Seq<TimeseriesSample>,
    elapsed_ns: u64,
    final_bytes: u64,
)
    requires
        samples.len() >= 1,
        forall|i: int, j: int|
            0 <= i <= j < samples.len() ==> (#[trigger] samples[i]).offset_ns <= (
            #[trigger] samples[j]).offset_ns,
        samples.last().offset_ns <= elapsed_ns,
    ensures
        covered_ns(stretches(samples, elapsed_ns, final_bytes)) == elapsed_ns
            - samples[0].offset_ns,
{
    let between = Seq::new((samples.len() - 1) as nat, |i: int| stretch_at(samples, i));
    covers_between(samples, between, between.len() as int);
    assert(between.take(between.len() as int) =~= between);
    let all = stretches(samples, elapsed_ns, final_bytes);
    if samples.last().offset_ns < elapsed_ns {
        assert(all.drop_last() =~= between);
    }
}

proof fn covers_between(samples: Seq<TimeseriesSample>, between: Seq<SizeStretch>, n: int)
    requires
        0 <= n <= between.len(),
        between.len() == samples.len() - 1,
        forall|i: int| 0 <= i < between.len() ==> #[trigger] between[i] == stretch_at(samples, i),
        forall|i: int, j: int|
            0 <= i <= j < samples.len() ==> (#[trigger] samples[i]).offset_ns <= (
            #[trigger] samples[j]).offset_ns,
    ensures
        covered_ns(between.take(n)) == samples[n].offset_ns - samples[0].offset_ns,
    decreases n,
{
    if n > 0 {
        covers_between(samples, between, n - 1);
        assert(between.take(n).drop_last() =~= between.take(n - 1));
        assert(between.take(n).last() == stretch_at(samples, n - 1));
        assert(samples[n - 1].offset_ns <= samples[n].offset_ns);
    }
}

/// What a measurement spent is the growth of each counter from its first sample to its last.
pub proof fn spending_is_growth(samples: Seq<TimeseriesSample>)
    requires
        samples.len() > 0,
        samples[0].network_bytes_sent <= samples.last().network_bytes_sent,
        samples[0].network_bytes_received <= samples.last().network_bytes_received,
        samples[0].disk_bytes_read <= samples.last().disk_bytes_read,
        samples[0].disk_bytes_written <= samples.last().disk_bytes_written,
        samples[0].disk_read_operations <= samples.last().disk_read_operations,
        samples[0].disk_write_operations <= samples.last().disk_write_operations,
    ensures
        spent(samples).network_bytes_sent + samples[0].network_bytes_sent
            == samples.last().network_bytes_sent,
        spent(samples).network_bytes_received + samples[0].network_bytes_received
            == samples.last().network_bytes_received,
        spent(samples).disk_bytes_read + samples[0].disk_bytes_read
            == samples.last().disk_bytes_read,
        spent(samples).disk_bytes_written + samples[0].disk_bytes_written
            == samples.last().disk_bytes_written,
        spent(samples).disk_read_operations + samples[0].disk_read_operations
            == samples.last().disk_read_operations,
        spent(samples).disk_write_operations + samples[0].disk_write_operations
            == samples.last().disk_write_operations,
{
}

/// The peak of memory is that of some sample, and no sample is above it.
pub proof fn peaks_are_greatest(samples: Seq<TimeseriesSample>, i: int)
    requires
        0 <= i < samples.len(),
    ensures
        samples[i].rss_bytes <= peak_rss(samples),
        spent(samples).peak_rss_bytes == peak_rss(samples),
        exists|k: int| 0 <= k < samples.len() && #[trigger] samples[k].rss_bytes == peak_rss(samples),
    decreases samples.len(),
{
    let rest = samples.drop_last();
    if rest.len() == 0 {
        assert(peak_rss(rest) == 0);
        assert(samples[0].rss_bytes == peak_rss(samples));
    } else {
        if i < rest.len() {
            peaks_are_greatest(rest, i);
            assert(rest[i] == samples[i]);
        } else {
            peaks_are_greatest(rest, 0);
        }
        let k = choose|k: int| 0 <= k < rest.len() && #[trigger] rest[k].rss_bytes == peak_rss(rest);
        if samples.last().rss_bytes >= peak_rss(rest) {
            assert(samples[samples.len() - 1].rss_bytes == peak_rss(samples));
        } else {
            assert(samples[k].rss_bytes == peak_rss(samples));
        }
    }
}

/// An operation and an error each add one to their own counter.
pub proof fn counters_move_apart(c: ApplicationCounters)
    requires
        c.operations < u64::MAX,
        c.errors < u64::MAX,
    ensures
        c.with_operation() == (ApplicationCounters {
            operations: (c.operations + 1) as u64,
            ..c
        }),
        c.with_error() == (ApplicationCounters { errors: (c.errors + 1) as u64, ..c }),
{
}

/// A stretch between two samples goes from the size of the one to that of the other, for the time
/// between them, and the time after the last sample has the final size.
pub proof fn stretches_join_their_samples(
    samples: Seq<TimeseriesSample>,
    elapsed_ns: u64,
    final_bytes: u64,
    i: int,
)
    requires
        0 <= i < samples.len() - 1,
        samples[i].offset_ns <= samples[i + 1].offset_ns,
    ensures
        ({
            let s = stretches(samples, elapsed_ns, final_bytes);
            &&& s[i].from_bytes == samples[i].database_size_bytes
            &&& s[i].to_bytes == samples[i + 1].database_size_bytes
            &&& s[i].duration_ns + samples[i].offset_ns == samples[i + 1].offset_ns
            &&& samples.last().offset_ns < elapsed_ns ==> {
                &&& s.len() == samples.len()
                &&& s.last().from_bytes == final_bytes && s.last().to_bytes == final_bytes
                &&& s.last().duration_ns + samples.last().offset_ns == elapsed_ns
            }
            &&& samples.last().offset_ns >= elapsed_ns ==> s.len() == samples.len() - 1
        }),
{
}

/// The labels of a metric are those listed, the last one of a name where it occurs again.
pub proof fn labels_are_those_listed(
    listed: Seq<(String, String)>,
    label: (String, String),
    other: Seq<char>,
)
    requires
        other != label.0@,
    ensures
        labels_of(Seq::<(String, String)>::empty()) == Map::<Seq<char>, Seq<char>>::empty(),
        labels_of(listed.push(label)).dom().contains(label.0@),
        labels_of(listed.push(label))[label.0@] == label.1@,
        labels_of(listed.push(label)).dom().contains(other) == labels_of(listed).dom().contains(
            other,
        ),
        labels_of(listed).dom().contains(other) ==> labels_of(listed.push(label))[other]
            == labels_of(listed)[other],
{
    assert(listed.push(label).drop_last() =~= listed);
}

/// A number that is not finite is kept as zero, and any other as it is.
pub proof fn kept_numbers_are_finite(number: u64)
    ensures
        bits::is_finite(number) ==> or_zero(number) == number,
        !bits::is_finite(number) ==> or_zero(number) == 0,
{
}

} // verus!
