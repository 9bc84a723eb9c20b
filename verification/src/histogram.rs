//! HDR histogram recording and conversion to published latency artifacts.

use crate::count::times;
use crate::model::HistogramSeries;
use crate::named::Named;
use crate::payload;
use crate::text::strip_prefix;
use hdrhistogram::serialization::{Deserializer, Serializer, V2DeflateSerializer};
use hdrhistogram::Histogram;
use vstd::prelude::*;

verus! {

/// Number of significant decimal digits retained by latency histograms.
pub const SIGNIFICANT_DIGITS: u8 = 3;

/// The longest latency that a histogram distinguishes: 24 hours, in microseconds.
pub const MAX_MICROSECONDS: u64 = 86_400_000_000;

/// An HDR histogram of microseconds between one microsecond and 24 hours, with three
/// significant digits.
#[verifier::external_body]
pub struct HdrBuckets {
    inner: Histogram<u64>,
}

/// What a histogram holds: the upper end of each populated bucket, with its count.
pub uninterp spec fn bucket_counts(h: HdrBuckets) -> Map<u64, u64>;

/// The number of observations that a histogram reports.
pub uninterp spec fn recorded_total(h: HdrBuckets) -> u64;

/// What `Histogram::value_at_quantile` gives for a quantile in thousandths.
pub uninterp spec fn quantile_value(counts: Map<u64, u64>, total: u64, permille: u64) -> u64;

/// The bit pattern of what `Histogram::mean` gives.
pub uninterp spec fn mean_bits(counts: Map<u64, u64>, total: u64) -> u64;

/// The bytes that `V2DeflateSerializer::serialize` writes, where every count can be written.
pub uninterp spec fn serialized(counts: Map<u64, u64>) -> Option<Seq<u8>>;

/// What `Deserializer::deserialize` reads, where the bytes hold a histogram.
pub uninterp spec fn deserialized(bytes: Seq<u8>) -> Option<Recorded>;

/// What a histogram that was read holds.
pub uninterp spec fn stored(h: StoredHistogram) -> Recorded;

/// The number of neighbouring values that share a bucket with `value`.
///
/// Values below 2048 stand alone; each doubling beyond that doubles the width.
pub open spec fn bucket_width(value: nat) -> nat
    decreases value,
{
    if value < 2048 {
        1
    } else {
        2 * bucket_width(value / 2)
    }
}

/// The lowest value that shares a bucket with `value`.
pub open spec fn bucket_bottom(value: nat) -> nat {
    value / bucket_width(value) * bucket_width(value)
}

/// The highest value that shares a bucket with `value`.
pub open spec fn bucket_top(value: nat) -> nat {
    (bucket_bottom(value) + bucket_width(value) - 1) as nat
}

/// The count under a bucket, zero where the bucket is empty.
pub open spec fn count_in(counts: Map<u64, u64>, bucket: u64) -> u64 {
    if counts.dom().contains(bucket) {
        counts[bucket]
    } else {
        0
    }
}

/// The counts of two histograms, bucket by bucket.
pub open spec fn merged_counts(a: Map<u64, u64>, b: Map<u64, u64>) -> Map<u64, u64> {
    Map::new(
        |k: u64| a.dom().contains(k) || b.dom().contains(k),
        |k: u64| crate::count::capped_sum(count_in(a, k), count_in(b, k)),
    )
}

/// Whether `bucket` is the populated bucket with the highest values.
pub open spec fn is_greatest(counts: Map<u64, u64>, bucket: u64) -> bool {
    counts.dom().contains(bucket) && forall|k: u64| counts.dom().contains(k) ==> k <= bucket
}

/// Whether `bucket` is the populated bucket with the lowest values.
pub open spec fn is_least(counts: Map<u64, u64>, bucket: u64) -> bool {
    counts.dom().contains(bucket) && forall|k: u64| counts.dom().contains(k) ==> bucket <= k
}

/// Whether `value` is the lower end of the lowest populated bucket.
pub open spec fn is_least_value(counts: Map<u64, u64>, value: u64) -> bool {
    exists|bucket: u64| is_least(counts, bucket) && value == bucket_bottom(bucket as nat)
}

/// No populated bucket.
pub open spec fn no_counts() -> Map<u64, u64> {
    Map::empty()
}

/// Whether a bit pattern is that of a finite number that is not negative.
pub open spec fn plain_bits(bits: u64) -> bool {
    bits < 0x7ff0_0000_0000_0000
}

impl HdrBuckets {
    /// `Histogram::new_with_bounds` with bounds of one microsecond and 24 hours and three
    /// significant digits: these arguments are valid, and nothing is recorded at first.
    #[verifier::external_body]
    fn new() -> (r: Self)
        ensures
            bucket_counts(r) == no_counts(),
            recorded_total(r) == 0,
    {
        let inner = Histogram::new_with_bounds(1, MAX_MICROSECONDS, SIGNIFICANT_DIGITS);
        HdrBuckets { inner: inner.expect("valid histogram bounds") }
    }

    /// `Histogram::record_n`: adds `count` to the bucket of `value` and to the total, both
    /// stopping at the largest count. A value within the bounds is always accepted.
    #[verifier::external_body]
    fn record_n(&mut self, value: u64, count: u64)
        requires
            1 <= value <= MAX_MICROSECONDS,
            count >= 1,
        ensures
            bucket_counts(*final(self)) == bucket_counts(*old(self)).insert(
                bucket_top(value as nat) as u64,
                crate::count::capped_sum(
                    count_in(bucket_counts(*old(self)), bucket_top(value as nat) as u64),
                    count,
                ),
            ),
            recorded_total(*final(self)) == crate::count::capped_sum(recorded_total(*old(self)), count),
    {
        let _ = self.inner.record_n(value, count);
    }

    /// `Histogram::add`: adds the counts of every bucket of `other`, and its total, each
    /// stopping at the largest count. Histograms of the same bounds always merge.
    #[verifier::external_body]
    fn add(&mut self, other: &Self)
        ensures
            bucket_counts(*final(self)) == merged_counts(
                bucket_counts(*old(self)),
                bucket_counts(*other),
            ),
            recorded_total(*final(self)) == crate::count::capped_sum(
                recorded_total(*old(self)),
                recorded_total(*other),
            ),
    {
        let _ = self.inner.add(&other.inner);
    }

    /// `Histogram::reset`: removes everything that was recorded.
    #[verifier::external_body]
    fn reset(&mut self)
        ensures
            bucket_counts(*final(self)) == no_counts(),
            recorded_total(*final(self)) == 0,
    {
        self.inner.reset();
    }

    /// `Histogram::len`: the total, which is zero exactly when no bucket is populated.
    #[verifier::external_body]
    fn len(&self) -> (r: u64)
        ensures
            r == recorded_total(*self),
            r == 0 <==> bucket_counts(*self) == no_counts(),
    {
        self.inner.len()
    }

    /// `Histogram::max`: the upper end of the highest populated bucket.
    #[verifier::external_body]
    fn max(&self) -> (r: u64)
        requires
            recorded_total(*self) > 0,
        ensures
            is_greatest(bucket_counts(*self), r),
    {
        self.inner.max()
    }

    /// `Histogram::min`: the lower end of the lowest populated bucket.
    #[verifier::external_body]
    fn min(&self) -> (r: u64)
        requires
            recorded_total(*self) > 0,
        ensures
            is_least_value(bucket_counts(*self), r),
    {
        self.inner.min()
    }

    /// `Histogram::value_at_quantile` for a quantile in thousandths: the upper end of a populated
    /// bucket, which does not move down as the quantile grows. The sum of the counts has to be
    /// within the range of the total.
    #[verifier::external_body]
    fn value_at_permille(&self, permille: u64) -> (r: u64)
        requires
            0 < recorded_total(*self) < u64::MAX,
            1 <= permille <= 999,
        ensures
            r == quantile_value(bucket_counts(*self), recorded_total(*self), permille),
            bucket_counts(*self).dom().contains(r),
            forall|q: u64|
                1 <= q <= permille ==> #[trigger] quantile_value(
                    bucket_counts(*self),
                    recorded_total(*self),
                    q,
                ) <= r,
    {
        self.inner.value_at_quantile(std::time::Duration::from_millis(permille).as_secs_f64())
    }

    /// `Histogram::mean`, as a bit pattern: the mean of values within the bounds is finite and
    /// not negative.
    #[verifier::external_body]
    fn mean(&self) -> (r: u64)
        ensures
            r == mean_bits(bucket_counts(*self), recorded_total(*self)),
            plain_bits(r),
    {
        self.inner.mean().to_bits()
    }

    /// `Histogram::iter_recorded`: the populated buckets in rising order, each with its count.
    #[verifier::external_body]
    fn recorded(&self) -> (r: Vec<(u64, u64)>)
        ensures
            forall|i: int, j: int| 0 <= i < j < r.len() ==> (#[trigger] r@[i]).0 < (#[trigger] r@[j]).0,
            forall|i: int|
                0 <= i < r.len() ==> bucket_counts(*self).dom().contains((#[trigger] r@[i]).0)
                    && bucket_counts(*self)[r@[i].0] == r@[i].1 && r@[i].1 > 0,
            forall|k: u64| #[trigger]
                bucket_counts(*self).dom().contains(k) ==> exists|i: int|
                    0 <= i < r.len() && (#[trigger] r@[i]).0 == k,
    {
        self.inner.iter_recorded().map(|v| (v.value_iterated_to(), v.count_at_value())).collect()
    }
}

impl HdrBuckets {
    /// `V2DeflateSerializer::serialize`: the compressed V2 form of the counts, which
    /// `Deserializer::deserialize` reads back. Only a count beyond the range of a signed 64-bit
    /// number cannot be written, and only counts and the lengths of gaps between them are.
    #[verifier::external_body]
    fn serialize(&self) -> (r: Option<Vec<u8>>)
        ensures
            r is Some <==> serialized(bucket_counts(*self)) is Some,
            r matches Some(bytes) ==> Some(bytes@) == serialized(bucket_counts(*self)),
            recorded_total(*self) <= i64::MAX ==> r is Some,
            r matches Some(bytes) ==> payload::readable(bytes@),
            recorded_total(*self) < u64::MAX && r is Some ==> deserialized(r->0@) == Some(
                (Recorded { counts: bucket_counts(*self), total: recorded_total(*self) }),
            ),
    {
        let mut bytes = Vec::new();
        let written = V2DeflateSerializer::new().serialize(&self.inner, &mut bytes);
        written.ok().map(|_| bytes)
    }
}

/// A histogram that was read from bytes, with the bounds that the bytes give.
#[verifier::external_body]
pub struct StoredHistogram {
    inner: Histogram<u64>,
}

impl StoredHistogram {
    /// `Deserializer::deserialize`: reads a histogram in one of the V2 forms, or nothing where
    /// the bytes hold none. It negates numbers among the counts, so the one that has no negative
    /// is left out.
    #[verifier::external_body]
    pub(crate) fn read(bytes: &Vec<u8>) -> (r: Option<Self>)
        requires
            payload::readable(bytes@),
        ensures
            r is Some <==> deserialized(bytes@) is Some,
            r matches Some(h) ==> Some(stored(h)) == deserialized(bytes@),
    {
        let read = Deserializer::new().deserialize(&mut std::io::Cursor::new(bytes));
        read.ok().map(|inner| StoredHistogram { inner })
    }

    /// `Histogram::len` of a histogram that was read: the number of its observations.
    #[verifier::external_body]
    pub(crate) fn total(&self) -> (r: u64)
        ensures
            r == stored(*self).total,
    {
        self.inner.len()
    }

    /// `Histogram::max` of a histogram that was read: the upper end of its highest populated
    /// bucket, and zero where it has none.
    #[verifier::external_body]
    pub(crate) fn greatest(&self) -> (r: u64)
        ensures
            stored(*self).total == 0 ==> r == 0,
            stored(*self).total > 0 ==> is_greatest(stored(*self).counts, r),
    {
        self.inner.max()
    }

    /// `Histogram::value_at_quantile` of a histogram that was read, for a quantile in thousandths:
    /// the upper end of a populated bucket, which the counts alone decide, and zero where there
    /// is none. The sum of the counts has to be within the range of the total.
    #[verifier::external_body]
    pub(crate) fn value_at(&self, permille: u64) -> (r: u64)
        requires
            stored(*self).total < u64::MAX,
            1 <= permille <= 999,
        ensures
            stored(*self).total == 0 ==> r == 0,
            stored(*self).total > 0 ==> r == quantile_value(
                stored(*self).counts,
                stored(*self).total,
                permille,
            ),
    {
        self.inner.value_at_quantile(std::time::Duration::from_millis(permille).as_secs_f64())
    }
}

/// What a latency histogram holds.
#[verifier::ext_equal]
pub struct Recorded {
    /// The count of each populated bucket, by the upper end of the bucket in microseconds.
    pub counts: Map<u64, u64>,
    /// The number of observations.
    pub total: u64,
}

impl Recorded {
    /// Nothing recorded.
    pub open spec fn none() -> Self {
        Recorded { counts: Map::empty(), total: 0 }
    }

    /// The state after `count` observations of `micros`.
    pub open spec fn with(self, micros: u64, count: u64) -> Self {
        let bucket = bucket_top(micros as nat) as u64;
        if count == 0 {
            self
        } else {
            Recorded {
                counts: self.counts.insert(
                    bucket,
                    crate::count::capped_sum(count_in(self.counts, bucket), count),
                ),
                total: crate::count::capped_sum(self.total, count),
            }
        }
    }

    /// The state with the observations of `other` added.
    pub open spec fn merged(self, other: Self) -> Self {
        Recorded {
            counts: merged_counts(self.counts, other.counts),
            total: crate::count::capped_sum(self.total, other.total),
        }
    }
}

/// The latency in whole microseconds, no less than one and no more than 24 hours.
pub open spec fn clamped_micros(duration_ns: u64) -> u64 {
    let micros = duration_ns / 1_000;
    if micros < 1 {
        1
    } else if micros > MAX_MICROSECONDS {
        MAX_MICROSECONDS
    } else {
        micros
    }
}

/// A number of microseconds in nanoseconds, stopping at the largest 64-bit value.
pub open spec fn micros_as_nanos(micros: u64) -> u64 {
    crate::count::capped_product(micros, 1_000)
}

/// Percentiles of a latency histogram.
#[derive(Clone, Copy, PartialEq, Eq, Structural, Debug)]
pub struct LatencyDigest {
    /// Number of latency observations.
    pub count: u64,
    /// Bit pattern of the arithmetic mean in microseconds.
    pub mean_us: u64,
    /// Median in nanoseconds.
    pub p50_ns: u64,
    /// 95th percentile in nanoseconds.
    pub p95_ns: u64,
    /// 99th percentile in nanoseconds.
    pub p99_ns: u64,
    /// 99.9th percentile in nanoseconds.
    pub p999_ns: u64,
    /// Minimum in nanoseconds.
    pub min_ns: u64,
    /// Maximum in nanoseconds.
    pub max_ns: u64,
}

/// A percentile of what is recorded, in nanoseconds.
pub open spec fn percentile_ns(r: Recorded, permille: u64) -> u64 {
    micros_as_nanos(quantile_value(r.counts, r.total, permille))
}

/// Whether a digest describes what is recorded.
pub open spec fn digests(d: LatencyDigest, r: Recorded) -> bool {
    if r.total == 0 {
        d == (LatencyDigest {
            count: 0,
            mean_us: 0,
            p50_ns: 0,
            p95_ns: 0,
            p99_ns: 0,
            p999_ns: 0,
            min_ns: 0,
            max_ns: 0,
        })
    } else {
        &&& d.count == r.total
        &&& d.mean_us == mean_bits(r.counts, r.total)
        &&& d.p50_ns == percentile_ns(r, 500)
        &&& d.p95_ns == percentile_ns(r, 950)
        &&& d.p99_ns == percentile_ns(r, 990)
        &&& d.p999_ns == percentile_ns(r, 999)
        &&& exists|k: u64|
            is_least(r.counts, k) && d.min_ns == micros_as_nanos(bucket_bottom(k as nat) as u64)
        &&& exists|k: u64| is_greatest(r.counts, k) && d.max_ns == micros_as_nanos(k)
    }
}

/// Whether the percentiles of a digest rise from the minimum to the maximum.
pub open spec fn digest_rises(d: LatencyDigest) -> bool {
    d.min_ns <= d.p50_ns <= d.p95_ns <= d.p99_ns <= d.p999_ns <= d.max_ns
}

/// Converts microseconds to nanoseconds, stopping at the largest 64-bit value.
fn as_nanos(micros: u64) -> (r: u64)
    ensures
        r == micros_as_nanos(micros),
{
    times(micros, 1_000)
}

/// HDR histogram that records clamped microsecond values and exports nanoseconds.
pub struct LatencyHistogram {
    inner: HdrBuckets,
}

impl View for LatencyHistogram {
    type V = Recorded;

    closed spec fn view(&self) -> Recorded {
        Recorded { counts: bucket_counts(self.inner), total: recorded_total(self.inner) }
    }
}

impl Default for LatencyHistogram {
    fn default() -> (r: Self)
        ensures
            r@ == Recorded::none(),
    {
        LatencyHistogram::new()
    }
}

impl LatencyHistogram {
    /// Creates an empty histogram covering one microsecond through 24 hours.
    pub fn new() -> (r: Self)
        ensures
            r@ == Recorded::none(),
    {
        LatencyHistogram { inner: HdrBuckets::new() }
    }

    /// Records one latency observation.
    pub fn record(&mut self, duration_ns: u64)
        ensures
            final(self)@ == old(self)@.with(clamped_micros(duration_ns), 1),
    {
        self.record_n(duration_ns, 1);
    }

    /// Records `count` observations with the same latency.
    pub fn record_n(&mut self, duration_ns: u64, count: u64)
        ensures
            final(self)@ == old(self)@.with(clamped_micros(duration_ns), count),
    {
        let micros: u64 = duration_ns / 1_000;
        self.record_micros_n(micros, count);
    }

    /// Records one observation in microseconds.
    pub fn record_micros(&mut self, micros: u64)
        ensures
            micros <= u64::MAX / 1_000 ==> final(self)@ == old(self)@.with(
                clamped_micros((micros * 1_000) as u64),
                1,
            ),
            micros > MAX_MICROSECONDS ==> final(self)@ == old(self)@.with(MAX_MICROSECONDS, 1),
    {
        self.record_micros_n(micros, 1);
    }

    fn record_micros_n(&mut self, micros: u64, count: u64)
        ensures
            final(self)@ == old(self)@.with(
                if micros < 1 {
                    1
                } else if micros > MAX_MICROSECONDS {
                    MAX_MICROSECONDS
                } else {
                    micros
                },
                count,
            ),
    {
        let clamped: u64 = if micros < 1 {
            1
        } else if micros > MAX_MICROSECONDS {
            MAX_MICROSECONDS
        } else {
            micros
        };
        if count > 0 {
            self.inner.record_n(clamped, count);
        }
    }

    /// Merges another histogram into this one.
    pub fn add(&mut self, other: &Self)
        ensures
            final(self)@ == old(self)@.merged(other@),
    {
        self.inner.add(&other.inner);
    }

    /// Removes all observations while retaining the allocation.
    pub fn reset(&mut self)
        ensures
            final(self)@ == Recorded::none(),
    {
        self.inner.reset();
    }

    /// Returns the number of recorded observations.
    pub fn len(&self) -> (r: u64)
        ensures
            r == self@.total,
    {
        self.inner.len()
    }

    /// Returns whether the histogram contains no observations.
    pub fn is_empty(&self) -> (r: bool)
        ensures
            r == (self@.total == 0),
    {
        self.inner.len() == 0
    }

    /// Summarizes the histogram using the published percentile set.
    pub fn summary(&self) -> (r: LatencyDigest)
        requires
            self@.total < u64::MAX,
        ensures
            digests(r, self@),
            digest_rises(r),
            plain_bits(r.mean_us),
    {
        if self.inner.len() == 0 {
            return LatencyDigest {
                count: 0,
                mean_us: 0,
                p50_ns: 0,
                p95_ns: 0,
                p99_ns: 0,
                p999_ns: 0,
                min_ns: 0,
                max_ns: 0,
            };
        }
        let p50: u64 = self.inner.value_at_permille(500);
        let p95: u64 = self.inner.value_at_permille(950);
        let p99: u64 = self.inner.value_at_permille(990);
        let p999: u64 = self.inner.value_at_permille(999);
        let least: u64 = self.inner.min();
        let greatest: u64 = self.inner.max();
        proof {
            let k = choose|k: u64|
                is_least(self@.counts, k) && least == bucket_bottom(k as nat);
            bucket_bottom_is_below(k as nat);
            assert(k <= p50);
        }
        LatencyDigest {
            count: self.inner.len(),
            mean_us: self.inner.mean(),
            p50_ns: as_nanos(p50),
            p95_ns: as_nanos(p95),
            p99_ns: as_nanos(p99),
            p999_ns: as_nanos(p999),
            min_ns: as_nanos(least),
            max_ns: as_nanos(greatest),
        }
    }

    /// Serializes the histogram in its compressed form.
    pub fn to_bytes(&self) -> (r: Option<Vec<u8>>)
        ensures
            r is Some <==> serialized(self@.counts) is Some,
            r matches Some(bytes) ==> Some(bytes@) == serialized(self@.counts),
            self@.total <= i64::MAX ==> r is Some,
            r matches Some(bytes) ==> payload::readable(bytes@),
            self@.total < u64::MAX && r is Some ==> deserialized(r->0@) == Some(self@),
    {
        self.inner.serialize()
    }

    /// Returns the ends of the recorded range in microseconds, zero where nothing is recorded.
    pub fn range_micros(&self) -> (r: (u64, u64))
        ensures
            self@.total == 0 ==> r == (0u64, 0u64),
            self@.total > 0 ==> is_least_value(self@.counts, r.0) && is_greatest(
                self@.counts,
                r.1,
            ),
    {
        if self.inner.len() == 0 {
            (0, 0)
        } else {
            (self.inner.min(), self.inner.max())
        }
    }

    /// Exports non-empty histogram buckets as a sparse series.
    pub fn series(&self) -> (r: HistogramSeries)
        ensures
            series_of(r, self@),
    {
        let recorded = self.inner.recorded();
        let mut upper_bound_ns: Vec<u64> = Vec::new();
        let mut counts: Vec<u64> = Vec::new();
        let mut i: usize = 0;
        while i < recorded.len()
            invariant
                i <= recorded.len(),
                upper_bound_ns.len() == i,
                counts.len() == i,
                forall|k: int|
                    0 <= k < i ==> upper_bound_ns@[k] == micros_as_nanos(recorded@[k].0)
                        && counts@[k] == recorded@[k].1,
            decreases recorded.len() - i,
        {
            upper_bound_ns.push(as_nanos(recorded[i].0));
            counts.push(recorded[i].1);
            i += 1;
        }
        let ghost buckets = Seq::new(recorded.len() as nat, |k: int| recorded@[k].0);
        let r = HistogramSeries { upper_bound_ns, counts };
        proof {
            assert forall|b: u64| buckets.contains(b) <==> self@.counts.dom().contains(b) by {
                if self@.counts.dom().contains(b) {
                    let k = choose|k: int| 0 <= k < recorded.len() && (#[trigger] recorded@[k]).0 == b;
                    assert(buckets[k] == b);
                }
            }
            assert(lists_buckets(buckets, self@.counts));
            assert(describes(r, buckets, self@.counts));
        }
        r
    }
}

/// Named collection of latency histograms.
pub struct HistogramSet {
    values: Named<LatencyHistogram>,
}

impl View for HistogramSet {
    type V = Map<Seq<char>, Recorded>;

    closed spec fn view(&self) -> Map<Seq<char>, Recorded> {
        self.values.map().map_values(|h: LatencyHistogram| h@)
    }
}

/// What is recorded under a name, which is nothing where the name is absent.
pub open spec fn recorded_as(m: Map<Seq<char>, Recorded>, name: Seq<char>) -> Recorded {
    if m.dom().contains(name) {
        m[name]
    } else {
        Recorded::none()
    }
}

/// The set with one more observation under a name.
pub open spec fn with_observation(
    m: Map<Seq<char>, Recorded>,
    name: Seq<char>,
    duration_ns: u64,
) -> Map<Seq<char>, Recorded> {
    m.insert(name, recorded_as(m, name).with(clamped_micros(duration_ns), 1))
}

/// Two sets merged name by name; names with no observations in `b` add nothing.
pub open spec fn merged_sets(
    a: Map<Seq<char>, Recorded>,
    b: Map<Seq<char>, Recorded>,
) -> Map<Seq<char>, Recorded> {
    Map::new(
        |n: Seq<char>| a.dom().contains(n) || (b.dom().contains(n) && b[n].total > 0),
        |n: Seq<char>|
            if b.dom().contains(n) && b[n].total > 0 {
                recorded_as(a, n).merged(b[n])
            } else {
                a[n]
            },
    )
}

/// Two sets merged name by name, with every name of both.
pub open spec fn combined_sets(
    a: Map<Seq<char>, Recorded>,
    b: Map<Seq<char>, Recorded>,
) -> Map<Seq<char>, Recorded> {
    Map::new(
        |n: Seq<char>| a.dom().contains(n) || b.dom().contains(n),
        |n: Seq<char>|
            if b.dom().contains(n) {
                recorded_as(a, n).merged(b[n])
            } else {
                a[n]
            },
    )
}

spec fn merged_where(
    a: Map<Seq<char>, Recorded>,
    b: Map<Seq<char>, Recorded>,
    all: bool,
) -> Map<Seq<char>, Recorded> {
    Map::new(
        |n: Seq<char>| a.dom().contains(n) || (b.dom().contains(n) && (all || b[n].total > 0)),
        |n: Seq<char>|
            if b.dom().contains(n) && (all || b[n].total > 0) {
                recorded_as(a, n).merged(b[n])
            } else {
                a[n]
            },
    )
}

/// Whether every histogram of a set counts within the range that percentiles need.
pub open spec fn within_range(m: Map<Seq<char>, Recorded>) -> bool {
    forall|n: Seq<char>| #[trigger] m.dom().contains(n) ==> m[n].total < u64::MAX
}

impl HistogramSet {
    /// The names, in order.
    pub closed spec fn names(&self) -> Seq<Seq<char>> {
        self.values.names()
    }

    /// The names are in order and none occurs twice.
    pub closed spec fn wf(&self) -> bool {
        self.values.wf()
    }

    /// An empty set.
    pub fn new() -> (r: Self)
        ensures
            r.wf(),
            r@ == Map::<Seq<char>, Recorded>::empty(),
    {
        let r = HistogramSet { values: Named::new() };
        assert(r@ =~= Map::<Seq<char>, Recorded>::empty());
        r
    }

    /// Makes sure that a name has a histogram, and returns its position.
    fn entry(&mut self, name: &str) -> (i: usize)
        requires
            old(self).wf(),
        ensures
            final(self).wf(),
            i < final(self).values.names().len(),
            final(self).values.names()[i as int] == name@,
            final(self)@ == old(self)@.insert(name@, recorded_as(old(self)@, name@)),
    {
        let ghost before = *self;
        let (at, found) = self.values.locate(name);
        if found {
            proof {
                self.values.entry(at as int);
                assert(self@.dom().contains(name@));
                assert(self@ =~= before@.insert(name@, recorded_as(before@, name@)));
            }
            return at;
        }
        self.values.put(name.to_string(), LatencyHistogram::new());
        let (at, found) = self.values.locate(name);
        proof {
            assert(self.values.map().dom().contains(name@));
            assert(self@ =~= before@.insert(name@, recorded_as(before@, name@)));
        }
        at
    }

    /// Records one observation in the named histogram.
    pub fn record(&mut self, name: &str, duration_ns: u64)
        requires
            old(self).wf(),
        ensures
            final(self).wf(),
            final(self)@ == with_observation(old(self)@, name@, duration_ns),
    {
        let ghost before = *self;
        let i = self.entry(name);
        let ghost middle = *self;
        {
            let h = self.values.value_mut(i);
            h.record(duration_ns);
        }
        proof {
            let value = self.values.values()[i as int];
            Named::value_replaced(middle.values, self.values, i as int, value);
            middle.values.entry(i as int);
            assert(middle@.dom().contains(name@));
            assert(middle@[name@] == middle.values.values()[i as int]@);
            assert(value@ == middle@[name@].with(clamped_micros(duration_ns), 1));
            assert(self@ =~= middle@.insert(name@, value@));
            assert(self@ =~= with_observation(before@, name@, duration_ns));
        }
    }

    /// Records one observation in microseconds in the named histogram.
    pub fn record_micros(&mut self, name: &str, micros: u64)
        requires
            old(self).wf(),
        ensures
            final(self).wf(),
            final(self)@ == old(self)@.insert(
                name@,
                recorded_as(old(self)@, name@).with(
                    if micros < 1 {
                        1
                    } else if micros > MAX_MICROSECONDS {
                        MAX_MICROSECONDS
                    } else {
                        micros
                    },
                    1,
                ),
            ),
    {
        let ghost before = *self;
        let i = self.entry(name);
        let ghost middle = *self;
        {
            let h = self.values.value_mut(i);
            h.record_micros_n(micros, 1);
        }
        proof {
            let value = self.values.values()[i as int];
            Named::value_replaced(middle.values, self.values, i as int, value);
            middle.values.entry(i as int);
            assert(middle@.dom().contains(name@));
            assert(middle@[name@] == middle.values.values()[i as int]@);
            assert(self@ =~= middle@.insert(name@, value@));
            assert(self@ =~= before@.insert(name@, value@));
        }
    }

    /// Puts a histogram under a name, in place of the one that was there.
    pub fn insert(&mut self, name: &str, histogram: LatencyHistogram)
        requires
            old(self).wf(),
        ensures
            final(self).wf(),
            final(self)@ == old(self)@.insert(name@, histogram@),
    {
        let ghost before = *self;
        self.values.put(name.to_string(), histogram);
        assert(self@ =~= before@.insert(name@, histogram@));
    }

    /// Returns the histogram under a name, if there is one.
    pub fn get(&self, name: &str) -> (r: Option<&LatencyHistogram>)
        requires
            self.wf(),
        ensures
            r is Some <==> self@.dom().contains(name@),
            r matches Some(h) ==> h@ == self@[name@],
    {
        self.values.get(name)
    }

    /// Returns the number of names.
    pub fn len(&self) -> (r: usize)
        ensures
            r == self.names().len(),
    {
        self.values.len()
    }

    /// Returns the name and the histogram at a position.
    pub fn at(&self, i: usize) -> (r: (&String, &LatencyHistogram))
        requires
            self.wf(),
            i < self.names().len(),
        ensures
            r.0@ == self.names()[i as int],
            self@.dom().contains(r.0@),
            r.1@ == self@[r.0@],
    {
        proof {
            self.values.entry(i as int);
        }
        (self.values.name_at(i), self.values.value_at(i))
    }

    /// The names of a set are those of its view, in order.
    pub proof fn names_are_those_of_the_view(&self)
        requires
            self.wf(),
        ensures
            crate::named::names_increase(self.names()),
            forall|n: Seq<char>| self.names().contains(n) <==> self@.dom().contains(n),
    {
    }

    /// Merges populated histograms from another set.
    pub fn merge(&mut self, other: &Self)
        requires
            old(self).wf(),
            other.wf(),
        ensures
            final(self).wf(),
            final(self)@ == merged_sets(old(self)@, other@),
    {
        let ghost before = *self;
        self.merge_where(other, false);
        assert(self@ =~= merged_sets(before@, other@));
    }

    /// Merges every histogram of another set, with its name.
    pub fn combine(&mut self, other: &Self)
        requires
            old(self).wf(),
            other.wf(),
        ensures
            final(self).wf(),
            final(self)@ == combined_sets(old(self)@, other@),
    {
        let ghost before = *self;
        self.merge_where(other, true);
        assert(self@ =~= combined_sets(before@, other@));
    }

    fn merge_where(&mut self, other: &Self, all: bool)
        requires
            old(self).wf(),
            other.wf(),
        ensures
            final(self).wf(),
            final(self)@ == merged_where(old(self)@, other@, all),
    {
        let ghost before = *self;
        let ghost names = other.values.names();
        let mut k: usize = 0;
        proof {
            assert(before@ =~= merged_upto(before@, other@, names, 0, all));
        }
        while k < other.values.len()
            invariant
                self.wf(),
                other.wf(),
                names == other.values.names(),
                k <= names.len(),
                self@ == merged_upto(before@, other@, names, k as int, all),
            decreases names.len() - k,
        {
            let ghost start = *self;
            let name = other.values.name_at(k);
            let histogram = other.values.value_at(k);
            proof {
                other.values.entry(k as int);
                assert(other@.dom().contains(names[k as int]));
                assert(other@[names[k as int]] == histogram@);
                crate::named::position_is_unique(names, k as int);
            }
            if all || !histogram.is_empty() {
                let i = self.entry(name.as_str());
                let ghost middle = *self;
                {
                    let h = self.values.value_mut(i);
                    h.add(histogram);
                }
                proof {
                    let value = self.values.values()[i as int];
                    Named::value_replaced(middle.values, self.values, i as int, value);
                    middle.values.entry(i as int);
                    merged_step(before@, other@, names, k as int, all);
                    assert(middle@.dom().contains(name@));
                    assert(middle@[name@] == middle.values.values()[i as int]@);
                    assert(value@ == middle@[name@].merged(histogram@));
                    assert(self@ =~= middle@.insert(name@, value@));
                    assert(self@ =~= merged_upto(before@, other@, names, k + 1, all));
                }
            } else {
                proof {
                    merged_step(before@, other@, names, k as int, all);
                }
            }
            k += 1;
        }
        proof {
            assert forall|n: Seq<char>| other@.dom().contains(n) <==> names.contains(n) by {}
            assert(self@ =~= merged_where(before@, other@, all));
        }
    }

    /// Resets all histograms while retaining names and allocations.
    pub fn reset(&mut self)
        requires
            old(self).wf(),
        ensures
            final(self).wf(),
            final(self)@ == old(self)@.map_values(|r: Recorded| Recorded::none()),
    {
        let ghost before = *self;
        let mut k: usize = 0;
        while k < self.values.len()
            invariant
                before.wf(),
                self.wf(),
                self.values.names() == before.values.names(),
                k <= self.values.names().len(),
                forall|i: int| 0 <= i < k ==> (#[trigger] self.values.values()[i])@ == Recorded::none(),
            decreases self.values.names().len() - k,
        {
            let ghost middle = *self;
            {
                let h = self.values.value_mut(k);
                h.reset();
            }
            proof {
                let value = self.values.values()[k as int];
                Named::value_replaced(middle.values, self.values, k as int, value);
            }
            k += 1;
        }
        proof {
            assert forall|n: Seq<char>| self.values.has(n) implies self.values.map()[n]@
                == Recorded::none() by {
                let i = choose|i: int| 0 <= i < self.values.names().len() && self.values.names()[i] == n;
                self.values.entry(i);
            }
            assert(self@ =~= before@.map_values(|r: Recorded| Recorded::none()));
        }
    }

    /// Returns whether every histogram counts within the range that percentiles need.
    pub fn is_within_range(&self) -> (r: bool)
        requires
            self.wf(),
        ensures
            r == within_range(self@),
    {
        let mut k: usize = 0;
        while k < self.values.len()
            invariant
                self.wf(),
                k <= self.values.names().len(),
                forall|i: int|
                    0 <= i < k ==> (#[trigger] self.values.values()[i])@.total < u64::MAX,
            decreases self.values.names().len() - k,
        {
            let total: u64 = self.values.value_at(k).len();
            proof {
                self.values.entry(k as int);
            }
            if total == u64::MAX {
                assert(self@.dom().contains(self.values.names()[k as int]));
                return false;
            }
            k += 1;
        }
        proof {
            assert forall|n: Seq<char>| #[trigger] self@.dom().contains(n) implies self@[n].total
                < u64::MAX by {
                let i = choose|i: int| 0 <= i < self.values.names().len() && self.values.names()[i] == n;
                self.values.entry(i);
            }
        }
        true
    }

    /// Returns a summary when the named histogram has observations.
    pub fn summary(&self, name: &str) -> (r: Option<LatencyDigest>)
        requires
            self.wf(),
            within_range(self@),
        ensures
            r is Some <==> self@.dom().contains(name@) && self@[name@].total > 0,
            r matches Some(d) ==> digests(d, self@[name@]) && digest_rises(d) && plain_bits(d.mean_us),
    {
        match self.values.get(name) {
            Some(h) => {
                proof {
                    assert(self@.dom().contains(name@));
                }
                if h.is_empty() {
                    None
                } else {
                    Some(h.summary())
                }
            },
            None => None,
        }
    }

    /// Summarizes histograms whose names begin with `prefix`.
    ///
    /// Keys in the returned map have the prefix removed.
    pub fn summaries_with_prefix(&self, prefix: &str) -> (r: Named<LatencyDigest>)
        requires
            self.wf(),
            within_range(self@),
        ensures
            r.wf(),
            forall|n: Seq<char>|
                r.map().dom().contains(n) <==> #[trigger] self@.dom().contains(prefix@ + n),
            forall|n: Seq<char>| #[trigger]
                r.map().dom().contains(n) ==> digests(r.map()[n], self@[prefix@ + n])
                    && digest_rises(r.map()[n]) && plain_bits(r.map()[n].mean_us),
    {
        let mut out: Named<LatencyDigest> = Named::new();
        let ghost names = self.values.names();
        let mut k: usize = 0;
        while k < self.values.len()
            invariant
                self.wf(),
                within_range(self@),
                out.wf(),
                names == self.values.names(),
                k <= names.len(),
                forall|n: Seq<char>|
                    out.map().dom().contains(n) <==> names.take(k as int).contains(
                        #[trigger] (prefix@ + n),
                    ),
                forall|n: Seq<char>| #[trigger]
                    out.map().dom().contains(n) ==> digests(out.map()[n], self@[prefix@ + n])
                        && digest_rises(out.map()[n]) && plain_bits(out.map()[n].mean_us),
            decreases names.len() - k,
        {
            let name = self.values.name_at(k);
            let ghost before = out.map();
            proof {
                self.values.entry(k as int);
                assert(self@.dom().contains(names[k as int]));
                assert(names.take(k + 1) =~= names.take(k as int).push(names[k as int]));
            }
            if let Some(short) = strip_prefix(name.as_str(), prefix) {
                proof {
                    assert(prefix@ + short@ =~= names[k as int]);
                }
                let ghost short_name = short@;
                let digest = self.values.value_at(k).summary();
                out.put(short, digest);
                proof {
                    prefixed_step(names, k as int, prefix@, before.dom(), out.map().dom());
                }
            } else {
                proof {
                    unprefixed_step(names, k as int, prefix@);
                }
            }
            k += 1;
        }
        proof {
            assert(names.take(k as int) =~= names);
            assert forall|n: Seq<char>|
                out.map().dom().contains(n) <==> #[trigger] self@.dom().contains(prefix@ + n) by {
                assert(out.map().dom().contains(n) <==> names.take(k as int).contains(prefix@ + n));
            }
        }
        out
    }

    /// Exports sparse series for histograms whose names begin with `prefix`.
    pub fn series_with_prefix(&self, prefix: &str) -> (r: Named<HistogramSeries>)
        requires
            self.wf(),
        ensures
            r.wf(),
            forall|n: Seq<char>|
                r.map().dom().contains(n) <==> #[trigger] self@.dom().contains(prefix@ + n),
            forall|n: Seq<char>| #[trigger]
                r.map().dom().contains(n) ==> series_of(r.map()[n], self@[prefix@ + n]),
    {
        let mut out: Named<HistogramSeries> = Named::new();
        let ghost names = self.values.names();
        let mut k: usize = 0;
        while k < self.values.len()
            invariant
                self.wf(),
                out.wf(),
                names == self.values.names(),
                k <= names.len(),
                forall|n: Seq<char>|
                    out.map().dom().contains(n) <==> names.take(k as int).contains(
                        #[trigger] (prefix@ + n),
                    ),
                forall|n: Seq<char>| #[trigger]
                    out.map().dom().contains(n) ==> series_of(out.map()[n], self@[prefix@ + n]),
            decreases names.len() - k,
        {
            let name = self.values.name_at(k);
            let ghost before = out.map();
            proof {
                self.values.entry(k as int);
                assert(names.take(k + 1) =~= names.take(k as int).push(names[k as int]));
            }
            if let Some(short) = strip_prefix(name.as_str(), prefix) {
                proof {
                    assert(prefix@ + short@ =~= names[k as int]);
                }
                let series = self.values.value_at(k).series();
                out.put(short, series);
                proof {
                    prefixed_step(names, k as int, prefix@, before.dom(), out.map().dom());
                }
            } else {
                proof {
                    unprefixed_step(names, k as int, prefix@);
                }
            }
            k += 1;
        }
        proof {
            assert(names.take(k as int) =~= names);
            assert forall|n: Seq<char>|
                out.map().dom().contains(n) <==> #[trigger] self@.dom().contains(prefix@ + n) by {
                assert(out.map().dom().contains(n) <==> names.take(k as int).contains(prefix@ + n));
            }
        }
        out
    }
}

proof fn prefixed_step(
    names: Seq<Seq<char>>,
    k: int,
    prefix: Seq<char>,
    before: Set<Seq<char>>,
    after: Set<Seq<char>>,
)
    requires
        0 <= k < names.len(),
        crate::text::has_prefix(names[k], prefix),
        after == before.insert(names[k].skip(prefix.len() as int)),
        forall|n: Seq<char>|
            before.contains(n) <==> names.take(k).contains(#[trigger] (prefix + n)),
    ensures
        forall|n: Seq<char>|
            after.contains(n) <==> names.take(k + 1).contains(#[trigger] (prefix + n)),
{
    let short = names[k].skip(prefix.len() as int);
    assert(names.take(k + 1) =~= names.take(k).push(names[k]));
    assert(prefix + short =~= names[k]);
    assert forall|n: Seq<char>|
        after.contains(n) <==> names.take(k + 1).contains(#[trigger] (prefix + n)) by {
        contains_after_push(names.take(k), names[k], prefix + n);
        if prefix + n == names[k] {
            assert(n =~= (prefix + n).skip(prefix.len() as int));
        }
    }
}

proof fn unprefixed_step(names: Seq<Seq<char>>, k: int, prefix: Seq<char>)
    requires
        0 <= k < names.len(),
        !crate::text::has_prefix(names[k], prefix),
    ensures
        forall|n: Seq<char>|
            names.take(k).contains(prefix + n) <==> names.take(k + 1).contains(
                #[trigger] (prefix + n),
            ),
{
    assert(names.take(k + 1) =~= names.take(k).push(names[k]));
    assert forall|n: Seq<char>|
        names.take(k).contains(prefix + n) <==> names.take(k + 1).contains(#[trigger] (prefix + n)) by {
        contains_after_push(names.take(k), names[k], prefix + n);
        assert((prefix + n).subrange(0, prefix.len() as int) =~= prefix);
    }
}

proof fn contains_after_push<A>(s: Seq<A>, last: A, x: A)
    ensures
        s.push(last).contains(x) <==> s.contains(x) || x == last,
{
    let t = s.push(last);
    if s.contains(x) {
        let i = choose|i: int| 0 <= i < s.len() && s[i] == x;
        assert(t[i] == x);
    }
    if x == last {
        assert(t[s.len() as int] == x);
    }
    if t.contains(x) {
        let i = choose|i: int| 0 <= i < t.len() && t[i] == x;
        if i < s.len() {
            assert(s[i] == x);
        }
    }
}

/// The merge of the first `k` names of `b`.
spec fn merged_upto(
    a: Map<Seq<char>, Recorded>,
    b: Map<Seq<char>, Recorded>,
    names: Seq<Seq<char>>,
    k: int,
    all: bool,
) -> Map<Seq<char>, Recorded> {
    let seen = |n: Seq<char>| names.contains(n) && names.index_of(n) < k && (all || b[n].total > 0);
    Map::new(
        |n: Seq<char>| a.dom().contains(n) || seen(n),
        |n: Seq<char>|
            if seen(n) {
                recorded_as(a, n).merged(b[n])
            } else {
                a[n]
            },
    )
}

proof fn merged_step(
    a: Map<Seq<char>, Recorded>,
    b: Map<Seq<char>, Recorded>,
    names: Seq<Seq<char>>,
    k: int,
    all: bool,
)
    requires
        crate::named::names_increase(names),
        0 <= k < names.len(),
    ensures
        merged_upto(a, b, names, k + 1, all) == (if all || b[names[k]].total > 0 {
            merged_upto(a, b, names, k, all).insert(
                names[k],
                recorded_as(merged_upto(a, b, names, k, all), names[k]).merged(b[names[k]]),
            )
        } else {
            merged_upto(a, b, names, k, all)
        }),
{
    crate::named::position_is_unique(names, k);
    let m0 = merged_upto(a, b, names, k, all);
    let m1 = merged_upto(a, b, names, k + 1, all);
    assert forall|n: Seq<char>| names.contains(n) && names.index_of(n) == k implies n == names[k] by {}
    assert(recorded_as(m0, names[k]) == recorded_as(a, names[k]));
    if all || b[names[k]].total > 0 {
        assert(m1 =~= m0.insert(names[k], recorded_as(m0, names[k]).merged(b[names[k]])));
    } else {
        assert(m1 =~= m0);
    }
}

/// Whether a sequence names the populated buckets in rising order.
pub open spec fn lists_buckets(buckets: Seq<u64>, counts: Map<u64, u64>) -> bool {
    &&& forall|i: int, j: int| 0 <= i < j < buckets.len() ==> buckets[i] < buckets[j]
    &&& forall|b: u64| buckets.contains(b) <==> counts.dom().contains(b)
}

/// Whether a series gives each bucket's upper end in nanoseconds and its count.
pub open spec fn describes(s: HistogramSeries, buckets: Seq<u64>, counts: Map<u64, u64>) -> bool {
    &&& s.upper_bound_ns.len() == buckets.len()
    &&& s.counts.len() == buckets.len()
    &&& forall|i: int|
        0 <= i < buckets.len() ==> s.upper_bound_ns@[i] == micros_as_nanos(#[trigger] buckets[i])
            && s.counts@[i] == counts[buckets[i]] && s.counts@[i] > 0
}

/// Whether a series is the sparse form of what is recorded.
pub open spec fn series_of(s: HistogramSeries, r: Recorded) -> bool {
    exists|buckets: Seq<u64>| lists_buckets(buckets, r.counts) && describes(s, buckets, r.counts)
}

/// A bucket's lower end is not above any of its values.
proof fn bucket_bottom_is_below(value: nat)
    ensures
        bucket_bottom(value) <= value,
{
    bucket_width_is_positive(value);
    let w = bucket_width(value);
    assert(value / w * w <= value) by (nonlinear_arith)
        requires
            w > 0,
    ;
}

proof fn bucket_width_is_positive(value: nat)
    ensures
        bucket_width(value) > 0,
    decreases value,
{
    if value >= 2048 {
        bucket_width_is_positive(value / 2);
    }
}

/// A latency is recorded in whole microseconds, rounded down, except that one below a microsecond
/// counts as one and one beyond a day as a day.
pub proof fn latencies_are_kept_in_microseconds(duration_ns: u64)
    ensures
        1_000 <= duration_ns <= 86_400_000_000_000 ==> clamped_micros(duration_ns) * 1_000
            <= duration_ns < clamped_micros(duration_ns) * 1_000 + 1_000,
        duration_ns < 1_000 ==> clamped_micros(duration_ns) == 1,
        duration_ns > 86_400_000_000_000 ==> clamped_micros(duration_ns) == 86_400_000_000,
{
}

proof fn bucket_width_is_narrow(value: nat)
    ensures
        bucket_width(value) >= 1,
        value < 2048 ==> bucket_width(value) == 1,
        value >= 2048 ==> 1024 * bucket_width(value) <= value,
    decreases value,
{
    if value >= 2048 {
        bucket_width_is_narrow(value / 2);
    }
}

/// A value lies in its bucket, and a bucket is so narrow that three significant digits are kept.
pub proof fn buckets_keep_three_digits(value: nat)
    ensures
        bucket_bottom(value) <= value <= bucket_top(value),
        value < 2048 ==> bucket_bottom(value) == value && bucket_top(value) == value,
        (bucket_top(value) - bucket_bottom(value)) * 1000 <= value,
{
    bucket_width_is_narrow(value);
    let w = bucket_width(value);
    assert(value / w * w <= value < value / w * w + w) by (nonlinear_arith)
        requires
            w >= 1,
    ;
    if value < 2048 {
        assert(value / w * w == value) by (nonlinear_arith)
            requires
                w == 1,
        ;
    }
}

/// Recording an observation adds one to the bucket of its microseconds under its name, and changes
/// nothing else.
pub proof fn observations_are_counted_once(
    m: Map<Seq<char>, Recorded>,
    name: Seq<char>,
    duration_ns: u64,
    other: Seq<char>,
    bucket: u64,
)
    requires
        recorded_as(m, name).total < u64::MAX,
        count_in(recorded_as(m, name).counts, bucket) < u64::MAX,
        other != name,
    ensures
        ({
            let after = with_observation(m, name, duration_ns);
            &&& after.dom().contains(name)
            &&& after[name].total == recorded_as(m, name).total + 1
            &&& count_in(after[name].counts, bucket) == count_in(
                recorded_as(m, name).counts,
                bucket,
            ) + (if bucket == bucket_top(clamped_micros(duration_ns) as nat) as u64 {
                1int
            } else {
                0int
            })
            &&& after.dom().contains(other) == m.dom().contains(other)
            &&& m.dom().contains(other) ==> after[other] == m[other]
        }),
{
}

/// Merged histograms hold the observations of both, bucket by bucket and name by name.
pub proof fn merged_histograms_hold_both(
    a: Map<Seq<char>, Recorded>,
    b: Map<Seq<char>, Recorded>,
    name: Seq<char>,
    bucket: u64,
)
    requires
        recorded_as(a, name).total + recorded_as(b, name).total <= u64::MAX,
        count_in(recorded_as(a, name).counts, bucket) + count_in(
            recorded_as(b, name).counts,
            bucket,
        ) <= u64::MAX,
        recorded_as(b, name).total == 0 ==> recorded_as(b, name) == Recorded::none(),
    ensures
        recorded_as(merged_sets(a, b), name).total == recorded_as(a, name).total + recorded_as(
            b,
            name,
        ).total,
        count_in(recorded_as(merged_sets(a, b), name).counts, bucket) == count_in(
            recorded_as(a, name).counts,
            bucket,
        ) + count_in(recorded_as(b, name).counts, bucket),
        recorded_as(combined_sets(a, b), name).total == recorded_as(a, name).total + recorded_as(
            b,
            name,
        ).total,
        count_in(recorded_as(combined_sets(a, b), name).counts, bucket) == count_in(
            recorded_as(a, name).counts,
            bucket,
        ) + count_in(recorded_as(b, name).counts, bucket),
{
}

/// A digest of observations gives their number, the values at its four quantiles, and the ends of
/// the range that they lie in, in nanoseconds.
pub proof fn digests_give_their_quantiles(d: LatencyDigest, r: Recorded, bucket: u64)
    requires
        digests(d, r),
        r.total > 0,
        r.counts.dom().contains(bucket),
        forall|k: u64| #[trigger] r.counts.dom().contains(k) ==> 1 <= k <= u64::MAX / 1_000,
        quantile_value(r.counts, r.total, 500) <= u64::MAX / 1_000,
        quantile_value(r.counts, r.total, 950) <= u64::MAX / 1_000,
        quantile_value(r.counts, r.total, 990) <= u64::MAX / 1_000,
        quantile_value(r.counts, r.total, 999) <= u64::MAX / 1_000,
    ensures
        d.count == r.total,
        d.mean_us == mean_bits(r.counts, r.total),
        d.p50_ns == 1_000 * quantile_value(r.counts, r.total, 500),
        d.p95_ns == 1_000 * quantile_value(r.counts, r.total, 950),
        d.p99_ns == 1_000 * quantile_value(r.counts, r.total, 990),
        d.p999_ns == 1_000 * quantile_value(r.counts, r.total, 999),
        bucket * 1_000 <= d.max_ns,
        exists|k: u64| #[trigger] r.counts.dom().contains(k) && d.max_ns == k * 1_000,
        exists|k: u64| #[trigger]
            r.counts.dom().contains(k) && d.min_ns == bucket_bottom(k as nat) * 1_000 && k
                <= bucket,
{
    let least = choose|k: u64|
        is_least(r.counts, k) && d.min_ns == micros_as_nanos(bucket_bottom(k as nat) as u64);
    let greatest = choose|k: u64| is_greatest(r.counts, k) && d.max_ns == micros_as_nanos(k);
    assert(r.counts.dom().contains(least) && r.counts.dom().contains(greatest));
    buckets_keep_three_digits(least as nat);
    assert(bucket <= greatest);
    assert(least <= bucket);
}

/// A published histogram has one point for each populated bucket, in rising order, with the
/// bucket's upper end in nanoseconds and its count.
pub proof fn published_histograms_hold_every_bucket(s: HistogramSeries, r: Recorded, bucket: u64)
    requires
        series_of(s, r),
        r.counts.dom().contains(bucket),
        bucket <= u64::MAX / 1_000,
    ensures
        exists|i: int|
            0 <= i < s.upper_bound_ns@.len() && i < s.counts@.len() && #[trigger] s.upper_bound_ns@[i]
                == bucket * 1_000 && s.counts@[i] == r.counts[bucket],
        s.upper_bound_ns@.len() == s.counts@.len(),
{
    let buckets = choose|buckets: Seq<u64>|
        lists_buckets(buckets, r.counts) && describes(s, buckets, r.counts);
    assert(buckets.contains(bucket));
    let i = choose|i: int| 0 <= i < buckets.len() && buckets[i] == bucket;
    assert(s.upper_bound_ns@[i] == micros_as_nanos(buckets[i]));
}

} // verus!
