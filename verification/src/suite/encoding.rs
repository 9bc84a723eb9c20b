//! Latency histograms as they are kept beside a result.

use crate::count::times;
use crate::histogram;
use crate::histogram::{
    HistogramSet, LatencyDigest, LatencyHistogram, Recorded, StoredHistogram, SIGNIFICANT_DIGITS,
};
use crate::named::Named;
use crate::payload;
use crate::payload::is_readable;
use base64::engine::general_purpose::STANDARD;
use base64::Engine;
use vstd::prelude::*;

verus! {

/// The text that base64 writes for bytes.
pub uninterp spec fn base64_text(bytes: Seq<u8>) -> Seq<char>;

/// The bytes that base64 reads from a text.
pub uninterp spec fn base64_bytes(text: Seq<char>) -> Option<Seq<u8>>;

/// `Engine::encode` of the standard base64 engine, whose text its `decode` reads back.
#[verifier::external_body]
fn write_base64(bytes: &Vec<u8>) -> (r: String)
    ensures
        r@ == base64_text(bytes@),
        base64_bytes(r@) == Some(bytes@),
{
    STANDARD.encode(bytes)
}

/// `Engine::decode` of the standard base64 engine, which refuses a text that is not base64.
#[verifier::external_body]
fn read_base64(text: &str) -> (r: Option<Vec<u8>>)
    ensures
        r is Some <==> base64_bytes(text@) is Some,
        r matches Some(bytes) ==> Some(bytes@) == base64_bytes(text@),
{
    STANDARD.decode(text).ok()
}

/// Percentiles of the latencies that a result reports.
#[derive(Debug, Clone, Copy, PartialEq, Eq, Structural)]
pub struct LatencySummary {
    pub count: u64,
    pub p50_ns: u64,
    pub p95_ns: u64,
    pub p99_ns: u64,
    pub p999_ns: u64,
    pub max_ns: u64,
}

/// The summary of no observations.
pub open spec fn no_summary() -> LatencySummary {
    LatencySummary { count: 0, p50_ns: 0, p95_ns: 0, p99_ns: 0, p999_ns: 0, max_ns: 0 }
}

impl Default for LatencySummary {
    fn default() -> (r: Self)
        ensures
            r == no_summary(),
    {
        LatencySummary { count: 0, p50_ns: 0, p95_ns: 0, p99_ns: 0, p999_ns: 0, max_ns: 0 }
    }
}

/// The populated bucket with the highest values.
pub open spec fn greatest(counts: Map<u64, u64>) -> u64 {
    choose|k: u64| histogram::is_greatest(counts, k)
}

/// The summary of what is recorded.
pub open spec fn summary_of(r: Recorded) -> LatencySummary {
    if r.total == 0 {
        no_summary()
    } else {
        LatencySummary {
            count: r.total,
            p50_ns: histogram::percentile_ns(r, 500),
            p95_ns: histogram::percentile_ns(r, 950),
            p99_ns: histogram::percentile_ns(r, 990),
            p999_ns: histogram::percentile_ns(r, 999),
            max_ns: histogram::micros_as_nanos(greatest(r.counts)),
        }
    }
}

/// Takes the published percentiles out of a digest.
fn summary_from(digest: &LatencyDigest, recorded: Ghost<Recorded>) -> (r: LatencySummary)
    requires
        histogram::digests(*digest, recorded@),
    ensures
        r == summary_of(recorded@),
{
    proof {
        let r = recorded@;
        if r.total > 0 {
            let k = choose|k: u64|
                histogram::is_greatest(r.counts, k) && digest.max_ns == histogram::micros_as_nanos(
                    k,
                );
            assert(histogram::is_greatest(r.counts, greatest(r.counts)));
        }
    }
    LatencySummary {
        count: digest.count,
        p50_ns: digest.p50_ns,
        p95_ns: digest.p95_ns,
        p99_ns: digest.p99_ns,
        p999_ns: digest.p999_ns,
        max_ns: digest.max_ns,
    }
}

/// Summarizes a histogram.
pub fn summarize(histogram: &LatencyHistogram) -> (r: LatencySummary)
    requires
        histogram@.total < u64::MAX,
    ensures
        r == summary_of(histogram@),
{
    let digest = histogram.summary();
    summary_from(&digest, Ghost(histogram@))
}

/// Summarizes the histograms of a set whose names begin with a prefix, which the summaries'
/// names do without.
pub fn summarize_with_prefix(set: &HistogramSet, prefix: &str) -> (r: Named<LatencySummary>)
    requires
        set.wf(),
        histogram::within_range(set@),
    ensures
        r.wf(),
        forall|n: Seq<char>|
            r.map().dom().contains(n) <==> #[trigger] set@.dom().contains(prefix@ + n),
        forall|n: Seq<char>| #[trigger]
            r.map().dom().contains(n) ==> r.map()[n] == summary_of(set@[prefix@ + n]),
{
    let digests = set.summaries_with_prefix(prefix);
    let mut out: Named<LatencySummary> = Named::new();
    let ghost names = digests.names();
    let mut i: usize = 0;
    while i < digests.len()
        invariant
            digests.wf(),
            out.wf(),
            names == digests.names(),
            i <= names.len(),
            forall|n: Seq<char>|
                digests.map().dom().contains(n) <==> #[trigger] set@.dom().contains(prefix@ + n),
            forall|n: Seq<char>| #[trigger]
                digests.map().dom().contains(n) ==> histogram::digests(
                    digests.map()[n],
                    set@[prefix@ + n],
                ),
            forall|n: Seq<char>|
                out.map().dom().contains(n) <==> (exists|k: int|
                    0 <= k < i && #[trigger] names[k] == n),
            forall|n: Seq<char>| #[trigger]
                out.map().dom().contains(n) ==> out.map()[n] == summary_of(set@[prefix@ + n]),
        decreases names.len() - i,
    {
        proof {
            digests.entry(i as int);
        }
        let name = digests.name_at(i);
        let summary = summary_from(digests.value_at(i), Ghost(set@[prefix@ + name@]));
        let ghost before = out.map();
        out.put(name.clone(), summary);
        proof {
            assert forall|n: Seq<char>|
                out.map().dom().contains(n) <==> (exists|k: int|
                    0 <= k < i + 1 && #[trigger] names[k] == n) by {
                if n != names[i as int] && before.dom().contains(n) {
                    let k = choose|k: int| 0 <= k < i && #[trigger] names[k] == n;
                    assert(0 <= k < i + 1 && names[k] == n);
                }
            }
        }
        i += 1;
    }
    proof {
        assert forall|n: Seq<char>|
            out.map().dom().contains(n) <==> #[trigger] set@.dom().contains(prefix@ + n) by {
            if digests.map().dom().contains(n) {
                let k = choose|k: int| 0 <= k < names.len() && names[k] == n;
                assert(0 <= k < i && names[k] == n);
            }
            if out.map().dom().contains(n) {
                let k = choose|k: int| 0 <= k < i && #[trigger] names[k] == n;
                digests.entry(k);
            }
        }
    }
    out
}

/// A histogram with its full distribution in text form.
pub struct EncodedHistogram {
    pub unit: String,
    pub count: u64,
    pub min: u64,
    pub max: u64,
    /// The serialized histogram, in base64.
    pub data: String,
}

/// The histograms of a result.
pub struct HistogramsFile {
    pub schema_version: u32,
    pub encoding: String,
    pub significant_digits: u8,
    pub histograms: Named<EncodedHistogram>,
}

/// A count that the serialized form cannot hold.
#[derive(Debug, Clone, Copy, PartialEq, Eq, Structural)]
pub struct CountTooLarge;

/// Whether an encoded histogram is that of what is recorded.
pub open spec fn encodes(e: EncodedHistogram, r: Recorded) -> bool {
    &&& e.unit@ == "microseconds"@
    &&& e.count == r.total
    &&& r.total == 0 ==> e.min == 0 && e.max == 0
    &&& r.total > 0 ==> histogram::is_least_value(r.counts, e.min) && histogram::is_greatest(
        r.counts,
        e.max,
    )
    &&& histogram::serialized(r.counts) is Some
    &&& e.data@ == base64_text(histogram::serialized(r.counts)->0)
}

/// What is found where a summary should have its histogram.
#[derive(Debug, Clone, Copy, PartialEq, Eq, Structural)]
pub enum Reading {
    /// There is no histogram.
    Missing,
    /// The data is not base64.
    NotBase64,
    /// The bytes hold no histogram.
    NotHistogram,
    /// The observations are beyond the range of a counter.
    Uncountable,
    /// The summary of the histogram.
    Summary(LatencySummary),
}

/// What is found in the data of an encoded histogram.
pub open spec fn reading_of_data(data: Seq<char>) -> Reading {
    match base64_bytes(data) {
        None => Reading::NotBase64,
        Some(bytes) => if !payload::readable(bytes) {
            Reading::NotHistogram
        } else {
            match histogram::deserialized(bytes) {
                None => Reading::NotHistogram,
                Some(r) => if r.total == u64::MAX {
                    Reading::Uncountable
                } else {
                    Reading::Summary(summary_of(r))
                },
            }
        },
    }
}

/// What is found where a histogram may be.
pub open spec fn reading_of(encoded: Option<EncodedHistogram>) -> Reading {
    match encoded {
        None => Reading::Missing,
        Some(e) => reading_of_data(e.data@),
    }
}

/// Encodes a histogram with its full distribution.
///
/// What is encoded reads back as the summary of the histogram.
pub fn encode(histogram: &LatencyHistogram) -> (r: Result<EncodedHistogram, CountTooLarge>)
    ensures
        r is Ok <==> histogram::serialized(histogram@.counts) is Some,
        histogram@.total <= i64::MAX ==> r is Ok,
        r matches Ok(e) ==> encodes(e, histogram@),
        r matches Ok(e) ==> histogram@.total < u64::MAX ==> reading_of(Some(e))
            == Reading::Summary(summary_of(histogram@)),
{
    let bytes = match histogram.to_bytes() {
        Some(bytes) => bytes,
        None => {
            return Err(CountTooLarge);
        },
    };
    let (min, max) = histogram.range_micros();
    Ok(
        EncodedHistogram {
            unit: "microseconds".to_string(),
            count: histogram.len(),
            min,
            max,
            data: write_base64(&bytes),
        },
    )
}

/// Reads the summary of an encoded histogram.
pub fn read_summary(encoded: Option<&EncodedHistogram>) -> (r: Reading)
    ensures
        r == reading_of(match encoded {
            Some(e) => Some(*e),
            None => None,
        }),
{
    let data: &str = match encoded {
        Some(e) => e.data.as_str(),
        None => {
            return Reading::Missing;
        },
    };
    let bytes = match read_base64(data) {
        Some(bytes) => bytes,
        None => {
            return Reading::NotBase64;
        },
    };
    if !is_readable(&bytes) {
        return Reading::NotHistogram;
    }
    let stored = match StoredHistogram::read(&bytes) {
        Some(stored) => stored,
        None => {
            return Reading::NotHistogram;
        },
    };
    let count: u64 = stored.total();
    if count == u64::MAX {
        return Reading::Uncountable;
    }
    let max: u64 = stored.greatest();
    proof {
        let r = histogram::stored(stored);
        if r.total > 0 {
            assert(histogram::is_greatest(r.counts, greatest(r.counts)));
        }
    }
    Reading::Summary(
        LatencySummary {
            count,
            p50_ns: times(stored.value_at(500), 1_000),
            p95_ns: times(stored.value_at(950), 1_000),
            p99_ns: times(stored.value_at(990), 1_000),
            p999_ns: times(stored.value_at(999), 1_000),
            max_ns: times(max, 1_000),
        },
    )
}

/// Whether every histogram of a set can be serialized.
pub open spec fn all_serialize(m: Map<Seq<char>, Recorded>) -> bool {
    forall|n: Seq<char>| #[trigger]
        m.dom().contains(n) ==> histogram::serialized(m[n].counts) is Some
}

/// Encodes the histograms of a set.
pub fn to_file(set: &HistogramSet) -> (r: Result<HistogramsFile, CountTooLarge>)
    requires
        set.wf(),
    ensures
        r is Ok <==> all_serialize(set@),
        r matches Ok(file) ==> {
            &&& file.schema_version == 1
            &&& file.encoding@ == "hdrhistogram-v2-deflate-base64"@
            &&& file.significant_digits == SIGNIFICANT_DIGITS
            &&& file.histograms.wf()
            &&& file.histograms.map().dom() =~= set@.dom()
            &&& forall|n: Seq<char>| #[trigger]
                set@.dom().contains(n) ==> encodes(file.histograms.map()[n], set@[n])
            &&& forall|n: Seq<char>| #[trigger]
                set@.dom().contains(n) && set@[n].total < u64::MAX ==> reading_of(
                    Some(file.histograms.map()[n]),
                ) == Reading::Summary(summary_of(set@[n]))
        },
{
    let mut histograms: Named<EncodedHistogram> = Named::new();
    let ghost names = set.names();
    proof {
        set.names_are_those_of_the_view();
    }
    let mut i: usize = 0;
    while i < set.len()
        invariant
            set.wf(),
            names == set.names(),
            forall|n: Seq<char>| names.contains(n) <==> set@.dom().contains(n),
            i <= names.len(),
            histograms.wf(),
            forall|n: Seq<char>|
                histograms.map().dom().contains(n) <==> (exists|k: int|
                    0 <= k < i && #[trigger] names[k] == n),
            forall|k: int|
                0 <= k < i ==> histogram::serialized(set@[#[trigger] names[k]].counts) is Some,
            forall|n: Seq<char>| #[trigger]
                histograms.map().dom().contains(n) ==> encodes(histograms.map()[n], set@[n]) && (
                set@[n].total < u64::MAX ==> reading_of(Some(histograms.map()[n]))
                    == Reading::Summary(summary_of(set@[n]))),
        decreases names.len() - i,
    {
        let (name, histogram) = set.at(i);
        let encoded = match encode(histogram) {
            Ok(encoded) => encoded,
            Err(e) => {
                return Err(e);
            },
        };
        let ghost before = histograms.map();
        histograms.put(name.clone(), encoded);
        proof {
            assert forall|n: Seq<char>|
                histograms.map().dom().contains(n) <==> (exists|k: int|
                    0 <= k < i + 1 && #[trigger] names[k] == n) by {
                if n == names[i as int] {
                } else if before.dom().contains(n) {
                    let k = choose|k: int| 0 <= k < i && #[trigger] names[k] == n;
                    assert(0 <= k < i + 1 && names[k] == n);
                }
            }
        }
        i += 1;
    }
    proof {
        assert forall|n: Seq<char>| #[trigger] set@.dom().contains(n) implies histogram::serialized(
            set@[n].counts,
        ) is Some && histograms.map().dom().contains(n) by {
            assert(names.contains(n));
            let k = choose|k: int| 0 <= k < names.len() && names[k] == n;
            assert(0 <= k < i && names[k] == n);
        }
        assert forall|n: Seq<char>| histograms.map().dom().contains(n) implies set@.dom().contains(
            n,
        ) by {
            let k = choose|k: int| 0 <= k < i && #[trigger] names[k] == n;
            assert(names.contains(names[k]));
        }
    }
    Ok(
        HistogramsFile {
            schema_version: 1,
            encoding: "hdrhistogram-v2-deflate-base64".to_string(),
            significant_digits: SIGNIFICANT_DIGITS,
            histograms,
        },
    )
}

/// A summary gives the number of observations, the values at its quantiles and the greatest value,
/// in nanoseconds, and is all zero without observations.
pub proof fn summaries_give_their_quantiles(r: Recorded)
    requires
        histogram::quantile_value(r.counts, r.total, 500) <= u64::MAX / 1_000,
        histogram::quantile_value(r.counts, r.total, 950) <= u64::MAX / 1_000,
        histogram::quantile_value(r.counts, r.total, 990) <= u64::MAX / 1_000,
        histogram::quantile_value(r.counts, r.total, 999) <= u64::MAX / 1_000,
    ensures
        summary_of(r).count == r.total,
        r.total > 0 ==> {
            &&& summary_of(r).p50_ns == 1_000 * histogram::quantile_value(r.counts, r.total, 500)
            &&& summary_of(r).p95_ns == 1_000 * histogram::quantile_value(r.counts, r.total, 950)
            &&& summary_of(r).p99_ns == 1_000 * histogram::quantile_value(r.counts, r.total, 990)
            &&& summary_of(r).p999_ns == 1_000 * histogram::quantile_value(r.counts, r.total, 999)
        },
        r.total == 0 ==> summary_of(r).p50_ns == 0 && summary_of(r).p95_ns == 0 && summary_of(
            r,
        ).p99_ns == 0 && summary_of(r).p999_ns == 0 && summary_of(r).max_ns == 0,
{
}

/// The greatest value of a summary is that of the highest populated bucket.
pub proof fn summaries_reach_the_greatest(r: Recorded, top: u64)
    requires
        r.total > 0,
        r.counts.dom().contains(top),
        forall|k: u64| #[trigger] r.counts.dom().contains(k) ==> k <= top,
        top <= u64::MAX / 1_000,
    ensures
        summary_of(r).max_ns == 1_000 * top,
{
    assert(histogram::is_greatest(r.counts, top));
    let k = greatest(r.counts);
    assert(histogram::is_greatest(r.counts, k));
    assert(r.counts.dom().contains(k) && k <= top && top <= k);
}

/// What was encoded reads back as the summary of what was recorded, as long as the payload is
/// readable and the count within range.
pub proof fn encoded_histograms_read_back(e: EncodedHistogram, r: Recorded, bytes: Seq<u8>)
    requires
        encodes(e, r),
        histogram::serialized(r.counts) == Some(bytes),
        base64_bytes(base64_text(bytes)) == Some(bytes),
        payload::readable(bytes),
        histogram::deserialized(bytes) == Some(r),
        r.total < u64::MAX,
    ensures
        reading_of(Some(e)) == Reading::Summary(summary_of(r)),
{
}

} // verus!
