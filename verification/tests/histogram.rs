use base64::engine::general_purpose::STANDARD;
use base64::Engine;
use slatedb_benchmark::histogram::{HistogramSet, LatencyHistogram, MAX_MICROSECONDS};
use slatedb_benchmark::suite::encoding::{
    encode, read_summary, summarize, summarize_with_prefix, to_file, EncodedHistogram, Reading,
};

#[test]
fn exports_only_populated_histogram_buckets() {
    let mut histogram = LatencyHistogram::new();
    histogram.record_n(10_000, 2);
    histogram.record(20_000);

    let series = histogram.series();
    assert_eq!(series.counts.iter().sum::<u64>(), 3);
    assert_eq!(series.upper_bound_ns.len(), series.counts.len());
    assert!(series
        .upper_bound_ns
        .windows(2)
        .all(|pair| pair[0] < pair[1]));
    assert!(series.counts.iter().all(|count| *count > 0));
    assert_eq!(series.upper_bound_ns, [10_000, 20_000]);
    assert_eq!(series.counts, [2, 1]);
}

#[test]
fn durations_are_recorded_in_whole_microseconds_within_the_range() {
    let mut histogram = LatencyHistogram::new();
    assert!(histogram.is_empty());
    histogram.record(0);
    histogram.record(1_999);
    histogram.record(u64::MAX);
    assert_eq!(histogram.len(), 3);
    let digest = histogram.summary();
    assert_eq!(digest.count, 3);
    assert_eq!(digest.min_ns, 1_000);
    assert_eq!(digest.p50_ns, 1_000);
    assert!(digest.max_ns >= MAX_MICROSECONDS * 1_000);

    histogram.reset();
    assert!(histogram.is_empty());
    assert_eq!(histogram.summary().max_ns, 0);
}

#[test]
fn digests_hold_the_ranked_latencies() {
    let mut histogram = LatencyHistogram::new();
    for micros in 1..=100u64 {
        histogram.record(micros * 1_000);
    }
    let digest = histogram.summary();
    assert_eq!(digest.count, 100);
    assert_eq!(f64::from_bits(digest.mean_us), 50.5);
    assert_eq!(digest.p50_ns, 50_000);
    assert_eq!(digest.p95_ns, 95_000);
    assert_eq!(digest.p99_ns, 99_000);
    assert_eq!(digest.p999_ns, 100_000);
    assert_eq!(digest.min_ns, 1_000);
    assert_eq!(digest.max_ns, 100_000);
}

#[test]
fn merged_sets_count_both_sides() {
    let mut left = HistogramSet::new();
    left.record("api/get", 5_000);
    let mut right = HistogramSet::new();
    right.record("api/get", 7_000);
    right.record("api/put", 9_000);
    right.record_micros("other", 1);

    left.merge(&right);
    assert_eq!(left.summary("api/get").map(|digest| digest.count), Some(2));
    assert_eq!(left.summary("api/put").map(|digest| digest.max_ns), Some(9_000));
    assert!(left.summary("api/scan").is_none());
    let digests = left.summaries_with_prefix("api/");
    assert_eq!(digests.len(), 2);
    assert_eq!(digests.name_at(0), "get");
    assert_eq!(digests.name_at(1), "put");
    let series = left.series_with_prefix("api/");
    assert_eq!(series.get("get").map(|entry| entry.counts.clone()), Some(vec![1, 1]));

    left.reset();
    assert!(left.summary("api/get").is_none());
    assert_eq!(left.len(), 3);
}

#[test]
fn combining_sets_keeps_every_histogram() {
    let mut left = HistogramSet::new();
    left.record("a", 1_000);
    let mut right = HistogramSet::new();
    right.record("b", 2_000);
    right.record("a", 3_000);
    left.combine(&right);
    assert_eq!(left.len(), 2);
    let (name, first) = left.at(0);
    assert_eq!(name, "a");
    assert_eq!(first.len(), 2);
    assert_eq!(left.get("b").map(|histogram| histogram.len()), Some(1));

    let mut replacement = LatencyHistogram::new();
    replacement.record_micros(4);
    replacement.add(&replacement_of(5));
    left.insert("c", replacement);
    assert_eq!(left.get("c").map(|histogram| histogram.len()), Some(2));
}

fn replacement_of(micros: u64) -> LatencyHistogram {
    let mut histogram = LatencyHistogram::new();
    histogram.record_micros(micros);
    histogram
}

#[test]
fn encoded_histograms_read_back_as_their_summary() {
    let mut histogram = LatencyHistogram::new();
    for micros in [3u64, 14, 159, 2_653, 58_979] {
        histogram.record(micros * 1_000);
    }
    let summary = summarize(&histogram);
    let encoded = encode(&histogram).expect("encoded");
    assert_eq!(encoded.unit, "microseconds");
    assert_eq!(encoded.count, 5);
    assert_eq!(encoded.min, 3);
    assert!(!encoded.data.is_empty());
    assert!(encoded
        .data
        .bytes()
        .all(|byte| byte.is_ascii_alphanumeric() || matches!(byte, b'+' | b'/' | b'=')));
    assert_eq!(read_summary(Some(&encoded)), Reading::Summary(summary));
    assert_eq!(read_summary(None), Reading::Missing);
}

#[test]
fn unreadable_histograms_are_told_apart() {
    let with = |data: &str| EncodedHistogram {
        unit: "microseconds".to_string(),
        count: 0,
        min: 0,
        max: 0,
        data: data.to_string(),
    };
    assert_eq!(read_summary(Some(&with("no base64!"))), Reading::NotBase64);
    assert_eq!(read_summary(Some(&with("aGVsbG8="))), Reading::NotHistogram);
}

#[test]
fn histogram_files_hold_every_histogram() {
    let mut set = HistogramSet::new();
    set.record("operation/read", 1_000);
    set.record("operation/update", 2_000);
    set.record("batch", 3_000);
    let file = to_file(&set).expect("file");
    assert_eq!(file.schema_version, 1);
    assert_eq!(file.significant_digits, 3);
    assert_eq!(file.histograms.len(), 3);
    let grouped = summarize_with_prefix(&set, "operation/");
    assert_eq!(grouped.len(), 2);
    assert_eq!(grouped.get("update").map(|summary| summary.max_ns), Some(2_000));
}

fn plain_histogram(counts: &[u8]) -> Vec<u8> {
    let mut bytes = Vec::new();
    bytes.extend(0x1c84_9313_u32.to_be_bytes());
    bytes.extend((counts.len() as u32).to_be_bytes());
    bytes.extend(0_u32.to_be_bytes());
    bytes.extend(3_u32.to_be_bytes());
    bytes.extend(1_u64.to_be_bytes());
    bytes.extend(86_400_000_000_u64.to_be_bytes());
    bytes.extend(1.0_f64.to_be_bytes());
    bytes.extend(counts);
    bytes
}

fn compressed_histogram(counts: &[u8]) -> Vec<u8> {
    let mut encoder =
        flate2::write::ZlibEncoder::new(Vec::new(), flate2::Compression::default());
    std::io::Write::write_all(&mut encoder, &plain_histogram(counts)).expect("compress");
    let stream = encoder.finish().expect("compress");
    let mut bytes = Vec::new();
    bytes.extend(0x1c84_9314_u32.to_be_bytes());
    bytes.extend((stream.len() as u32).to_be_bytes());
    bytes.extend(stream);
    bytes
}

#[test]
fn histograms_with_a_number_without_negative_are_refused() {
    let reading = |bytes: Vec<u8>| {
        read_summary(Some(&EncodedHistogram {
            unit: "microseconds".to_string(),
            count: 0,
            min: 0,
            max: 0,
            data: STANDARD.encode(bytes),
        }))
    };
    for form in [plain_histogram, compressed_histogram] {
        match reading(form(&[0, 4])) {
            Reading::Summary(summary) => {
                assert_eq!(summary.count, 2);
                assert_eq!(summary.max_ns, 1_000);
            }
            other => panic!("expected a summary, found {other:?}"),
        }
        assert_eq!(reading(form(&[255; 9])), Reading::NotHistogram);
        assert_eq!(
            reading(form(&[4, 255, 255, 255, 255, 255, 255, 255, 255, 255])),
            Reading::NotHistogram
        );
        let mut largest = vec![254];
        largest.extend([255; 8]);
        largest.extend([255, 1]);
        match reading(form(&largest)) {
            Reading::Summary(summary) => assert_eq!(summary.count, i64::MAX as u64),
            other => panic!("expected a summary, found {other:?}"),
        }
    }
    let mut cut = compressed_histogram(&[0, 4]);
    cut.truncate(20);
    assert_eq!(reading(cut), Reading::NotHistogram);
    let mut without_checksum = compressed_histogram(&[0, 4]);
    let end = without_checksum.len() - 4;
    without_checksum.truncate(end);
    match reading(without_checksum) {
        Reading::Summary(summary) => assert_eq!(summary.count, 2),
        other => panic!("expected a summary, found {other:?}"),
    }
}
