use slatedb_benchmark::instrumented_store::{HttpMethod, StoreMetrics};
use slatedb_benchmark::model::{LatencySummary, Rate, RateSummary, ThroughputSummary};
use slatedb_benchmark::system::{
    duration_ns, finite_values, rate_summary, summarize_values, throughput_summary,
    ApplicationRegistry, BackpressureMeasurement, HostSnapshot, RateTotals, RateWindowControl,
    SampledMeasurement, Sampler,
};

const MILLI: u64 = 1_000_000;
const SECOND: u64 = 1_000_000_000;

fn quiet_host() -> HostSnapshot {
    HostSnapshot {
        process_cpu_cores: 0,
        process_rss_bytes: 0,
        machine_cpu_percent: 0,
        network_received: 0,
        network_sent: 0,
        disk_read_bytes: 0,
        disk_write_bytes: 0,
        disk_read_operations: 0,
        disk_write_operations: 0,
    }
}

fn per_second(rate: &Rate) -> f64 {
    if rate.duration_ns == 0 {
        0.0
    } else {
        rate.amount as f64 * 1e9 / rate.duration_ns as f64
    }
}

fn mean(values: &[f64]) -> u64 {
    (values.iter().sum::<f64>() / values.len().max(1) as f64).to_bits()
}

fn rates(totals: &RateTotals) -> RateSummary {
    let windows: Vec<f64> = totals.windows.iter().map(per_second).collect();
    let bits: Vec<u64> = windows.iter().map(|value| value.to_bits()).collect();
    rate_summary(
        totals.overall.amount,
        per_second(&totals.overall).to_bits(),
        &bits,
        mean(&windows),
    )
}

fn throughput(totals: &RateTotals) -> ThroughputSummary {
    let windows: Vec<f64> = totals.windows.iter().map(per_second).collect();
    let bits: Vec<u64> = windows.iter().map(|value| value.to_bits()).collect();
    throughput_summary(
        totals.overall.amount,
        per_second(&totals.overall).to_bits(),
        &bits,
        mean(&windows),
    )
}

fn operation(measurement: &SampledMeasurement, name: &str) -> RateSummary {
    let application = measurement.application();
    rates(application.operations.get(name).expect("operation row"))
}

fn request(measurement: &SampledMeasurement, name: &str) -> RateSummary {
    let store = measurement.object_store();
    rates(store.requests.get(name).expect("request row"))
}

#[test]
fn distribution_contains_the_published_columns() {
    let values: Vec<u64> = [1.0f64, 2.0, 3.0, 4.0].map(f64::to_bits).to_vec();
    let summary = summarize_values(&values, 2.5f64.to_bits());
    assert_eq!(f64::from_bits(summary.avg), 2.5);
    assert_eq!(f64::from_bits(summary.min), 1.0);
    assert_eq!(f64::from_bits(summary.max), 4.0);
    assert_eq!(f64::from_bits(summary.p50), 3.0);
}

#[test]
fn application_recorder_tracks_each_api_separately() {
    let mut registry = ApplicationRegistry::new();
    let recorder = registry.recorder();
    recorder.record_success(&mut registry, "get", MILLI, 420);
    recorder.record_success(&mut registry, "put", 2 * MILLI, 420);
    recorder.record_latency(&mut registry, "durable", 3 * MILLI);
    let delta = registry.drain();

    assert_eq!(delta.operations.get("get").map(|row| row.calls), Some(1));
    assert_eq!(delta.operations.get("put").map(|row| row.calls), Some(1));
    assert!(delta.operations.get("durable").is_none());
    assert_eq!(delta.histograms.summaries_with_prefix("api/").len(), 3);
}

#[test]
fn final_partial_window_includes_application_and_store_activity() {
    let mut registry = ApplicationRegistry::new();
    let recorder = registry.recorder();
    let mut store_metrics = StoreMetrics::new();
    let control = RateWindowControl::new();
    let sampler = Sampler::new(0, store_metrics.snapshot(), quiet_host());

    recorder.record_success(&mut registry, "flush", MILLI, 0);
    store_metrics.record_request(HttpMethod::Get);
    store_metrics.record_response_bytes(HttpMethod::Get, 16);

    let measurement = sampler.finish(
        100 * MILLI,
        registry.drain(),
        store_metrics.snapshot(),
        &control,
    );
    let flush = operation(&measurement, "flush");
    assert_eq!(flush.total, 1);
    assert!(f64::from_bits(flush.min_per_second) > 0.0);
    let get = request(&measurement, "GET");
    assert_eq!(get.total, 1);
    assert!(f64::from_bits(get.min_per_second) > 0.0);
    let store = measurement.object_store();
    let transferred = throughput(store.throughput.get("GET").expect("throughput row"));
    assert!(f64::from_bits(transferred.min_bytes_per_second) > 0.0);
    assert_eq!(f64::from_bits(transferred.min_bytes_per_second), 160.0);
}

#[test]
fn drain_activity_is_totaled_without_contaminating_rate_windows() {
    let mut registry = ApplicationRegistry::new();
    let recorder = registry.recorder();
    let mut store_metrics = StoreMetrics::new();
    let mut control = RateWindowControl::new();
    let mut sampler = Sampler::new(0, store_metrics.snapshot(), quiet_host());

    recorder.record_success(&mut registry, "get", MILLI, 16);
    store_metrics.record_request(HttpMethod::Get);
    store_metrics.record_response_bytes(HttpMethod::Get, 16);
    sampler.tick(
        SECOND,
        registry.drain(),
        store_metrics.snapshot(),
        quiet_host(),
        &control,
    );

    control.finish();
    recorder.record_success(&mut registry, "flush", MILLI, 0);
    store_metrics.record_request(HttpMethod::Put);
    store_metrics.record_response_bytes(HttpMethod::Put, 16);
    sampler.tick(
        2 * SECOND,
        registry.drain(),
        store_metrics.snapshot(),
        quiet_host(),
        &control,
    );
    let measurement = sampler.finish(
        2_400 * MILLI,
        registry.drain(),
        store_metrics.snapshot(),
        &control,
    );

    let get = operation(&measurement, "get");
    assert_eq!(get.total, 1);
    assert!(f64::from_bits(get.min_per_second) > 0.0);
    let flush = operation(&measurement, "flush");
    assert_eq!(flush.total, 1);
    assert_eq!(f64::from_bits(flush.p50_per_second), 0.0);

    let gets = request(&measurement, "GET");
    assert_eq!(gets.total, 1);
    assert!(f64::from_bits(gets.min_per_second) > 0.0);
    let puts = request(&measurement, "PUT");
    assert_eq!(puts.total, 1);
    assert_eq!(f64::from_bits(puts.p50_per_second), 0.0);

    assert!(measurement.is_within_range());
    let series = measurement.series();
    assert_eq!(series.rate_elapsed_ns.len(), series.rate_duration_ns.len());
    assert_eq!(
        series.latency_elapsed_ns.len(),
        series.latency_duration_ns.len()
    );
    assert!(series.resource_elapsed_ns.len() > series.rate_elapsed_ns.len());
    assert!(series.latency_elapsed_ns.len() > series.rate_elapsed_ns.len());
    let row = |name: &str| {
        series
            .application
            .operations_per_second
            .get(name)
            .expect("row")
    };
    assert!(row("get").iter().any(|rate| per_second(rate) > 0.0));
    assert!(row("flush").iter().all(|rate| per_second(rate) == 0.0));
    assert!(series
        .object_store
        .requests_per_second
        .get("PUT")
        .expect("row")
        .iter()
        .all(|rate| per_second(rate) == 0.0));
    for name in ["get", "flush"] {
        let latency = series.application.latency_ns.get(name).expect("latency");
        assert_eq!(latency.windows.len(), series.latency_elapsed_ns.len());
        assert!(latency.windows.iter().any(Option::is_some));
    }
}

#[test]
fn totals_and_errors_cover_the_whole_interval() {
    let mut registry = ApplicationRegistry::new();
    let recorder = registry.recorder();
    let mut store_metrics = StoreMetrics::new();
    store_metrics.record_request(HttpMethod::Get);
    let control = RateWindowControl::new();
    let sampler = Sampler::new(5, store_metrics.snapshot(), quiet_host());
    recorder.record_error(&mut registry, "get", MILLI);
    recorder.record_success(&mut registry, "get", MILLI, 7);
    store_metrics.record_server_error(HttpMethod::Get);
    let measurement = sampler.finish(
        SECOND + 5,
        registry.drain(),
        store_metrics.snapshot(),
        &control,
    );
    assert_eq!(measurement.elapsed(), SECOND);
    assert_eq!(measurement.operation_total("get"), 2);
    assert_eq!(measurement.operation_total("put"), 0);
    assert_eq!(measurement.application_errors(), 1);
    assert_eq!(measurement.object_store_attempt_errors(), 1);
    assert_eq!(measurement.errors(), 2);
}

#[test]
fn draining_takes_what_was_recorded_once() {
    let mut registry = ApplicationRegistry::new();
    let first = registry.recorder();
    let second = registry.recorder();
    first.record_success(&mut registry, "get", MILLI, 1);
    second.record_success(&mut registry, "get", MILLI, 2);
    let delta = registry.drain();
    let row = delta.operations.get("get").expect("row");
    assert_eq!((row.calls, row.logical_bytes, row.errors), (2, 3, 0));
    let again = registry.drain();
    assert!(again
        .operations
        .get("get")
        .map_or(true, |row| row.calls == 0));
}

#[test]
fn host_windows_hold_the_growth_of_the_counters() {
    let mut later = quiet_host();
    later.process_rss_bytes = 9;
    later.network_received = 100;
    later.disk_write_operations = 3;
    let window = later.window(&quiet_host(), 2 * SECOND, SECOND);
    assert_eq!(window.elapsed_ns, 2 * SECOND);
    assert_eq!(window.duration_ns, SECOND);
    assert_eq!(window.process_rss_bytes, 9);
    assert_eq!(window.network_received, 100);
    assert_eq!(window.disk_write_operations, 3);
    assert_eq!(quiet_host().window(&later, 0, 0).network_received, 0);
}

#[test]
fn sampled_resources_become_series() {
    let store_metrics = StoreMetrics::new();
    let control = RateWindowControl::new();
    assert!(control.active());
    let mut registry = ApplicationRegistry::new();
    let mut sampler = Sampler::new(0, store_metrics.snapshot(), quiet_host());
    let mut busy = quiet_host();
    busy.process_cpu_cores = 1.5f64.to_bits();
    busy.machine_cpu_percent = 40.0f64.to_bits();
    busy.disk_read_bytes = 512;
    sampler.tick(
        SECOND,
        registry.drain(),
        store_metrics.snapshot(),
        busy,
        &control,
    );
    let measurement = sampler.finish(SECOND, registry.drain(), store_metrics.snapshot(), &control);
    assert_eq!(measurement.process().cpu_cores, [1.5f64.to_bits()]);
    let machine = measurement.machine();
    assert_eq!(machine.cpu_percent, [40.0f64.to_bits()]);
    assert_eq!(machine.disk_read_bytes_per_second.len(), 1);
    assert_eq!(per_second(&machine.disk_read_bytes_per_second[0]), 512.0);
}

#[test]
fn values_that_are_not_finite_are_left_out() {
    let values: Vec<u64> = [2.0f64, f64::NAN, -1.0, f64::INFINITY]
        .map(f64::to_bits)
        .to_vec();
    assert_eq!(
        finite_values(&values),
        [2.0f64.to_bits(), (-1.0f64).to_bits()]
    );
    let summary = summarize_values(&values, 0.5f64.to_bits());
    assert_eq!(f64::from_bits(summary.min), -1.0);
    assert_eq!(f64::from_bits(summary.max), 2.0);
    assert_eq!(f64::from_bits(summary.avg), 0.5);

    let nothing = summarize_values(&vec![f64::NAN.to_bits()], 7);
    assert_eq!(nothing.avg, 0);
    assert_eq!(nothing.max, 0);
}

#[test]
fn backpressure_adds_the_stalled_intervals() {
    let mut measurement = BackpressureMeasurement::new();
    measurement.finish_interval(3);
    measurement.start(10);
    measurement.start(15);
    measurement.finish_interval(17);
    measurement.start(30);
    assert_eq!(measurement.finish(34), 11);
}

#[test]
fn long_durations_saturate() {
    assert_eq!(duration_ns(u64::MAX as u128), u64::MAX);
    assert_eq!(duration_ns(u64::MAX as u128 + 1), u64::MAX);
    assert_eq!(duration_ns(12), 12);
}

#[test]
fn published_latencies_keep_the_digest() {
    let mut registry = ApplicationRegistry::new();
    let recorder = registry.recorder();
    recorder.record_success(&mut registry, "get", 4_000, 1);
    let delta = registry.drain();
    let digest = delta.histograms.summary("api/get").expect("digest");
    let summary = LatencySummary::publish(&digest, 4_000.0f64.to_bits());
    assert_eq!(summary.count, 1);
    assert_eq!(f64::from_bits(summary.avg_ns), 4_000.0);
    assert_eq!(summary.p50_ns, 4_000);
    assert_eq!(summary.max_ns, 4_000);
}
