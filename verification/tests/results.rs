use slatedb_benchmark::bundle::{
    assemble_manifest, check_bundle, check_golden, check_member, discover_workloads,
    result_location, select_patches, series_location, validate_source_identities, BundleError,
    BundleMember,
};
use slatedb_benchmark::config::{
    load, BenchmarkScale, ResolvedConfig, ScaledProducts, Task, BLOCK_CACHE_BYTES,
    METADATA_CACHE_BYTES, RECORD_COUNT,
};
use slatedb_benchmark::digest::sha256_bytes;
use slatedb_benchmark::histogram::LatencyDigest;
use slatedb_benchmark::host::EnvironmentFault;
use slatedb_benchmark::manifest::{
    check_run_manifest, validate_run_manifest, validate_workload_series, ManifestFault,
    SidecarFault,
};
use slatedb_benchmark::model::{
    ApplicationMetrics, ApplicationSeries, AppliedPatch, CheckpointReference, DistributionSummary,
    Environment, GoldenDatasetMetadata, GoldenManifest, HistogramSeries, InitialState,
    LatencySummary, LatencyTimeSeries, MachineSeries, MachineStatistics, ObjectStoreMetrics,
    ObjectStoreSeries, PreparationResult, ProcessSeries, ProcessStatistics, Rate, RateSummary,
    ResultConfiguration, RunManifest, SeriesReference, SourceIdentity, ThroughputSummary,
    WorkloadResult, WorkloadSeries,
};
use slatedb_benchmark::named::Named;
use slatedb_benchmark::publish::{
    check_publication, commit_message, find_manifest, publication_directory,
    validate_bundle_files, GitStep, Publication, PublishAction, PublishError,
};
use slatedb_benchmark::runner::checkpoint::{
    check_checkpoint_reference, dataset_metadata, ensure_no_failed_compactions,
    validate_uncompacted_checkpoint, verify_checkpoint_reference, CheckpointFacts,
    CheckpointFault, CompactionStatus, CompactorVersion, FailedCompaction, LevelShape,
    ManifestFacts, QuietWatch,
};
use slatedb_benchmark::runner::matching::{
    check_series_digest, checkpoints_agree, ensure_preparation_matches,
    ensure_shared_configuration, ensure_workload_matches, golden_task_root, session_task_root,
    starts_from, validate_arguments, validate_series_digest, ArgumentFault, ExecutionArgs,
    Mismatch, SeriesFault, SharedFault,
};
use slatedb_benchmark::runner::preparation::{
    PreparationAction, PreparationError, PreparationRun,
};
use slatedb_benchmark::runner::workload::{Measured, RunAction, RunError, WorkloadRun};
use slatedb_benchmark::validation::{
    batch_count, check_golden_manifest, check_preparation_result, check_workload_result,
    is_sha256, validate_distribution, validate_golden_manifest, validate_preparation_result,
    validate_workload_result, AverageVerdicts, Fault, Readings,
};
use slatedb_benchmark::workloads::execution::{ExecutionError, ExecutionTimes};

const STAMP: &str = "2026-01-02T03:04:05Z";
const FIRST: &str = "67e55044-10b1-426f-9247-bb680e5fe0c8";
const SECOND: &str = "67e55044-10b1-426f-9247-bb680e5fe0c9";

fn text(value: &str) -> String {
    value.to_string()
}

fn digest_of(fill: char) -> String {
    fill.to_string().repeat(64)
}

fn config_of(task: Task, factor: f64) -> ResolvedConfig {
    let product = |value: u64| (value as f64 * factor).round() as u64;
    let definition = task.definition();
    let products = ScaledProducts {
        record_count: product(RECORD_COUNT),
        block_bytes: product(BLOCK_CACHE_BYTES),
        metadata_bytes: product(METADATA_CACHE_BYTES),
        warmup_ms: product(definition.warmup_ms),
        measurement_ms: product(definition.measurement_ms),
    };
    let scale = BenchmarkScale::validate(factor.to_bits()).expect("scale");
    load(
        task,
        scale,
        &products,
        true,
        text("{}"),
        text("{}"),
        text("release"),
        "aws,zstd",
    )
    .expect("resolved config")
}

fn source() -> SourceIdentity {
    SourceIdentity::current("0.14.1", "slate", "0.1.0", "runner", "lock")
}

fn environment() -> Environment {
    Environment {
        runner_type: text("warp-ubuntu-latest-x64-16x"),
        hostname: text("host"),
        cpu_model: text("cpu"),
        cpu_cores: 16,
        ram_bytes: 64 * 1024 * 1024 * 1024,
        local_disk: text("disk"),
        os: text("linux"),
        kernel: text("6"),
        object_store: text("Tigris"),
        endpoint: text("https://t3.storage.dev"),
        region: text("fra"),
    }
}

fn checkpoint(id: &str) -> CheckpointReference {
    CheckpointReference {
        database_path: text("goldens/golden/compaction/database"),
        checkpoint_id: text(id),
        manifest_id: 4,
        lsm_digest_sha256: digest_of('a'),
        live_sst_bytes: 77,
    }
}

fn rate(total: u64) -> RateSummary {
    let one = 1.0f64.to_bits();
    RateSummary {
        total,
        avg_per_second: one,
        p50_per_second: one,
        p95_per_second: one,
        p99_per_second: one,
        p999_per_second: one,
        min_per_second: one,
        max_per_second: one,
    }
}

fn bytes(total_bytes: u64) -> ThroughputSummary {
    let one = 1.0f64.to_bits();
    ThroughputSummary {
        total_bytes,
        avg_bytes_per_second: one,
        p50_bytes_per_second: one,
        p95_bytes_per_second: one,
        p99_bytes_per_second: one,
        p999_bytes_per_second: one,
        min_bytes_per_second: one,
        max_bytes_per_second: one,
    }
}

fn latency(count: u64) -> LatencySummary {
    LatencySummary {
        count,
        avg_ns: 2.0f64.to_bits(),
        p50_ns: 1,
        p95_ns: 2,
        p99_ns: 3,
        p999_ns: 4,
        min_ns: 1,
        max_ns: 5,
    }
}

fn table<V>(rows: Vec<(&str, V)>) -> Named<V> {
    let mut named = Named::new();
    for (name, value) in rows {
        named.put(text(name), value);
    }
    named
}

fn process() -> ProcessStatistics {
    ProcessStatistics {
        cpu_cores: DistributionSummary::default(),
        rss_bytes: DistributionSummary::default(),
    }
}

fn machine() -> MachineStatistics {
    let none = DistributionSummary::default();
    MachineStatistics {
        cpu_percent: none,
        rss_bytes: none,
        network_receive_bytes_per_second: none,
        network_send_bytes_per_second: none,
        disk_read_bytes_per_second: none,
        disk_write_bytes_per_second: none,
        disk_read_operations_per_second: none,
        disk_write_operations_per_second: none,
    }
}

fn balanced_application() -> ApplicationMetrics {
    ApplicationMetrics {
        operations: table(vec![
            ("get", rate(10)),
            ("put", rate(8)),
            ("flush", rate(1)),
        ]),
        throughput: table(vec![("get", bytes(100))]),
        latency: table(vec![
            ("get", latency(10)),
            ("put", latency(8)),
            ("flush", latency(1)),
            ("durable", latency(8)),
        ]),
    }
}

fn store_metrics() -> ObjectStoreMetrics {
    ObjectStoreMetrics {
        requests: table(vec![("GET", rate(3))]),
        throughput: table(vec![("GET", bytes(30))]),
    }
}

fn verdicts() -> AverageVerdicts {
    AverageVerdicts {
        operations: table(vec![
            ("get", true),
            ("put", true),
            ("flush", true),
            ("write", true),
        ]),
        throughput: table(vec![("get", true), ("write", true)]),
        requests: table(vec![("GET", true)]),
        transfers: table(vec![("GET", true)]),
    }
}

fn workload() -> WorkloadResult {
    WorkloadResult {
        status: text("ok"),
        task: Task::Balanced,
        golden_id: text("golden"),
        session: text("session"),
        timestamp: text(STAMP),
        actions_log_url: None,
        source: source(),
        environment: environment(),
        configuration: ResultConfiguration::from_resolved(config_of(Task::Balanced, 1.0)),
        initial_state: InitialState {
            kind: text("golden"),
            checkpoint_id: Some(text(FIRST)),
            manifest_id: Some(4),
            lsm_digest_sha256: digest_of('a'),
        },
        client_measurement_ns: 900,
        durability_drain_ns: 5,
        recorded_interval_ns: 910,
        application: balanced_application(),
        object_store: store_metrics(),
        process: process(),
        machine: machine(),
        series: SeriesReference {
            file: text("series.json"),
            sha256: digest_of('b'),
        },
    }
}

fn dataset() -> GoldenDatasetMetadata {
    GoldenDatasetMetadata {
        record_count: 300_000_000,
        key_bytes: 20,
        value_bytes: 400,
        logical_bytes: 126_000_000_000,
        live_sst_bytes: 77,
    }
}

fn bulk_load() -> PreparationResult {
    PreparationResult {
        status: text("ok"),
        task: Task::BulkLoad,
        golden_id: text("golden"),
        timestamp: text(STAMP),
        source: source(),
        environment: environment(),
        configuration: ResultConfiguration::from_resolved(config_of(Task::BulkLoad, 1.0)),
        source_checkpoint: None,
        checkpoint: checkpoint(SECOND),
        dataset: dataset(),
        recorded_interval_ns: 50,
        application: ApplicationMetrics {
            operations: table(vec![("flush", rate(1)), ("write", rate(292_969))]),
            throughput: table(vec![("write", bytes(126_000_000_000))]),
            latency: table(vec![("flush", latency(1)), ("write", latency(292_969))]),
        },
        object_store: store_metrics(),
        process: process(),
        machine: machine(),
    }
}

fn compaction() -> PreparationResult {
    let mut result = bulk_load();
    result.task = Task::Compaction;
    result.configuration = ResultConfiguration::from_resolved(config_of(Task::Compaction, 1.0));
    result.source_checkpoint = Some(checkpoint(SECOND));
    result.checkpoint = checkpoint(FIRST);
    result.application = ApplicationMetrics {
        operations: Named::new(),
        throughput: Named::new(),
        latency: Named::new(),
    };
    result
}

fn golden() -> GoldenManifest {
    GoldenManifest {
        status: text("ok"),
        golden_id: text("golden"),
        timestamp: text(STAMP),
        source: source(),
        environment: environment(),
        configuration: ResultConfiguration::from_resolved(config_of(Task::Compaction, 1.0)),
        checkpoint: checkpoint(FIRST),
        dataset: dataset(),
    }
}

fn series() -> WorkloadSeries {
    let row = || {
        vec![Rate {
            amount: 1,
            duration_ns: 1,
        }]
    };
    let window = LatencyDigest {
        count: 1,
        mean_us: 1.0f64.to_bits(),
        p50_ns: 1,
        p95_ns: 1,
        p99_ns: 1,
        p999_ns: 1,
        min_ns: 1,
        max_ns: 1,
    };
    let latencies = || LatencyTimeSeries {
        windows: vec![Some(window), None],
    };
    WorkloadSeries {
        rate_elapsed_ns: vec![1],
        rate_duration_ns: vec![1],
        latency_elapsed_ns: vec![1, 2],
        latency_duration_ns: vec![1, 1],
        resource_elapsed_ns: vec![1],
        resource_duration_ns: vec![1],
        application: ApplicationSeries {
            operations_per_second: table(vec![("get", row()), ("put", row()), ("flush", row())]),
            bytes_per_second: table(vec![("get", row())]),
            latency_ns: table(vec![
                ("get", latencies()),
                ("put", latencies()),
                ("flush", latencies()),
                ("durable", latencies()),
            ]),
            latency_histograms: table(vec![(
                "get",
                HistogramSeries {
                    upper_bound_ns: vec![1],
                    counts: vec![1],
                },
            )]),
        },
        object_store: ObjectStoreSeries {
            requests_per_second: table(vec![("GET", row())]),
            bytes_per_second: table(vec![("GET", row())]),
        },
        process: ProcessSeries {
            cpu_cores: vec![0],
            rss_bytes: vec![0],
        },
        machine: MachineSeries {
            cpu_percent: vec![0],
            rss_bytes: vec![0],
            network_receive_bytes_per_second: row(),
            network_send_bytes_per_second: row(),
            disk_read_bytes_per_second: row(),
            disk_write_bytes_per_second: row(),
            disk_read_operations_per_second: row(),
            disk_write_operations_per_second: row(),
        },
    }
}

fn run_manifest() -> RunManifest {
    assemble_manifest(
        golden(),
        digest_of('c'),
        vec![BundleMember {
            result: workload(),
            result_sha256: digest_of('d'),
            series_sha256: digest_of('e'),
        }],
        text(STAMP),
        text(STAMP),
        vec![AppliedPatch {
            name: text("0001.patch"),
            sha256: digest_of('f'),
        }],
    )
}

#[test]
fn rejects_non_finite_published_values() {
    let mut summary = DistributionSummary::default();
    summary.avg = f64::NAN.to_bits();
    assert!(validate_distribution(&summary).is_err());
}

#[test]
fn distributions_rise_and_are_not_negative() {
    let mut summary = DistributionSummary::default();
    assert_eq!(validate_distribution(&summary), Ok(()));
    summary.min = (-1.0f64).to_bits();
    assert_eq!(
        validate_distribution(&summary),
        Err(Fault::NegativeOrNotFinite)
    );
    summary.min = 1.0f64.to_bits();
    assert_eq!(validate_distribution(&summary), Err(Fault::ReversedBounds));
    summary.max = 1.0f64.to_bits();
    assert_eq!(validate_distribution(&summary), Err(Fault::NotOrdered));
}

#[test]
fn digests_are_lowercase_hexadecimal() {
    assert!(is_sha256(&digest_of('f')));
    assert!(!is_sha256(&digest_of('F')));
    assert!(!is_sha256(&digest_of('g')));
    assert!(!is_sha256("ab"));
    assert_eq!(
        sha256_bytes(b"abc"),
        "ba7816bf8f01cfea414140de5dae2223b00361a396177a9cb410ff61f20015ad"
    );
}

#[test]
fn batches_cover_the_records() {
    assert_eq!(batch_count(0), 0);
    assert_eq!(batch_count(1_024), 1);
    assert_eq!(batch_count(1_025), 2);
    assert_eq!(batch_count(300_000_000), 292_969);
}

#[test]
fn workload_results_are_checked_part_by_part() {
    let check = |result: &WorkloadResult| validate_workload_result(result, &verdicts());
    assert_eq!(check(&workload()), Ok(()));
    assert_eq!(
        check_workload_result(&workload(), &verdicts(), false),
        Err(Fault::InvalidTimestamp)
    );

    let mut result = workload();
    result.status = text("failed");
    assert_eq!(check(&result), Err(Fault::StatusNotOk));
    let mut result = workload();
    result.task = Task::BulkLoad;
    assert_eq!(check(&result), Err(Fault::WrongKindOfTask));
    let mut result = workload();
    result.golden_id = String::new();
    assert_eq!(check(&result), Err(Fault::NoGoldenId));
    let mut result = workload();
    result.session = String::new();
    assert_eq!(check(&result), Err(Fault::NoSession));
    let mut result = workload();
    result.timestamp = text("yesterday");
    assert_eq!(check(&result), Err(Fault::InvalidTimestamp));
    let mut result = workload();
    result.source.slate_commit = String::new();
    assert_eq!(check(&result), Err(Fault::MissingSourceField));
    let mut result = workload();
    result.task = Task::ReadHeavy;
    assert_eq!(check(&result), Err(Fault::ForeignConfiguration));
    let mut result = workload();
    result.durability_drain_ns = 0;
    assert_eq!(check(&result), Err(Fault::MissingDrain));
    let mut result = workload();
    result.recorded_interval_ns = 904;
    assert_eq!(check(&result), Err(Fault::IntervalTooShort));
    let mut result = workload();
    result.initial_state.kind = text("empty");
    assert_eq!(check(&result), Err(Fault::NotGoldenAtStart));
    let mut result = workload();
    result.initial_state.checkpoint_id = None;
    assert_eq!(check(&result), Err(Fault::NoInitialCheckpoint));
    let mut result = workload();
    result.initial_state.manifest_id = None;
    assert_eq!(check(&result), Err(Fault::NoInitialManifest));
    let mut result = workload();
    result.initial_state.lsm_digest_sha256 = text("x");
    assert_eq!(check(&result), Err(Fault::InvalidDigest));
}

#[test]
fn configurations_are_checked_field_by_field() {
    let check = |result: &WorkloadResult| validate_workload_result(result, &verdicts());
    let mut result = workload();
    result.configuration.scale = 2.0f64.to_bits();
    assert_eq!(check(&result), Err(Fault::InvalidScale));
    let mut result = workload();
    result.configuration.dataset.record_count = 0;
    assert_eq!(check(&result), Err(Fault::NoRecords));
    let mut result = workload();
    result.configuration.dataset.key_bytes = 0;
    assert_eq!(check(&result), Err(Fault::NoKeyBytes));
    let mut result = workload();
    result.configuration.dataset.value_bytes = 0;
    assert_eq!(check(&result), Err(Fault::NoValueBytes));
    let mut result = workload();
    result.configuration.caches.block_bytes = 0;
    assert_eq!(check(&result), Err(Fault::NoBlockCache));
    let mut result = workload();
    result.configuration.caches.metadata_bytes = 0;
    assert_eq!(check(&result), Err(Fault::NoMetadataCache));
    let mut result = workload();
    result.configuration.settings_are_table = false;
    assert_eq!(check(&result), Err(Fault::SettingsNotATable));
    let mut result = workload();
    result.configuration.build_profile = text("fast");
    assert_eq!(check(&result), Err(Fault::UnknownBuildProfile));
    let mut result = workload();
    result.configuration.enabled_features.push(text("aws"));
    assert_eq!(check(&result), Err(Fault::DuplicateFeatures));
    let mut result = workload();
    result.environment.cpu_cores = 0;
    assert_eq!(check(&result), Err(Fault::NoCpuCores));
    let mut result = workload();
    result.environment.ram_bytes = 0;
    assert_eq!(check(&result), Err(Fault::NoRam));
    let mut result = workload();
    result.environment.kernel = String::new();
    assert_eq!(check(&result), Err(Fault::MissingEnvironmentField));
}

#[test]
fn metric_rows_are_checked_against_each_other() {
    let check = |result: &WorkloadResult| validate_workload_result(result, &verdicts());
    let mut result = workload();
    result.application.operations.put(String::new(), rate(1));
    assert_eq!(check(&result), Err(Fault::UnnamedApi));
    let mut result = workload();
    result.application.operations.put(text("get"), rate(0));
    assert_eq!(check(&result), Err(Fault::NoCalls));
    let mut result = workload();
    result.application.operations.put(text("scan"), rate(1));
    assert_eq!(check(&result), Err(Fault::NoLatencyRow));
    let mut result = workload();
    result.application.operations.put(text("get"), rate(11));
    assert_eq!(check(&result), Err(Fault::CountsDiffer));
    let mut result = workload();
    let mut broken = latency(10);
    broken.avg_ns = f64::NAN.to_bits();
    result.application.latency.put(text("get"), broken);
    assert_eq!(check(&result), Err(Fault::InvalidLatencyAverage));
    let mut result = workload();
    let mut falling = latency(10);
    falling.p95_ns = 0;
    result.application.latency.put(text("get"), falling);
    assert_eq!(check(&result), Err(Fault::NotOrdered));
    let mut result = workload();
    result.application.throughput.put(text("get"), bytes(0));
    assert_eq!(check(&result), Err(Fault::NoBytes));
    let mut result = workload();
    result.application.throughput.put(text("scan"), bytes(1));
    assert_eq!(check(&result), Err(Fault::ThroughputWithoutOperations));
    let mut result = workload();
    result.application.latency.put(text("scan"), latency(1));
    assert_eq!(check(&result), Err(Fault::LatencyWithoutOperations));
    let mut result = workload();
    result.object_store.requests.put(text("FETCH"), rate(1));
    assert_eq!(check(&result), Err(Fault::UnknownMethod));
    let mut result = workload();
    result.object_store.throughput.put(text("PUT"), bytes(1));
    assert_eq!(check(&result), Err(Fault::ThroughputWithoutRequests));
    let mut unsure = verdicts();
    unsure.operations.put(text("put"), false);
    assert_eq!(
        validate_workload_result(&workload(), &unsure),
        Err(Fault::AverageDiffers)
    );
    let mut result = workload();
    result.application.operations.put(text("flush"), rate(2));
    result.application.latency.put(text("flush"), latency(2));
    assert_eq!(check(&result), Err(Fault::FlushCountDiffers));
    let mut result = workload();
    result.application.latency.put(text("durable"), latency(7));
    assert_eq!(check(&result), Err(Fault::DurableCountDiffers));
    let mut result = workload();
    result.application.latency.remove("durable");
    assert_eq!(check(&result), Err(Fault::LatencyRowsDiffer));
    let mut result = workload();
    result.application.operations.remove("flush");
    result.application.latency.remove("flush");
    assert_eq!(check(&result), Err(Fault::OperationRowsDiffer));
}

#[test]
fn preparation_results_are_checked_part_by_part() {
    let check = |result: &PreparationResult| validate_preparation_result(result, &verdicts());
    assert_eq!(check(&bulk_load()), Ok(()));
    assert_eq!(check(&compaction()), Ok(()));
    assert_eq!(
        check_preparation_result(
            &bulk_load(),
            &verdicts(),
            Readings {
                timestamp: true,
                checkpoint: false,
                source_checkpoint: true
            }
        ),
        Err(Fault::InvalidCheckpointId)
    );

    let mut result = bulk_load();
    result.task = Task::Idle;
    assert_eq!(check(&result), Err(Fault::WrongKindOfTask));
    let mut result = bulk_load();
    result.recorded_interval_ns = 0;
    assert_eq!(check(&result), Err(Fault::EmptyInterval));
    let mut result = bulk_load();
    result.dataset.logical_bytes += 1;
    assert_eq!(check(&result), Err(Fault::LogicalBytesDiffer));
    let mut result = bulk_load();
    result.checkpoint.database_path = String::new();
    assert_eq!(check(&result), Err(Fault::NoCheckpointPath));
    let mut result = bulk_load();
    result.checkpoint.checkpoint_id = String::new();
    assert_eq!(check(&result), Err(Fault::NoCheckpointId));
    let mut result = bulk_load();
    result.checkpoint.checkpoint_id = text("not-a-uuid");
    assert_eq!(check(&result), Err(Fault::InvalidCheckpointId));
    let mut result = bulk_load();
    result.checkpoint.live_sst_bytes = 0;
    assert_eq!(check(&result), Err(Fault::NoSstData));
    let mut result = bulk_load();
    result.dataset.live_sst_bytes = 78;
    assert_eq!(check(&result), Err(Fault::SstBytesDiffer));
    let mut result = bulk_load();
    result.source_checkpoint = Some(checkpoint(FIRST));
    assert_eq!(check(&result), Err(Fault::UnexpectedSourceCheckpoint));
    let mut result = compaction();
    result.source_checkpoint = None;
    assert_eq!(check(&result), Err(Fault::NoSourceCheckpoint));
    let mut result = compaction();
    result.source_checkpoint = Some(checkpoint(FIRST));
    assert_eq!(check(&result), Err(Fault::ReusedCheckpoint));
    let mut result = bulk_load();
    result.application.operations.put(text("write"), rate(1));
    result.application.latency.put(text("write"), latency(1));
    assert_eq!(check(&result), Err(Fault::WriteCountDiffers));
    let mut result = bulk_load();
    result.application.throughput.put(text("write"), bytes(1));
    assert_eq!(check(&result), Err(Fault::WriteBytesDiffer));
    let mut result = bulk_load();
    result.application.throughput.remove("write");
    assert_eq!(check(&result), Err(Fault::ThroughputRowsDiffer));
    let mut result = compaction();
    result.application.operations.put(text("get"), rate(1));
    result.application.latency.put(text("get"), latency(1));
    assert_eq!(check(&result), Err(Fault::UnexpectedCalls));
    let mut result = bulk_load();
    result.configuration.dataset.record_count = 7;
    assert_eq!(check(&result), Err(Fault::DatasetDiffers));
}

#[test]
fn golden_manifests_are_checked() {
    assert_eq!(validate_golden_manifest(&golden()), Ok(()));
    assert_eq!(
        check_golden_manifest(&golden(), false, true),
        Err(Fault::InvalidTimestamp)
    );
    assert_eq!(
        check_golden_manifest(&golden(), true, false),
        Err(Fault::InvalidCheckpointId)
    );
    let mut other = golden();
    other.configuration = ResultConfiguration::from_resolved(config_of(Task::Balanced, 1.0));
    assert_eq!(validate_golden_manifest(&other), Err(Fault::WrongKindOfTask));
}

#[test]
fn sidecars_have_the_rows_and_windows_of_their_result() {
    let check = |side: &WorkloadSeries| validate_workload_series(&workload(), side);
    assert_eq!(check(&series()), Ok(()));
    let mut side = series();
    side.rate_duration_ns.push(1);
    assert_eq!(check(&side), Err(SidecarFault::WindowsDiffer));
    let mut side = series();
    side.application.bytes_per_second.put(text("get"), Vec::new());
    assert_eq!(check(&side), Err(SidecarFault::RateLengths));
    let mut side = series();
    side.application
        .latency_ns
        .put(text("get"), LatencyTimeSeries { windows: vec![None] });
    assert_eq!(check(&side), Err(SidecarFault::LatencyLengths));
    let mut side = series();
    side.machine.rss_bytes.push(1);
    assert_eq!(check(&side), Err(SidecarFault::ResourceLengths));
    let mut side = series();
    side.application.latency_histograms.put(
        text("get"),
        HistogramSeries {
            upper_bound_ns: vec![1],
            counts: vec![],
        },
    );
    assert_eq!(check(&side), Err(SidecarFault::HistogramLengths));
    let mut side = series();
    side.application.operations_per_second.remove("put");
    assert_eq!(check(&side), Err(SidecarFault::OperationRows));
    let mut side = series();
    side.object_store.requests_per_second.remove("GET");
    assert_eq!(check(&side), Err(SidecarFault::RequestRows));
    let mut side = series();
    side.application.latency_ns.remove("durable");
    assert_eq!(check(&side), Err(SidecarFault::LatencyRows));
}

#[test]
fn workload_series_digest_detects_modified_bytes() {
    let reference = SeriesReference {
        file: text("series.json"),
        sha256: sha256_bytes(b"original"),
    };
    validate_series_digest(&reference, b"original").expect("matching digest");
    assert!(validate_series_digest(&reference, b"modified").is_err());

    let elsewhere = SeriesReference {
        file: text("other.json"),
        sha256: digest_of('a'),
    };
    assert_eq!(
        check_series_digest(&elsewhere, &digest_of('a')),
        Err(SeriesFault::WrongFile)
    );
    assert_eq!(
        check_series_digest(&reference, &digest_of('a')),
        Err(SeriesFault::WrongDigest)
    );
}

#[test]
fn golden_compatibility_ignores_version_specific_slate_settings() {
    let config = config_of(Task::Balanced, 1.0);
    let mut golden = ResultConfiguration::from_resolved(config_of(Task::Balanced, 1.0));
    golden.slate_settings = text("{\"defaults_from_another_version\":true}");

    ensure_shared_configuration(&golden, &config).expect("compatible golden data");
}

#[test]
fn golden_compatibility_ignores_cache_sizes() {
    let config = config_of(Task::Balanced, 1.0);
    let mut golden = ResultConfiguration::from_resolved(config_of(Task::Balanced, 1.0));
    golden.caches.block_bytes = 1;
    golden.caches.metadata_bytes = 1;

    ensure_shared_configuration(&golden, &config).expect("compatible golden data");
}

#[test]
fn golden_compatibility_covers_scale_dataset_and_build() {
    let config = config_of(Task::Balanced, 1.0);
    let fresh = || ResultConfiguration::from_resolved(config_of(Task::Compaction, 1.0));
    let mut golden = fresh();
    golden.scale = 0.5f64.to_bits();
    assert_eq!(
        ensure_shared_configuration(&golden, &config),
        Err(SharedFault::Scale)
    );
    let mut golden = fresh();
    golden.dataset.record_count = 1;
    assert_eq!(
        ensure_shared_configuration(&golden, &config),
        Err(SharedFault::Dataset)
    );
    let mut golden = fresh();
    golden.build_profile = text("debug");
    assert_eq!(
        ensure_shared_configuration(&golden, &config),
        Err(SharedFault::BuildProfile)
    );
    let mut golden = fresh();
    golden.enabled_features.pop();
    assert_eq!(
        ensure_shared_configuration(&golden, &config),
        Err(SharedFault::Features)
    );
}

fn args(task: Task) -> ExecutionArgs {
    ExecutionArgs {
        task,
        golden: text("golden"),
        session: if task.is_preparation() {
            None
        } else {
            Some(text("session"))
        },
        scale: BenchmarkScale::full(),
        compaction_quiet_ms: 60_000,
    }
}

#[test]
fn arguments_name_a_golden_and_workloads_a_session() {
    assert_eq!(validate_arguments(&args(Task::Balanced)), Ok(()));
    assert_eq!(validate_arguments(&args(Task::BulkLoad)), Ok(()));
    let mut bad = args(Task::Balanced);
    bad.golden = text("../golden");
    assert_eq!(validate_arguments(&bad), Err(ArgumentFault::InvalidGolden));
    let mut bad = args(Task::BulkLoad);
    bad.session = Some(text("session"));
    assert_eq!(
        validate_arguments(&bad),
        Err(ArgumentFault::UnexpectedSession)
    );
    let mut bad = args(Task::Balanced);
    bad.session = None;
    assert_eq!(validate_arguments(&bad), Err(ArgumentFault::MissingSession));
    bad.session = Some(text("a/b"));
    assert_eq!(validate_arguments(&bad), Err(ArgumentFault::InvalidSession));
    assert_eq!(
        golden_task_root("golden", Task::BulkLoad).last().map(String::as_str),
        Some("bulk-load")
    );
    assert_eq!(
        session_task_root("session", Task::Balanced).last().map(String::as_str),
        Some("balanced")
    );
}

#[test]
fn stored_results_belong_to_one_run() {
    let config = config_of(Task::Balanced, 1.0);
    let golden = Some(checkpoint(FIRST));
    let check = |result: &WorkloadResult| {
        ensure_workload_matches(result, &args(Task::Balanced), &config, &source(), &golden)
    };
    assert_eq!(check(&workload()), Ok(()));
    let mut result = workload();
    result.task = Task::ReadHeavy;
    assert_eq!(check(&result), Err(Mismatch::Task));
    let mut result = workload();
    result.golden_id = text("other");
    assert_eq!(check(&result), Err(Mismatch::Golden));
    let mut result = workload();
    result.session = text("other");
    assert_eq!(check(&result), Err(Mismatch::Session));
    let mut result = workload();
    result.source.runner_commit = text("other");
    assert_eq!(check(&result), Err(Mismatch::RunnerCommit));
    let mut result = workload();
    result.source.slate_commit = text("other");
    assert_eq!(check(&result), Err(Mismatch::SlateCommit));
    let mut result = workload();
    result.configuration.caches.block_bytes = 1;
    assert_eq!(check(&result), Err(Mismatch::Configuration));
    let mut result = workload();
    result.initial_state.manifest_id = Some(5);
    assert_eq!(check(&result), Err(Mismatch::Checkpoint));

    assert!(starts_from(&workload().initial_state, &checkpoint(FIRST)));
    assert!(!starts_from(&workload().initial_state, &checkpoint(SECOND)));
    assert!(checkpoints_agree(&checkpoint(FIRST), &checkpoint(FIRST)));
    assert!(!checkpoints_agree(&checkpoint(FIRST), &checkpoint(SECOND)));

    let loaded = config_of(Task::BulkLoad, 1.0);
    assert_eq!(
        ensure_preparation_matches(&bulk_load(), &args(Task::BulkLoad), &loaded, &source()),
        Ok(())
    );
    let mut other = source();
    other.slate_commit = text("other");
    assert_eq!(
        ensure_preparation_matches(&bulk_load(), &args(Task::BulkLoad), &loaded, &other),
        Err(Mismatch::SlateCommit)
    );
}

fn facts() -> CheckpointFacts {
    CheckpointFacts {
        manifest_id: Some(4),
        manifest: Some(ManifestFacts {
            digest: digest_of('a'),
            live_bytes: 77,
        }),
    }
}

#[test]
fn checkpoints_must_still_be_what_was_recorded() {
    let check = |facts: &CheckpointFacts| verify_checkpoint_reference(&checkpoint(FIRST), facts);
    assert_eq!(check(&facts()), Ok(()));
    assert_eq!(
        verify_checkpoint_reference(&checkpoint("nonsense"), &facts()),
        Err(CheckpointFault::InvalidId)
    );
    assert_eq!(
        check_checkpoint_reference(&checkpoint("nonsense"), true, &facts()),
        Ok(())
    );
    let mut found = facts();
    found.manifest_id = None;
    assert_eq!(check(&found), Err(CheckpointFault::Missing));
    let mut found = facts();
    found.manifest_id = Some(5);
    assert_eq!(check(&found), Err(CheckpointFault::ManifestChanged));
    let mut found = facts();
    found.manifest = None;
    assert_eq!(check(&found), Err(CheckpointFault::ManifestMissing));
    let mut found = facts();
    found.manifest = Some(ManifestFacts {
        digest: digest_of('b'),
        live_bytes: 77,
    });
    assert_eq!(check(&found), Err(CheckpointFault::DigestChanged));
    found.manifest = Some(ManifestFacts {
        digest: digest_of('a'),
        live_bytes: 78,
    });
    assert_eq!(check(&found), Err(CheckpointFault::SizeChanged));

    let shape = |l0: usize, sorted_runs: usize| LevelShape { l0, sorted_runs };
    assert_eq!(
        validate_uncompacted_checkpoint(&vec![shape(0, 0), shape(2, 0)]),
        Ok(())
    );
    assert_eq!(
        validate_uncompacted_checkpoint(&vec![shape(0, 0)]),
        Err(CheckpointFault::NoL0Tables)
    );
    assert_eq!(
        validate_uncompacted_checkpoint(&vec![shape(1, 0), shape(0, 1)]),
        Err(CheckpointFault::SortedRuns)
    );
    assert_eq!(
        dataset_metadata(&config_of(Task::BulkLoad, 1.0), &checkpoint(FIRST)),
        dataset()
    );
}

#[test]
fn compaction_is_settled_after_a_quiet_interval() {
    let version = |manifest: u64| CompactorVersion {
        manifest,
        compactions: Some(1),
    };
    let done = vec![CompactionStatus::Completed];
    let running = vec![CompactionStatus::Running];
    let mut watch = QuietWatch::new(0);
    assert_eq!(watch.observe(version(1), &running, 0, 10, 50), Ok(false));
    assert_eq!(watch.observe(version(1), &done, 20, 30, 50), Ok(false));
    assert_eq!(watch.observe(version(2), &done, 60, 70, 50), Ok(false));
    assert_eq!(watch.observe(version(2), &done, 120, 130, 50), Ok(true));
    let failed = vec![CompactionStatus::Completed, CompactionStatus::Failed];
    assert_eq!(
        watch.observe(version(2), &failed, 130, 140, 50),
        Err(FailedCompaction(1))
    );
    assert_eq!(
        ensure_no_failed_compactions(&failed),
        Err(FailedCompaction(1))
    );
    assert_eq!(ensure_no_failed_compactions(&running), Ok(()));
}

#[test]
fn discovers_a_workload_subset_in_catalog_order() {
    let found = vec![text("sustained-ingest"), text("balanced")];
    assert_eq!(
        discover_workloads(&found).expect("discover workloads"),
        vec![Task::Balanced, Task::SustainedIngest]
    );
    assert_eq!(
        discover_workloads(&Vec::new()),
        Err(BundleError::NoWorkloads)
    );
    assert_eq!(
        discover_workloads(&vec![text("balanced"), text("stray")]),
        Err(BundleError::UnknownWorkload(1))
    );
}

#[test]
fn records_patches_in_filename_order() {
    let found = vec![text("0002.patch"), text("0001.patch"), text("README.md")];
    assert_eq!(select_patches(&found), ["0001.patch", "0002.patch"]);
}

#[test]
fn bundles_hold_results_of_one_run() {
    assert_eq!(check_golden("golden", &golden()), Ok(()));
    assert_eq!(
        check_golden("a/b", &golden()),
        Err(BundleError::InvalidGoldenId)
    );
    assert_eq!(
        check_golden("other", &golden()),
        Err(BundleError::OtherGolden)
    );
    let mut broken = golden();
    broken.status = text("bad");
    assert_eq!(
        check_golden("golden", &broken),
        Err(BundleError::GoldenInvalid(Fault::StatusNotOk))
    );
    let mut loaded = golden();
    loaded.configuration = ResultConfiguration::from_resolved(config_of(Task::BulkLoad, 1.0));
    assert_eq!(
        check_golden("golden", &loaded),
        Err(BundleError::NotCompacted)
    );

    assert_eq!(check_bundle(&golden(), &vec![workload()]), Ok(()));
    assert_eq!(
        check_bundle(&golden(), &Vec::new()),
        Err(BundleError::NoWorkloads)
    );
    assert_eq!(
        validate_source_identities(&Vec::new()),
        Err(BundleError::NoWorkloads)
    );
    let mut other = workload();
    other.source.slate_commit = text("other");
    assert_eq!(
        validate_source_identities(&vec![workload(), other]),
        Err(BundleError::OtherSlateCommit(Task::Balanced))
    );
    let mut other = workload();
    other.source.runner_commit = text("other");
    assert_eq!(
        check_bundle(&golden(), &vec![workload(), other]),
        Err(BundleError::OtherRunnerCommit(Task::Balanced))
    );
    let mut other = workload();
    other.session = text("other");
    assert_eq!(
        check_bundle(&golden(), &vec![workload(), other]),
        Err(BundleError::OtherSession)
    );
    let mut other = workload();
    other.configuration.scale = 0.5f64.to_bits();
    assert_eq!(
        check_bundle(&golden(), &vec![workload(), other]),
        Err(BundleError::OtherScale(Task::Balanced))
    );
    let mut other = workload();
    other.initial_state.manifest_id = Some(9);
    assert_eq!(
        check_bundle(&golden(), &vec![other]),
        Err(BundleError::NotFromGoldenCheckpoint(Task::Balanced))
    );
    let mut other = workload();
    other.task = Task::SustainedIngest;
    assert_eq!(
        check_bundle(&golden(), &vec![other]),
        Err(BundleError::NotEmptyAtStart)
    );
    let mut other = workload();
    other.source.slate_version = text("a b");
    assert_eq!(
        check_bundle(&golden(), &vec![other]),
        Err(BundleError::InvalidVersion)
    );
    let mut other = workload();
    other.session = text("a b");
    assert_eq!(
        check_bundle(&golden(), &vec![other]),
        Err(BundleError::InvalidRunId)
    );
    let mut other = golden();
    other.configuration.scale = 0.5f64.to_bits();
    assert_eq!(
        check_bundle(&other, &vec![workload()]),
        Err(BundleError::GoldenScaleDiffers)
    );
}

#[test]
fn bundle_members_carry_their_series() {
    let check = |task: Task, golden: &str, digest: &str, side: &WorkloadSeries| {
        check_member(task, &workload(), golden, digest, side, &verdicts())
    };
    let digest = digest_of('b');
    assert_eq!(
        check(Task::Balanced, "golden", &digest, &series()),
        Ok(())
    );
    assert_eq!(
        check(Task::ReadHeavy, "golden", &digest, &series()),
        Err(BundleError::ResultOfOtherTask)
    );
    assert_eq!(
        check(Task::Balanced, "other", &digest, &series()),
        Err(BundleError::ResultOfOtherGolden)
    );
    assert_eq!(
        check(Task::Balanced, "golden", "x", &series()),
        Err(BundleError::SeriesDigestDiffers)
    );
    let mut side = series();
    side.rate_duration_ns.clear();
    assert_eq!(
        check(Task::Balanced, "golden", &digest, &side),
        Err(BundleError::SeriesInvalid(SidecarFault::WindowsDiffer))
    );
    let mut unsure = verdicts();
    unsure.operations = Named::new();
    assert_eq!(
        check_member(
            Task::Balanced,
            &workload(),
            "golden",
            &digest,
            &series(),
            &unsure
        ),
        Err(BundleError::ResultInvalid(Fault::AverageDiffers))
    );
}

#[test]
fn assembled_manifests_list_every_file() {
    let manifest = run_manifest();
    assert_eq!(manifest.run_id, "session");
    assert_eq!(manifest.golden_id, "golden");
    assert_eq!(manifest.golden_runner_commit, "runner");
    assert_eq!(manifest.max_parallel, 1);
    assert_eq!(manifest.results.len(), 3);
    let listed = |name: &str| manifest.results.get(name).cloned();
    assert_eq!(listed("golden.json"), Some(digest_of('c')));
    assert_eq!(
        listed(&result_location(Task::Balanced)),
        Some(digest_of('d'))
    );
    assert_eq!(
        listed(&series_location(Task::Balanced)),
        Some(digest_of('e'))
    );
    assert_eq!(
        result_location(Task::Balanced),
        "workload/balanced/result.json"
    );
    assert_eq!(
        series_location(Task::Balanced),
        "workload/balanced/series.json"
    );
    assert_eq!(manifest.resolved_configuration.len(), 2);
    assert_eq!(validate_run_manifest(&manifest), Ok(()));
}

#[test]
fn run_manifests_are_checked_field_by_field() {
    let check = |manifest: &RunManifest| validate_run_manifest(manifest);
    assert_eq!(
        check_run_manifest(&run_manifest(), true, false),
        Err(ManifestFault::InvalidTimestamp)
    );
    let mut manifest = run_manifest();
    manifest.status = text("bad");
    assert_eq!(check(&manifest), Err(ManifestFault::StatusNotOk));
    let mut manifest = run_manifest();
    manifest.run_id = String::new();
    assert_eq!(check(&manifest), Err(ManifestFault::NoRunId));
    let mut manifest = run_manifest();
    manifest.golden_id = String::new();
    assert_eq!(check(&manifest), Err(ManifestFault::NoGoldenId));
    let mut manifest = run_manifest();
    manifest.started_at = text("now");
    assert_eq!(check(&manifest), Err(ManifestFault::InvalidTimestamp));
    let mut manifest = run_manifest();
    manifest.source.runner_version = String::new();
    assert_eq!(check(&manifest), Err(ManifestFault::MissingSourceField));
    let mut manifest = run_manifest();
    manifest.golden_runner_commit = String::new();
    assert_eq!(check(&manifest), Err(ManifestFault::NoGoldenRunnerCommit));
    let mut manifest = run_manifest();
    manifest.patches[0].sha256 = text("x");
    assert_eq!(check(&manifest), Err(ManifestFault::InvalidPatch));
    let mut manifest = run_manifest();
    manifest.resolved_configuration = Named::new();
    assert_eq!(check(&manifest), Err(ManifestFault::NoConfigurations));
    let mut manifest = run_manifest();
    manifest.max_parallel = 0;
    assert_eq!(check(&manifest), Err(ManifestFault::NoParallelism));
    let mut manifest = run_manifest();
    manifest.results = Named::new();
    assert_eq!(check(&manifest), Err(ManifestFault::NoResults));
    let mut manifest = run_manifest();
    manifest.results.put(text("../escape.json"), digest_of('a'));
    assert_eq!(check(&manifest), Err(ManifestFault::InvalidResultPath));
    let mut manifest = run_manifest();
    manifest.results.put(text("golden.json"), text("x"));
    assert_eq!(check(&manifest), Err(ManifestFault::InvalidResultDigest));
}

#[test]
fn publications_lie_where_their_manifest_says() {
    let check = |manifest: &RunManifest, run: &str, version: &str| {
        check_publication(manifest, run, version)
    };
    assert_eq!(check(&run_manifest(), "session", "0.14.1"), Ok(()));
    assert_eq!(
        check(&run_manifest(), "other", "0.14.1"),
        Err(PublishError::WrongRunDirectory)
    );
    assert_eq!(
        check(&run_manifest(), "session", "0.14.0"),
        Err(PublishError::WrongVersionDirectory)
    );
    let mut manifest = run_manifest();
    manifest.status = text("bad");
    assert_eq!(
        check(&manifest, "session", "0.14.1"),
        Err(PublishError::InvalidManifest(ManifestFault::StatusNotOk))
    );
    let mut manifest = run_manifest();
    manifest.source.slate_version = text("a b");
    assert_eq!(
        check(&manifest, "session", "a b"),
        Err(PublishError::InvalidVersion)
    );
    let mut manifest = run_manifest();
    manifest.run_id = text("a b");
    assert_eq!(
        check(&manifest, "a b", "0.14.1"),
        Err(PublishError::InvalidRunId)
    );
    let mut manifest = run_manifest();
    let small = ResultConfiguration::from_resolved(config_of(Task::Idle, 0.5));
    manifest.resolved_configuration.put(text("idle"), small);
    assert_eq!(
        check(&manifest, "session", "0.14.1"),
        Err(PublishError::Scaled)
    );
    assert_eq!(find_manifest(&vec![text("a/run.json")]), Ok(0));
    assert_eq!(
        find_manifest(&vec![text("a/run.json"), text("b/run.json")]),
        Err(PublishError::NotOneManifest)
    );
    assert_eq!(
        find_manifest(&vec![text("a/result.json")]),
        Err(PublishError::NotOneManifest)
    );
    assert!(publication_directory("0.14.1", "session").ends_with("0.14.1/session"));
    assert!(commit_message("0.14.1", "session").contains("0.14.1"));
}

#[test]
fn published_files_are_those_listed() {
    let listed = table(vec![
        ("golden.json", digest_of('a')),
        ("workload/balanced/result.json", digest_of('b')),
    ]);
    let same = table(vec![
        ("golden.json", digest_of('a')),
        ("workload/balanced/result.json", digest_of('b')),
    ]);
    let found = vec![
        text("run.json"),
        text("golden.json"),
        text("notes.txt"),
        text("workload/balanced/result.json"),
    ];
    assert_eq!(validate_bundle_files(&listed, &found, &same), Ok(()));
    assert_eq!(
        validate_bundle_files(&listed, &vec![text("golden.json")], &same),
        Err(PublishError::FilesDiffer)
    );
    let mut more = found;
    more.push(text("stray.json"));
    assert_eq!(
        validate_bundle_files(&listed, &more, &same),
        Err(PublishError::FilesDiffer)
    );
    more.pop();
    let other = table(vec![
        ("golden.json", digest_of('a')),
        ("workload/balanced/result.json", digest_of('c')),
    ]);
    assert_eq!(
        validate_bundle_files(&listed, &more, &other),
        Err(PublishError::DigestDiffers)
    );
}

#[test]
fn overtaken_publications_are_rebased_and_pushed_again() {
    let mut publication = Publication::start();
    assert_eq!(publication.step, GitStep::Add);
    assert_eq!(
        publication.advance(true),
        PublishAction::Run(GitStep::AskForChanges)
    );
    let mut unchanged = publication;
    assert_eq!(unchanged.advance(true), PublishAction::AlreadyPublished);

    let mut steps = Vec::new();
    let mut action = publication.advance(false);
    while let PublishAction::Run(step) = action {
        steps.push(step);
        action = publication.advance(step != GitStep::Push);
    }
    assert_eq!(action, PublishAction::Fail(PublishError::AlwaysOvertaken));
    assert_eq!(
        steps.iter().filter(|step| **step == GitStep::Push).count(),
        5
    );
    assert_eq!(
        steps[..3],
        [GitStep::SetName, GitStep::SetEmail, GitStep::Commit]
    );

    let mut broken = Publication::start();
    assert_eq!(
        broken.advance(false),
        PublishAction::Fail(PublishError::CommandFailed)
    );
}

fn measured() -> Measured {
    Measured {
        timestamp: text(STAMP),
        actions_log_url: None,
        recorded_interval_ns: 910,
        application: balanced_application(),
        object_store: store_metrics(),
        process: process(),
        machine: machine(),
    }
}

fn started(published: bool) -> (WorkloadRun, RunAction) {
    let mut environment = environment();
    if published {
        environment.runner_type = text("warp-ubuntu-latest-arm64-32x");
        environment.cpu_cores = 32;
        environment.region = text("auto");
    }
    WorkloadRun::start(
        args(Task::Balanced),
        config_of(Task::Balanced, 1.0),
        source(),
        environment,
        published,
    )
}

#[test]
fn workload_runs_start_from_a_verified_golden() {
    let (mut run, action) = started(true);
    assert_eq!(action, RunAction::LoadGolden);
    assert_eq!(
        run.golden_loaded(Some(compaction()), &verdicts()),
        RunAction::VerifyGolden
    );
    assert_eq!(run.golden_verified(Ok(())), RunAction::LoadExisting);
    assert_eq!(run.existing_loaded(None, &verdicts()), RunAction::Clear);
    assert_eq!(run.cleared(), RunAction::CloneAndOpen);
    assert_eq!(run.opened(Some(digest_of('a'))), RunAction::Execute);
    let times = ExecutionTimes {
        client_measurement_ns: 900,
        durability_drain_ns: 5,
    };
    assert_eq!(run.executed(Ok(times), true, true), RunAction::Store);
    let result = match run.result(measured(), &series(), b"series", &verdicts()) {
        Ok(result) => result,
        Err(error) => panic!("{error:?}"),
    };
    assert_eq!(result.initial_state.checkpoint_id.as_deref(), Some(FIRST));
    assert_eq!(result.client_measurement_ns, 900);
    assert_eq!(result.series.sha256, sha256_bytes(b"series"));
    assert_eq!(validate_workload_result(&result, &verdicts()), Ok(()));
}

#[test]
fn stored_workload_results_are_reused() {
    let mut stored = workload();
    stored.series.sha256 = sha256_bytes(b"series");
    let (mut run, _) = started(false);
    run.golden_loaded(Some(compaction()), &verdicts());
    run.golden_verified(Ok(()));
    assert_eq!(
        run.existing_loaded(Some(stored), &verdicts()),
        RunAction::LoadExistingSeries
    );
    assert_eq!(run.series_loaded(b"series", true), RunAction::Reuse);
}

#[test]
fn workload_runs_name_what_went_wrong() {
    let (mut run, _) = started(false);
    assert_eq!(
        run.golden_loaded(None, &verdicts()),
        RunAction::Fail(RunError::GoldenMissing)
    );
    let (mut run, _) = started(false);
    let mut broken = compaction();
    broken.status = text("bad");
    assert_eq!(
        run.golden_loaded(Some(broken), &verdicts()),
        RunAction::Fail(RunError::GoldenInvalid(Fault::StatusNotOk))
    );
    let (mut run, _) = started(false);
    let mut other = compaction();
    other.configuration.build_profile = text("debug");
    assert_eq!(
        run.golden_loaded(Some(other), &verdicts()),
        RunAction::Fail(RunError::GoldenDoesNotFit(SharedFault::BuildProfile))
    );
    let (mut run, _) = started(false);
    run.golden_loaded(Some(compaction()), &verdicts());
    assert_eq!(
        run.golden_verified(Err(CheckpointFault::Missing)),
        RunAction::Fail(RunError::GoldenCheckpoint(CheckpointFault::Missing))
    );

    let mut small = environment();
    small.runner_type = text("warp-ubuntu-latest-arm64-32x");
    small.cpu_cores = 8;
    let (mut run, _) = WorkloadRun::start(
        args(Task::Balanced),
        config_of(Task::Balanced, 1.0),
        source(),
        small,
        true,
    );
    run.golden_loaded(Some(compaction()), &verdicts());
    assert_eq!(
        run.golden_verified(Ok(())),
        RunAction::Fail(RunError::UnfitEnvironment(EnvironmentFault::CpuCount))
    );

    let (mut run, _) = started(false);
    run.golden_loaded(Some(compaction()), &verdicts());
    run.golden_verified(Ok(()));
    let mut foreign = workload();
    foreign.session = text("other");
    assert_eq!(
        run.existing_loaded(Some(foreign), &verdicts()),
        RunAction::Fail(RunError::ExistingBelongsElsewhere(Mismatch::Session))
    );

    let (mut run, _) = started(false);
    run.golden_loaded(Some(compaction()), &verdicts());
    run.golden_verified(Ok(()));
    run.existing_loaded(Some(workload()), &verdicts());
    assert_eq!(
        run.series_loaded(b"other", true),
        RunAction::Fail(RunError::ExistingSeries(SeriesFault::WrongDigest))
    );

    let opened = || {
        let (mut run, _) = started(false);
        run.golden_loaded(Some(compaction()), &verdicts());
        run.golden_verified(Ok(()));
        run.existing_loaded(None, &verdicts());
        run.cleared();
        run
    };
    let mut run = opened();
    assert_eq!(
        run.opened(Some(digest_of('b'))),
        RunAction::CloseThenFail(RunError::CloneDiffers)
    );
    let mut run = opened();
    run.opened(Some(digest_of('a')));
    assert_eq!(
        run.executed(Err(ExecutionError::FlushFailed), true, true),
        RunAction::Fail(RunError::Execution(ExecutionError::FlushFailed))
    );
    let times = ExecutionTimes {
        client_measurement_ns: 900,
        durability_drain_ns: 5,
    };
    let mut run = opened();
    run.opened(Some(digest_of('a')));
    assert_eq!(
        run.executed(Ok(times), false, true),
        RunAction::Fail(RunError::CloseFailed)
    );
    let mut run = opened();
    run.opened(Some(digest_of('a')));
    assert_eq!(
        run.executed(Ok(times), true, false),
        RunAction::Fail(RunError::CompactionFailed)
    );
    let mut run = opened();
    run.opened(Some(digest_of('a')));
    run.executed(Ok(times), true, true);
    let mut short = series();
    short.rate_elapsed_ns.pop();
    assert_eq!(
        run.result(measured(), &short, b"series", &verdicts()).err(),
        Some(RunError::SeriesInvalid(SidecarFault::WindowsDiffer))
    );
}

#[test]
fn scaled_runs_are_not_published() {
    let (mut run, _) = WorkloadRun::start(
        args(Task::Balanced),
        config_of(Task::Balanced, 0.5),
        source(),
        environment(),
        true,
    );
    let mut golden = compaction();
    golden.configuration = ResultConfiguration::from_resolved(config_of(Task::Compaction, 0.5));
    golden.dataset.record_count = 150_000_000;
    golden.dataset.logical_bytes = 63_000_000_000;
    assert_eq!(
        run.golden_loaded(Some(golden), &verdicts()),
        RunAction::VerifyGolden
    );
    assert_eq!(
        run.golden_verified(Ok(())),
        RunAction::Fail(RunError::ScaledPublication)
    );
}

fn preparing(task: Task) -> (PreparationRun, PreparationAction) {
    PreparationRun::start(args(task), config_of(task, 1.0), source(), environment())
}

fn uncompacted() -> Vec<LevelShape> {
    vec![LevelShape {
        l0: 3,
        sorted_runs: 0,
    }]
}

#[test]
fn bulk_loads_leave_an_uncompacted_checkpoint() {
    let (mut run, action) = preparing(Task::BulkLoad);
    assert_eq!(action, PreparationAction::LoadExisting);
    assert_eq!(
        run.existing_loaded(&None, &verdicts()),
        PreparationAction::Clear
    );
    assert_eq!(run.cleared(), PreparationAction::LoadDataset);
    assert_eq!(
        run.measured(true, true, 0),
        PreparationAction::MakeCheckpoint
    );
    assert_eq!(
        run.checkpointed(checkpoint(SECOND), &uncompacted()),
        PreparationAction::Store
    );
    let mut found = measured();
    found.application = bulk_load().application;
    let result = match run.result(found, &verdicts()) {
        Ok(result) => result,
        Err(error) => panic!("{error:?}"),
    };
    assert_eq!(result.dataset, dataset());
    assert_eq!(result.checkpoint.checkpoint_id, SECOND);
    assert_eq!(validate_preparation_result(&result, &verdicts()), Ok(()));
}

#[test]
fn compactions_start_from_the_bulk_load() {
    let (mut run, action) = preparing(Task::Compaction);
    assert_eq!(action, PreparationAction::LoadBulkLoad);
    assert_eq!(
        run.bulk_load_loaded(Some(bulk_load()), &verdicts()),
        PreparationAction::VerifyBulkLoad
    );
    assert_eq!(
        run.bulk_load_verified(Ok(()), &uncompacted()),
        PreparationAction::LoadExisting
    );
    assert_eq!(
        run.existing_loaded(&Some(compaction()), &verdicts()),
        PreparationAction::VerifyExisting
    );
    assert_eq!(
        run.existing_verified(Ok(()), &Vec::new()),
        PreparationAction::Reuse
    );
}

#[test]
fn preparations_name_what_went_wrong() {
    let (mut run, _) = preparing(Task::Compaction);
    assert_eq!(
        run.bulk_load_loaded(None, &verdicts()),
        PreparationAction::Fail(PreparationError::BulkLoadMissing)
    );
    let (mut run, _) = preparing(Task::Compaction);
    let mut other = bulk_load();
    other.source.slate_commit = text("other");
    assert_eq!(
        run.bulk_load_loaded(Some(other), &verdicts()),
        PreparationAction::Fail(PreparationError::BulkLoadFromOtherBuild)
    );
    let (mut run, _) = preparing(Task::Compaction);
    run.bulk_load_loaded(Some(bulk_load()), &verdicts());
    assert_eq!(
        run.bulk_load_verified(Err(CheckpointFault::Missing), &uncompacted()),
        PreparationAction::Fail(PreparationError::BulkLoadCheckpoint(
            CheckpointFault::Missing
        ))
    );
    let (mut run, _) = preparing(Task::BulkLoad);
    let mut other = bulk_load();
    other.golden_id = text("other");
    assert_eq!(
        run.existing_loaded(&Some(other), &verdicts()),
        PreparationAction::Fail(PreparationError::ExistingBelongsElsewhere(
            Mismatch::Golden
        ))
    );
    let measuring = || {
        let (mut run, _) = preparing(Task::BulkLoad);
        run.existing_loaded(&None, &verdicts());
        run.cleared();
        run
    };
    assert_eq!(
        measuring().measured(false, true, 0),
        PreparationAction::Fail(PreparationError::MeasurementFailed)
    );
    assert_eq!(
        measuring().measured(true, false, 0),
        PreparationAction::Fail(PreparationError::CloseFailed)
    );
    assert_eq!(
        measuring().measured(true, true, 2),
        PreparationAction::Fail(PreparationError::ApplicationErrors(2))
    );
    let mut run = measuring();
    run.measured(true, true, 0);
    assert_eq!(
        run.checkpointed(checkpoint(SECOND), &Vec::new()),
        PreparationAction::Fail(PreparationError::Checkpoint(CheckpointFault::NoL0Tables))
    );
}
