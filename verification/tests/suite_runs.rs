use slatedb_benchmark::histogram::HistogramSet;
use slatedb_benchmark::model::{Environment, SourceIdentity};
use slatedb_benchmark::named::Named;
use slatedb_benchmark::suite::checks::{
    check_invariants, judge_summary, read_summaries, validate_histogram_summary,
    validate_invariants, MetricFault, ResultFault, Subject, SummaryFault,
};
use slatedb_benchmark::suite::config::{
    ProbeConfig, ProfileConfig, ProfileExecution, SuiteConfig, VariantDefinition, WorkloadConfig,
    WorkloadKind,
};
use slatedb_benchmark::suite::encoding::{summarize, to_file, LatencySummary, Reading};
use slatedb_benchmark::suite::golden::GoldenDatabase;
use slatedb_benchmark::suite::isolated::{
    IsolatedAction, IsolatedEvent, IsolatedSuite, SuiteError,
};
use slatedb_benchmark::suite::records::{
    ApplicationPerformance, CostEstimate, DurabilityPerformance, InitialState, MetricHistogramValue,
    MetricSeries, MetricSeriesValue, MetricValueType, Number, ObjectStoreBaseline, ResourceUse,
    StoragePerformance, TimeseriesFile, TimeseriesSample,
};
use slatedb_benchmark::suite::results::{
    assemble_result, result_directory, write_variant_result, ResultFacts, VariantResult,
    WorkloadOutcome,
};
use slatedb_benchmark::suite::run::{assemble_run, RunFacts};
use slatedb_benchmark::suite::secrets::{
    check_listing, reject_secrets, Document, ListingFault, Member, Secret,
};
use slatedb_benchmark::suite::sequential::{SequentialAction, SequentialEvent, SequentialSuite};
use slatedb_benchmark::suite::session::{
    artifact_path, check_request, compatible_environment, configuration_digest,
    ensure_output_directory, next_step, resumed_from, sequential_start, stage_name,
    validate_session_name, validate_state, OutputState, SequentialStart, SessionFault,
    SessionRequest, SessionState, SessionStep,
};

fn text(value: &str) -> String {
    value.to_string()
}

fn environment() -> Environment {
    Environment {
        runner_type: text("runner"),
        hostname: text("one"),
        cpu_model: text("cpu"),
        cpu_cores: 16,
        ram_bytes: 64,
        local_disk: text("disk"),
        os: text("linux"),
        kernel: String::new(),
        object_store: text("Tigris"),
        endpoint: text("endpoint"),
        region: text("fra"),
    }
}

fn source() -> SourceIdentity {
    SourceIdentity::current("0.14.1", "slate", "0.1.0", "runner", "lock")
}

fn variant(name: &str) -> VariantDefinition {
    VariantDefinition {
        name: text(name),
        clients: Some(1),
        target_rate: None,
    }
}

fn workload(name: &str, kind: WorkloadKind, variants: Vec<VariantDefinition>) -> WorkloadConfig {
    WorkloadConfig {
        name: text(name),
        kind,
        variants,
        await_durable: false,
        record_count: None,
        key_bytes: None,
        value_bytes: None,
        warmup_ms: None,
        measurement_ms: None,
    }
}

fn profile(execution: ProfileExecution, workloads: Vec<WorkloadConfig>) -> ProfileConfig {
    ProfileConfig {
        name: text("rocksdb"),
        release: true,
        execution,
        object_store_probe: ProbeConfig {
            latency_operations: 1,
            latency_object_bytes: 1,
            throughput_object_bytes: 1,
            throughput_concurrency: 1,
            throughput_warmup_ms: 1,
            throughput_measurement_ms: 1,
        },
        compaction_quiet_ms: 1,
        compaction_timeout_ms: 1,
        record_count: 100,
        key_bytes: 16,
        value_bytes: 64,
        block_cache_bytes: None,
        metadata_cache_bytes: None,
        warmup_ms: 2,
        measurement_ms: 3,
        sst_block_bytes: None,
        workloads,
    }
}

fn sequential_profile() -> ProfileConfig {
    profile(
        ProfileExecution::Sequential,
        vec![
            workload("bulk-load", WorkloadKind::BulkLoad, vec![variant("clients-1")]),
            workload(
                "random-read",
                WorkloadKind::RandomRead,
                vec![variant("clients-1"), variant("clients-16")],
            ),
        ],
    )
}

fn baseline() -> ObjectStoreBaseline {
    ObjectStoreBaseline {
        measured_at: text("2026-01-02T03:04:05Z"),
        put_latency: LatencySummary::default(),
        get_latency: LatencySummary::default(),
        upload_mib_per_second: 0,
        download_mib_per_second: 0,
    }
}

fn session_state() -> SessionState {
    SessionState {
        session: text("session"),
        suite: text("rocksdb"),
        started_at: text("2026-01-02T03:04:05Z"),
        slate_version: text("0.14.1"),
        slate_commit: text("slate"),
        runner_commit: text("runner"),
        lockfile_sha256: text("lock"),
        configuration_sha256: text("digest"),
        environment: environment(),
        object_store_baseline: baseline(),
        baseline_histograms: Named::new(),
        completed: Vec::new(),
        sequential_databases: Vec::new(),
        goldens: Named::new(),
        measurement_complete: false,
    }
}

fn database(path: &str) -> GoldenDatabase {
    GoldenDatabase {
        path: text(path),
        checkpoint_id: text("id"),
        manifest_id: 1,
        lsm_digest: text("lsm"),
        size_bytes: 9,
    }
}

#[test]
fn resume_environment_ignores_hostname_but_not_machine_shape() {
    let left = environment();
    let mut right = environment();
    right.hostname = text("two");
    assert!(compatible_environment(&left, &right));
    right.cpu_cores = 8;
    assert!(!compatible_environment(&left, &right));
}

#[test]
fn sessions_resume_only_where_they_left_off() {
    let profile = sequential_profile();
    let check = |state: &SessionState| {
        validate_state(
            state,
            "session",
            &profile,
            &source(),
            "digest",
            &environment(),
        )
    };
    assert_eq!(check(&session_state()), Ok(()));
    let mut state = session_state();
    state.session = text("other");
    assert_eq!(check(&state), Err(SessionFault::OtherSession));
    let mut state = session_state();
    state.suite = text("other");
    assert_eq!(check(&state), Err(SessionFault::OtherSuite));
    let mut state = session_state();
    state.slate_commit = text("other");
    assert_eq!(check(&state), Err(SessionFault::OtherDatabaseBuild));
    let mut state = session_state();
    state.lockfile_sha256 = text("other");
    assert_eq!(check(&state), Err(SessionFault::OtherRunnerBuild));
    let mut state = session_state();
    state.configuration_sha256 = text("other");
    assert_eq!(check(&state), Err(SessionFault::OtherConfiguration));
    let mut state = session_state();
    state.environment.ram_bytes = 1;
    assert_eq!(check(&state), Err(SessionFault::OtherEnvironment));
    let mut state = session_state();
    state.measurement_complete = true;
    assert_eq!(check(&state), Err(SessionFault::WrongMarker));
    let mut state = session_state();
    state.keep_golden(text("key"), database("golden"));
    assert_eq!(check(&state), Err(SessionFault::GoldensInSequence));
    assert_eq!(state.golden("key").map(|golden| golden.size_bytes), Some(9));
    let mut state = session_state();
    state.complete(text("bulk-load"), vec![text("a")], None, 2);
    assert_eq!(check(&state), Err(SessionFault::CheckpointsMissing));
    let mut state = session_state();
    state.complete(text("random-read"), vec![text("a")], Some(database("a")), 2);
    assert_eq!(check(&state), Err(SessionFault::OtherResults));

    let mut state = session_state();
    state.complete(text("bulk-load"), vec![text("a")], Some(database("a")), 2);
    assert_eq!(check(&state), Ok(()));
    assert!(!state.measurement_complete);
    assert!(!state.needs_cleanup());
    state.complete(
        text("random-read"),
        vec![text("b"), text("c")],
        Some(database("b")),
        2,
    );
    assert_eq!(check(&state), Ok(()));
    assert!(state.measurement_complete);
    assert!(state.needs_cleanup());
    state.cleaned();
    assert!(!state.needs_cleanup());
    assert_eq!(check(&state), Ok(()));
    assert_eq!(state.results().expect("results"), ["a", "b", "c"]);
    assert_eq!(
        session_state().results(),
        Err(SessionFault::NothingCompleted)
    );
}

#[test]
fn sessions_run_workloads_in_their_order() {
    let profile = sequential_profile();
    let state = session_state();
    assert_eq!(next_step(&state, &profile, 0, None, 1), Ok(SessionStep::Run));
    assert_eq!(
        next_step(&state, &profile, 0, None, 0),
        Err(SessionFault::NotRequested)
    );
    assert_eq!(
        next_step(&state, &profile, 1, None, 2),
        Err(SessionFault::OtherWorkload)
    );
    assert_eq!(
        next_step(&state, &profile, 0, Some("random-read"), 1),
        Ok(SessionStep::Skip)
    );
    let mut state = session_state();
    state.complete(text("bulk-load"), vec![text("a")], Some(database("a")), 2);
    assert_eq!(
        next_step(&state, &profile, 0, None, 1),
        Ok(SessionStep::Restored)
    );
    assert_eq!(next_step(&state, &profile, 1, None, 2), Ok(SessionStep::Run));

    assert_eq!(
        sequential_start(WorkloadKind::BulkLoad, 1, 0),
        Ok(SequentialStart::Empty)
    );
    assert_eq!(
        sequential_start(WorkloadKind::RandomRead, 2, 1),
        Ok(SequentialStart::Clone(0))
    );
    assert_eq!(
        sequential_start(WorkloadKind::RandomRead, 2, 0),
        Err(SessionFault::NoCheckpoint)
    );
    assert_eq!(
        sequential_start(WorkloadKind::BulkLoad, 1, 1),
        Err(SessionFault::MisplacedLoad)
    );
    assert_eq!(
        resumed_from(0, "other", &database("a")),
        Err(SessionFault::StateDiffers)
    );
    assert!(resumed_from(0, "lsm", &database("a")).expect("head").is_some());
    assert_ne!(stage_name(0, "a"), stage_name(1, "a"));
    assert_ne!(
        configuration_digest(&vec![1], &vec![2]),
        configuration_digest(&vec![2], &vec![1])
    );
}

#[test]
fn requests_and_outputs_belong_to_one_session() {
    let request = || SessionRequest {
        session: Some(text("session")),
        suite: Some(text("rocksdb")),
        workload: Some(text("random-read")),
        variant: None,
        requested: vec![text("random-read")],
    };
    assert_eq!(check_request(&request()), Ok(()));
    let mut bad = request();
    bad.session = None;
    assert_eq!(check_request(&bad), Err(SessionFault::NoSession));
    let mut bad = request();
    bad.session = Some(text("../x"));
    assert_eq!(check_request(&bad), Err(SessionFault::InvalidName));
    let mut bad = request();
    bad.suite = None;
    assert_eq!(check_request(&bad), Err(SessionFault::NoSuite));
    let mut bad = request();
    bad.variant = Some(text("clients-1"));
    assert_eq!(check_request(&bad), Err(SessionFault::SingleVariant));
    let mut bad = request();
    bad.requested.push(text("bulk-load"));
    assert_eq!(check_request(&bad), Err(SessionFault::SeveralWorkloads));
    assert_eq!(validate_session_name("a b"), Err(SessionFault::InvalidName));

    let marker = ensure_output_directory(&OutputState::Empty, "session", "rocksdb")
        .expect("empty")
        .expect("marker");
    assert_eq!(
        ensure_output_directory(&OutputState::Marked(marker), "session", "rocksdb"),
        Ok(None)
    );
    assert_eq!(
        ensure_output_directory(&OutputState::Marked(text("x")), "session", "rocksdb"),
        Err(SessionFault::OtherOutput)
    );
    assert_eq!(
        ensure_output_directory(&OutputState::Occupied, "session", "rocksdb"),
        Err(SessionFault::OutputNotEmpty)
    );
    assert_eq!(
        artifact_path("results/a/result.json", "histograms.json").expect("path"),
        ["results", "a", "histograms.json"]
    );
    assert_eq!(
        artifact_path("../result.json", "x"),
        Err(SessionFault::NotRelative)
    );
    assert_eq!(artifact_path("", "x"), Err(SessionFault::NoParent));
}

#[test]
fn isolated_variants_run_on_faithful_clones() {
    let mut suite = match IsolatedSuite::start(1, false) {
        Ok(suite) => suite,
        Err(error) => panic!("{error:?}"),
    };
    let golden = || IsolatedEvent::Golden {
        lsm_digest: text("lsm"),
        size_bytes: 100,
    };
    let mut actions = vec![suite.action()];
    for event in [
        golden(),
        IsolatedEvent::Cloned,
        IsolatedEvent::Opened {
            lsm_digest: text("lsm"),
        },
        IsolatedEvent::Ran,
        IsolatedEvent::Measured { clone_bytes: 11 },
        IsolatedEvent::Written {
            path: text("result.json"),
        },
        IsolatedEvent::Removed,
    ] {
        suite.advance(event);
        actions.push(suite.action());
    }
    assert_eq!(
        actions,
        [
            IsolatedAction::Prepare(0),
            IsolatedAction::Clone(0),
            IsolatedAction::Open(0),
            IsolatedAction::Run {
                variant: 0,
                fresh_process: true,
                shared_bytes: 100
            },
            IsolatedAction::Measure(0),
            IsolatedAction::Write {
                variant: 0,
                database_bytes: 111,
                initial_bytes: 100
            },
            IsolatedAction::Remove(0),
            IsolatedAction::CleanUp,
        ]
    );
    assert_eq!(suite.finish(true, true), Ok(vec![text("result.json")]));

    let failing = |events: Vec<IsolatedEvent>, goldens: bool, root: bool| {
        let mut suite = match IsolatedSuite::start(1, true) {
            Ok(suite) => suite,
            Err(error) => panic!("{error:?}"),
        };
        for event in events {
            suite.advance(event);
        }
        assert_eq!(suite.action(), IsolatedAction::CleanUp);
        suite.finish(goldens, root)
    };
    assert_eq!(
        IsolatedSuite::start(0, true).err(),
        Some(SuiteError::EmptySelection)
    );
    assert_eq!(
        failing(vec![IsolatedEvent::Failed], true, true),
        Err(SuiteError::Failed)
    );
    assert_eq!(
        failing(vec![IsolatedEvent::Ran], true, true),
        Err(SuiteError::OutOfOrder)
    );
    assert_eq!(
        failing(
            vec![
                golden(),
                IsolatedEvent::Cloned,
                IsolatedEvent::Opened {
                    lsm_digest: text("other")
                }
            ],
            true,
            true
        ),
        Err(SuiteError::CloneDiffers)
    );
    let done = || {
        vec![
            golden(),
            IsolatedEvent::Cloned,
            IsolatedEvent::Opened {
                lsm_digest: text("lsm"),
            },
            IsolatedEvent::Ran,
            IsolatedEvent::Measured { clone_bytes: 1 },
            IsolatedEvent::Written { path: text("r") },
            IsolatedEvent::Removed,
        ]
    };
    assert_eq!(
        failing(done(), false, true),
        Err(SuiteError::GoldenCleanup)
    );
    assert_eq!(failing(done(), true, false), Err(SuiteError::RootCleanup));
}

#[test]
fn sequential_variants_follow_the_load() {
    let mut suite = match SequentialSuite::start(vec![true, false], true) {
        Ok(suite) => suite,
        Err(error) => panic!("{error:?}"),
    };
    let mut actions = Vec::new();
    while suite.action() != SequentialAction::Finish {
        let action = suite.action();
        actions.push(action);
        let event = match action {
            SequentialAction::MeasureLoaded => SequentialEvent::Measured { bytes: 40 },
            SequentialAction::MeasureBefore(_) => SequentialEvent::Measured { bytes: 41 },
            SequentialAction::MeasureAfter(_) => SequentialEvent::Measured { bytes: 42 },
            SequentialAction::ReadState(_) => SequentialEvent::State {
                lsm_digest: text("lsm"),
            },
            SequentialAction::Open(_) => SequentialEvent::State {
                lsm_digest: text("lsm"),
            },
            SequentialAction::WriteLoad { .. } => SequentialEvent::Written { path: text("load") },
            SequentialAction::Write { .. } => SequentialEvent::Written { path: text("read") },
            _ => SequentialEvent::Done,
        };
        suite.advance(event);
    }
    assert_eq!(actions[0], SequentialAction::OpenLoader);
    assert_eq!(actions[1], SequentialAction::Load { measured: true });
    assert!(actions.contains(&SequentialAction::Compact));
    assert!(actions.contains(&SequentialAction::WriteLoad { database_bytes: 40 }));
    assert!(actions.contains(&SequentialAction::Run {
        variant: 1,
        fresh_process: true
    }));
    assert!(actions.contains(&SequentialAction::Write {
        variant: 1,
        database_bytes: 42,
        initial_bytes: 41
    }));
    assert_eq!(suite.finish(), Ok(vec![text("load"), text("read")]));

    assert_eq!(
        SequentialSuite::start(Vec::new(), true).err(),
        Some(SuiteError::EmptySelection)
    );
    let mut suite = match SequentialSuite::start(vec![false], false) {
        Ok(suite) => suite,
        Err(error) => panic!("{error:?}"),
    };
    suite.advance(SequentialEvent::Done);
    assert_eq!(suite.action(), SequentialAction::Load { measured: false });
    suite.advance(SequentialEvent::Failed);
    assert_eq!(suite.action(), SequentialAction::Finish);
    assert_eq!(suite.finish(), Err(SuiteError::Failed));
}

#[test]
fn secrets_are_found_at_any_depth() {
    let member = |name: &str, value: Document| Member {
        name: text(name),
        value,
    };
    let clean = Document::Object(vec![
        member("endpoint", Document::Text(text("https://s3.example"))),
        member("values", Document::Array(vec![Document::Plain])),
    ]);
    assert_eq!(reject_secrets(&clean), Ok(()));
    let field = Document::Array(vec![
        Document::Plain,
        Document::Object(vec![member("AWS_Access_Key_Id", Document::Plain)]),
    ]);
    assert_eq!(reject_secrets(&field), Err(Secret::Field));
    let value = Document::Object(vec![member(
        "url",
        Document::Text(text("https://s3.example/?X-Amz-Signature=ab")),
    )]);
    assert_eq!(reject_secrets(&value), Err(Secret::Value));
}

#[test]
fn listings_match_the_results_that_are_there() {
    let listed = vec![text("a"), text("b")];
    assert_eq!(check_listing(&listed, 2, &vec![true, true]), Ok(()));
    assert_eq!(
        check_listing(&listed, 3, &vec![true, true]),
        Err(ListingFault::Count)
    );
    assert_eq!(
        check_listing(&listed, 2, &vec![true, false]),
        Err(ListingFault::Missing(1))
    );
    assert_eq!(
        check_listing(&vec![text("a"), text("a")], 2, &vec![true, true]),
        Err(ListingFault::Duplicate)
    );
}

fn observations() -> HistogramSet {
    let mut set = HistogramSet::new();
    set.record("return", 2_000);
    set.record("return", 4_000);
    set.record("return/read", 2_000);
    set.record("return/read", 4_000);
    set
}

fn store_observations() -> HistogramSet {
    let mut set = HistogramSet::new();
    set.record("object_store/put", 5_000);
    set.record("object_store/get", 6_000);
    set
}

fn summary(set: &HistogramSet, name: &str) -> LatencySummary {
    summarize(set.get(name).expect("histogram"))
}

fn sample(offset_ns: u64) -> TimeseriesSample {
    TimeseriesSample {
        offset_ns,
        operations: 0,
        errors: 0,
        cpu_percent: 0,
        rss_bytes: 0,
        network_bytes_sent: 0,
        network_bytes_received: 0,
        disk_bytes_read: 0,
        disk_bytes_written: 0,
        disk_read_operations: 0,
        disk_write_operations: 0,
        database_size_bytes: 0,
        object_store_requests: Named::new(),
        object_store_bytes_read: 0,
        object_store_bytes_written: 0,
    }
}

fn metric(value_type: MetricValueType, value: MetricSeriesValue) -> MetricSeries {
    MetricSeries {
        name: text("metric"),
        description: String::new(),
        labels: Named::new(),
        value_type,
        boundaries: None,
        values: vec![None, Some(value)],
    }
}

fn outcome() -> WorkloadOutcome {
    let set = observations();
    let mut by_operation = Named::new();
    by_operation.put(text("read"), summary(&set, "return/read"));
    WorkloadOutcome {
        application: ApplicationPerformance {
            total_operations: 2,
            successful_operations: 2,
            accepted_ops_per_second: 0,
            completed_ops_per_second: 0,
            offered_ops_per_second: None,
            dropped_operations: None,
            dropped_ops_per_second: None,
            payload_mib_per_second: 0,
            errors: 0,
            return_latency: summary(&set, "return"),
            return_latency_by_operation: by_operation,
            response_latency: None,
            scheduling_delay: None,
            batch_latency: None,
            key_throughput_per_second: None,
            transaction_commits: None,
            transaction_aborts: None,
            transaction_conflicts: None,
            transaction_commit_rate: None,
            transaction_abort_rate: None,
            transaction_conflict_rate: None,
        },
        durability: DurabilityPerformance {
            lag: None,
            final_flush_drain_ns: None,
            durable_ops_per_second: None,
            last_measured_sequence: None,
            final_durable_sequence: None,
        },
        resources: ResourceUse {
            average_cpu_percent: 0,
            peak_cpu_percent: 0,
            peak_rss_bytes: 0,
            network_bytes_sent: 0,
            network_bytes_received: 0,
            disk_bytes_read: 0,
            disk_bytes_written: 0,
            disk_read_operations: 0,
            disk_write_operations: 0,
        },
        storage: StoragePerformance {
            database_size_bytes: 0,
            object_store_requests: Named::new(),
            object_store_errors: 0,
            bytes_read: 0,
            bytes_written: 0,
            compaction_throughput_bytes_per_second: None,
            write_amplification: None,
            backpressure_ns: 0,
            compaction_backlog_bytes: None,
            five_minute_windows: Vec::new(),
        },
        histograms: to_file(&set).expect("file"),
        timeseries: TimeseriesFile {
            schema_version: 1,
            interval_ns: 1_000_000_000,
            samples: vec![sample(0), sample(3_000_000)],
            slatedb_metrics: vec![metric(
                MetricValueType::Counter,
                MetricSeriesValue::Scalar(Number::Whole(3)),
            )],
        },
        elapsed_ns: 3_000_000,
    }
}

fn facts() -> ResultFacts {
    let set = store_observations();
    let mut measured = baseline();
    measured.put_latency = summary(&set, "object_store/put");
    measured.get_latency = summary(&set, "object_store/get");
    ResultFacts {
        source: source(),
        timestamp: text("2026-01-02T03:04:05Z"),
        environment: environment(),
        baseline: measured,
        baseline_histograms: to_file(&set).expect("file").histograms,
        cost: CostEstimate {
            price_table_revision: text("1"),
            currency: text("USD"),
            compute: 0,
            requests: 0,
            storage: 0,
            transfer: 0,
            total: 0,
            compute_per_million_operations: None,
            requests_per_million_operations: None,
            storage_per_million_operations: None,
            transfer_per_million_operations: None,
            total_per_million_operations: None,
        },
        initial_state: InitialState {
            checkpoint_id: None,
            manifest_id: None,
            lsm_digest_sha256: "a".repeat(64),
        },
        slate_settings: text("{}"),
        default_metadata_cache: 77,
        debug_build: false,
    }
}

fn written(
    outcome: WorkloadOutcome,
    facts: ResultFacts,
    rate_met: bool,
) -> Result<VariantResult, ResultFault> {
    let suite = SuiteConfig {
        schema_version: 1,
        profiles: vec![sequential_profile()],
    };
    let selected = suite
        .select(None, Some("random-read"), Some("clients-16"))
        .expect("variant");
    write_variant_result(&selected[0], outcome, facts, rate_met)
}

fn fault_of(change: impl FnOnce(&mut WorkloadOutcome, &mut ResultFacts)) -> Option<ResultFault> {
    let mut changed = outcome();
    let mut known = facts();
    change(&mut changed, &mut known);
    written(changed, known, true).err()
}

#[test]
fn results_hold_together() {
    let result = match written(outcome(), facts(), true) {
        Ok(result) => result,
        Err(fault) => panic!("{fault:?}"),
    };
    assert_eq!(
        result.directory,
        result_directory("0.14.1", "rocksdb", "random-read", "clients-16")
    );
    assert_eq!(
        result.directory,
        "results/0.14.1/rocksdb/random-read/clients-16"
    );
    assert_eq!(result.result.identity.mode, "published");
    assert_eq!(result.result.configuration.warmup_ns, 2_000_000);
    assert_eq!(result.result.configuration.metadata_cache_bytes, Some(77));
    assert_eq!(result.result.configuration.build_profile, "release");
    assert_eq!(result.histograms.histograms.len(), 4);
    assert_eq!(
        validate_invariants(&result.result, &result.histograms, &result.timeseries, true),
        Ok(())
    );
    let readings = read_summaries(&result.histograms, &result.result.application);
    assert_eq!(
        check_invariants(
            &result.result,
            &result.histograms,
            &result.timeseries,
            &readings,
            true
        ),
        Ok(())
    );
}

#[test]
fn every_fault_of_a_result_is_named() {
    assert_eq!(fault_of(|_, _| {}), None);
    assert_eq!(
        fault_of(|outcome, _| outcome.application.total_operations = 3),
        Some(ResultFault::ReturnCount)
    );
    assert_eq!(
        fault_of(|outcome, _| outcome.application.return_latency.count = 1),
        Some(ResultFault::ReturnSummaryCount)
    );
    assert_eq!(
        fault_of(|outcome, _| outcome.application.return_latency.max_ns = 1),
        Some(ResultFault::Summary(
            Subject::Returns,
            SummaryFault::Mismatch
        ))
    );
    assert_eq!(
        fault_of(|_, facts| {
            facts.baseline_histograms.remove("object_store/put");
        }),
        Some(ResultFault::Summary(
            Subject::ObjectStorePut,
            SummaryFault::Missing
        ))
    );
    assert_eq!(
        fault_of(|_, facts| facts.baseline.get_latency.count = 9),
        Some(ResultFault::Summary(
            Subject::ObjectStoreGet,
            SummaryFault::Mismatch
        ))
    );
    assert_eq!(
        fault_of(|outcome, _| {
            outcome.histograms.histograms.remove("return/read");
        }),
        Some(ResultFault::Summary(
            Subject::Operation,
            SummaryFault::Missing
        ))
    );
    for (subject, set) in [
        (Subject::Response, 0),
        (Subject::SchedulingDelay, 1),
        (Subject::Batch, 2),
        (Subject::DurabilityLag, 3),
    ] {
        let fault = fault_of(|outcome, _| {
            let some = Some(LatencySummary::default());
            match set {
                0 => outcome.application.response_latency = some,
                1 => outcome.application.scheduling_delay = some,
                2 => outcome.application.batch_latency = some,
                _ => outcome.durability.lag = some,
            }
        });
        assert_eq!(
            fault,
            Some(ResultFault::Summary(subject, SummaryFault::Missing))
        );
    }
    assert_eq!(
        fault_of(|outcome, _| outcome.application.errors = 1),
        Some(ResultFault::OperationErrors)
    );
    assert_eq!(
        fault_of(|outcome, _| outcome.durability.last_measured_sequence = Some(4)),
        Some(ResultFault::NoDurableSequence)
    );
    assert_eq!(
        fault_of(|outcome, _| {
            outcome.durability.last_measured_sequence = Some(4);
            outcome.durability.final_durable_sequence = Some(3);
        }),
        Some(ResultFault::WritesNotDurable)
    );
    assert_eq!(
        fault_of(|outcome, _| outcome.timeseries.samples.truncate(1)),
        Some(ResultFault::TooFewSamples)
    );
    assert_eq!(
        fault_of(|outcome, _| outcome.timeseries.samples[1].offset_ns = 1),
        Some(ResultFault::SamplesEndEarly)
    );
    assert_eq!(
        fault_of(|_, facts| facts.initial_state.lsm_digest_sha256 = String::new()),
        Some(ResultFault::NoDigest)
    );
    assert_eq!(
        fault_of(|_, facts| facts.initial_state.lsm_digest_sha256 = text("x")),
        Some(ResultFault::InvalidDigest)
    );
}

#[test]
fn every_fault_of_a_metric_is_named() {
    let with = |change: fn(&mut Vec<MetricSeries>)| {
        fault_of(|outcome, _| change(&mut outcome.timeseries.slatedb_metrics))
    };
    let metric_fault = |fault: MetricFault| Some(ResultFault::Metric(fault));
    assert_eq!(
        with(|metrics| {
            let copy = metric(
                MetricValueType::Counter,
                MetricSeriesValue::Scalar(Number::Whole(3)),
            );
            metrics.push(copy);
        }),
        metric_fault(MetricFault::Duplicate)
    );
    assert_eq!(
        with(|metrics| {
            metrics[0].values.pop();
        }),
        metric_fault(MetricFault::ValueCount)
    );
    assert_eq!(
        with(|metrics| metrics[0].value_type = MetricValueType::Histogram),
        metric_fault(MetricFault::NoBoundaries)
    );
    assert_eq!(
        with(|metrics| {
            metrics[0].value_type = MetricValueType::Histogram;
            metrics[0].boundaries = Some(vec![1]);
        }),
        metric_fault(MetricFault::ScalarInHistogram)
    );
    assert_eq!(
        with(|metrics| metrics[0].boundaries = Some(vec![1])),
        metric_fault(MetricFault::Boundaries)
    );
    let buckets = || {
        MetricSeriesValue::Histogram(MetricHistogramValue {
            count: 0,
            sum: 0,
            min: 0,
            max: 0,
            bucket_counts: vec![0],
        })
    };
    assert_eq!(
        fault_of(|outcome, _| {
            let metric = &mut outcome.timeseries.slatedb_metrics[0];
            metric.values[1] = Some(buckets());
        }),
        metric_fault(MetricFault::HistogramInScalar)
    );
    assert_eq!(
        fault_of(|outcome, _| {
            let metric = &mut outcome.timeseries.slatedb_metrics[0];
            metric.value_type = MetricValueType::Histogram;
            metric.boundaries = Some(vec![1]);
            metric.values[1] = Some(buckets());
        }),
        metric_fault(MetricFault::BucketCount)
    );
    assert_eq!(
        with(|metrics| {
            metrics[0].values[1] = Some(MetricSeriesValue::Scalar(Number::Negative(-1)));
        }),
        metric_fault(MetricFault::NegativeCounter)
    );
    assert_eq!(
        with(|metrics| {
            metrics[0].value_type = MetricValueType::Gauge;
            metrics[0].values[1] = Some(MetricSeriesValue::Scalar(Number::Fraction(1)));
        }),
        metric_fault(MetricFault::NotWhole)
    );
}

#[test]
fn paced_results_meet_their_rate() {
    let paced = |rate_met: bool, delay_ns: u64| {
        let suite = SuiteConfig {
            schema_version: 1,
            profiles: vec![profile(
                ProfileExecution::Isolated,
                vec![workload(
                    "open-loop-read",
                    WorkloadKind::OpenLoopRead,
                    vec![VariantDefinition {
                        name: text("rate-100"),
                        clients: None,
                        target_rate: Some(100),
                    }],
                )],
            )],
        };
        let mut set = observations();
        for _ in 0..2 {
            set.record("response", 3_000);
            set.record("scheduling_delay", delay_ns);
        }
        let mut changed = outcome();
        changed.application.offered_ops_per_second = Some(1.0f64.to_bits());
        changed.application.response_latency = Some(summary(&set, "response"));
        changed.application.scheduling_delay = Some(summary(&set, "scheduling_delay"));
        changed.histograms = to_file(&set).expect("file");
        let selected = suite.select(None, None, None).expect("variant");
        write_variant_result(&selected[0], changed, facts(), rate_met).err()
    };
    assert_eq!(paced(true, 1_000), None);
    assert_eq!(paced(false, 1_000), Some(ResultFault::OfferedTooLittle));
    assert_eq!(
        paced(true, 5_000_000_000),
        Some(ResultFault::SchedulingDelayed)
    );
}

#[test]
fn summaries_are_judged_by_what_was_found() {
    let some = LatencySummary::default();
    assert_eq!(judge_summary(Reading::Summary(some), some), None);
    assert_eq!(
        judge_summary(Reading::Missing, some),
        Some(SummaryFault::Missing)
    );
    assert_eq!(
        judge_summary(Reading::NotBase64, some),
        Some(SummaryFault::NotBase64)
    );
    assert_eq!(
        judge_summary(Reading::NotHistogram, some),
        Some(SummaryFault::NotHistogram)
    );
    assert_eq!(
        judge_summary(Reading::Uncountable, some),
        Some(SummaryFault::Uncountable)
    );
    let set = observations();
    let file = to_file(&set).expect("file");
    assert_eq!(
        validate_histogram_summary(&file, "return", summary(&set, "return")),
        Ok(())
    );
    assert_eq!(
        validate_histogram_summary(&file, "response", some),
        Err(SummaryFault::Missing)
    );
}

#[test]
fn runs_list_what_was_measured() {
    let suite = SuiteConfig {
        schema_version: 1,
        profiles: vec![sequential_profile()],
    };
    let selected = suite.select(None, None, None).expect("variants");
    let result = assemble_result(&selected[1], outcome(), facts());
    assert_eq!(result.result.identity.variant, "clients-1");
    let manifest = assemble_run(RunFacts {
        started_at: text("a"),
        finished_at: text("b"),
        mode: text("published"),
        source: source(),
        resolved_configuration: text("{}"),
        object_store_baselines: Named::new(),
        results: vec![text("results/x/result.json")],
    });
    assert_eq!(manifest.schema_version, 1);
    assert_eq!(manifest.slate_commit, "slate");
    assert_eq!(manifest.results, ["results/x/result.json"]);
}
