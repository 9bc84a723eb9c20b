use rand::rngs::StdRng;
use rand::SeedableRng;
use slatedb::config::Settings;
use slatedb_benchmark::runner::preparation::bulk_load_config;
use slatedb_benchmark::suite::bulk::{bulk_id, choose_order, order_from};
use slatedb_benchmark::suite::config::{ProbeConfig, WorkloadKind};
use slatedb_benchmark::suite::durability::{DurabilityTracker, WindowedDurability};
use slatedb_benchmark::suite::golden::{bulk_load_settings, CompactionWait, LoadSettings};
use slatedb_benchmark::suite::open_loop::{
    open_request, open_update_permille, OpenReply, OpenRequest, OpenSetup, OpenTimes, OpenWorker, Schedule,
};
use slatedb_benchmark::suite::operations::{
    dataset_key, first_permille, ingest_key, is_conflict, judge_reply, operation_name,
    plan_operation, reader_kind, record_operation, record_writer_update, selector_for,
    writer_ops_per_second, Choices,
    Chooser, ClosedLoopState, Operation, OperationError, OperationOutcome, Plan, Reply,
    TransactionEnd, Unsupported,
};
use slatedb_benchmark::suite::probe::{
    after_cleanup, total_bytes, Probe, ProbeAction, ProbeEvent, ProbeFault, Transfer,
};
use slatedb_benchmark::suite::records::{MetricValue, TimeseriesSample};
use slatedb_benchmark::suite::requests::{
    InstrumentedStore, RequestClass, RequestClasses, StoreMetrics, Upload,
};
use slatedb_benchmark::suite::samples::{
    average_database_size, convert_metric, finite_or_zero, summarize_resources,
    ApplicationCounters, SizeAverage,
};
use slatedb_benchmark::suite::stats::WorkerStats;
use slatedb_benchmark::named::Named;
use slatedb_benchmark::workloads::closed::TransactionStep;
use slatedb_benchmark::workloads::durability::AcceptedWrite;
use slatedb_benchmark::workloads::util::{key_for_id, KeySelector, ValueGenerator};

const MILLI: u64 = 1_000_000;
const SECOND: u64 = 1_000_000_000;

fn sample(offset_ns: u64, database_size_bytes: u64) -> TimeseriesSample {
    TimeseriesSample {
        offset_ns,
        operations: 0,
        errors: 0,
        cpu_percent: 0,
        rss_bytes: 0,
        network_bytes_sent: 0,
        network_bytes_received: 0,
        disk_bytes_read: 0,
        disk_bytes_written: 0,
        disk_read_operations: 0,
        disk_write_operations: 0,
        database_size_bytes,
        object_store_requests: Named::new(),
        object_store_bytes_read: 0,
        object_store_bytes_written: 0,
    }
}

fn average_database_bytes(
    samples: &Vec<TimeseriesSample>,
    elapsed_ns: u64,
    initial_bytes: u64,
    final_bytes: u64,
) -> u64 {
    match average_database_size(samples, elapsed_ns, initial_bytes, final_bytes) {
        SizeAverage::Mean(bytes) => bytes,
        SizeAverage::Stretches(stretches) => {
            let area: f64 = stretches
                .iter()
                .map(|stretch| {
                    (stretch.from_bytes as f64 + stretch.to_bytes as f64) / 2.0
                        * stretch.duration_ns as f64
                })
                .sum();
            (area / elapsed_ns as f64).max(0.0) as u64
        }
    }
}

#[test]
fn database_size_uses_trapezoidal_time_integration() {
    let samples = vec![
        sample(0, 100),
        sample(1_000_000_000, 300),
        sample(2_000_000_000, 500),
    ];
    assert_eq!(average_database_bytes(&samples, 2_000_000_000, 0, 500), 300);
}

#[test]
fn sizes_without_a_measured_time_are_averaged() {
    assert_eq!(average_database_bytes(&Vec::new(), 0, 100, 300), 200);
    assert_eq!(average_database_bytes(&Vec::new(), SECOND, 100, 300), 200);
}

#[test]
fn bulk_load_settings_disable_durability_and_l0_backpressure() {
    let suite_settings = Settings::default();
    let given = LoadSettings {
        flush_interval_ms: suite_settings
            .flush_interval
            .map(|interval| interval.as_millis() as u64),
        wal_enabled: suite_settings.wal_enabled,
        compactor: suite_settings.compactor_options.is_some(),
        l0_max_ssts: suite_settings.l0_max_ssts as u64,
        l0_max_ssts_per_key: suite_settings.l0_max_ssts_per_key as u64,
    };
    let settings = bulk_load_settings(&given);

    assert!(!settings.wal_enabled);
    assert!(!settings.compactor);
    assert_eq!(settings.l0_max_ssts, u32::MAX as u64);
    assert_eq!(settings.l0_max_ssts_per_key, u32::MAX as u64);
    assert!(suite_settings.wal_enabled);
    assert!(suite_settings.compactor_options.is_some());
}

#[test]
fn a_dataset_load_keeps_its_log_and_turns_compaction_off() {
    let given = LoadSettings {
        flush_interval_ms: Some(250),
        wal_enabled: true,
        compactor: true,
        l0_max_ssts: 8,
        l0_max_ssts_per_key: 4,
    };
    let settings = bulk_load_config(&given);
    assert!(settings.wal_enabled);
    assert!(!settings.compactor);
    assert_eq!(settings.flush_interval_ms, Some(250));
    assert_eq!(settings.l0_max_ssts, u32::MAX as u64);
    assert_eq!(settings.l0_max_ssts_per_key, u32::MAX as u64);
}

#[test]
fn durability_windows_follow_coverage_time() {
    let started = 7 * SECOND;
    let mut collector = WindowedDurability::new(started);
    collector.record(started + 200 * MILLI, 80 * MILLI);
    assert_eq!(collector.pending_lags(), 1);
    collector.record(started + 1_200 * MILLI, 120 * MILLI);

    let (overall, windows) = collector.finish(started + 1_500 * MILLI);

    assert_eq!(overall.len(), 2);
    assert_eq!(windows.len(), 2);
    assert_eq!(windows[0].writes_made_durable, 1);
    assert_eq!(windows[1].writes_made_durable, 1);
    assert_eq!(windows[1].duration_ns, 500_000_000);
    assert_eq!(windows[0].start_offset_ns, 0);
    assert_eq!(windows[1].start_offset_ns, SECOND);
}

#[test]
fn trackers_follow_writes_until_they_are_durable() {
    let mut tracker = DurabilityTracker::start(0);
    let write = |sequence: u64, returned_at: u64| AcceptedWrite {
        sequence,
        returned_at,
    };
    tracker.accepted(write(4, 100 * MILLI));
    tracker.accepted(write(2, 50 * MILLI));
    assert_eq!(tracker.waiting(), 2);
    tracker.observe(3, 300 * MILLI);
    assert_eq!(tracker.waiting(), 1);
    tracker.close();
    assert!(!tracker.is_done());
    tracker.observe(4, 400 * MILLI);
    assert!(tracker.is_done());
    let followed = tracker.finish(4, 400 * MILLI);
    assert_eq!(followed.lag.len(), 2);
    assert_eq!(followed.final_durable_sequence, 4);
    assert_eq!(followed.covered_at, 400 * MILLI);
    let durable: u64 = followed
        .windows
        .iter()
        .map(|window| window.writes_made_durable)
        .sum();
    assert_eq!(durable, 2);
}

#[test]
fn accumulates_backpressure_duration() {
    let mut left = WorkerStats::new();
    left.record_backpressure(7);
    left.record_backpressure(11);

    let mut right = WorkerStats::new();
    right.record_backpressure(13);
    left.merge(&right);

    assert_eq!(left.counts.backpressure_ns, 31);
}

#[test]
fn merged_statistics_do_not_depend_on_the_order() {
    let one = || {
        let mut stats = WorkerStats::new();
        stats.record_success("read", 1_000, 5);
        stats.record_write(9, 3);
        stats
    };
    let two = || {
        let mut stats = WorkerStats::new();
        stats.record_error("update", 2_000);
        stats.record_conflict(3_000);
        stats.record_write(4, 8);
        stats
    };
    let mut left = one();
    left.merge(&two());
    let mut right = two();
    right.merge(&one());
    assert_eq!(left.counts, right.counts);
    assert_eq!(left.counts.total, 3);
    assert_eq!(left.counts.successful, 1);
    assert_eq!(left.counts.first_write_return, Some(4));
    assert_eq!(left.counts.last_write_sequence, Some(8));
    let totals = left.application(false);
    assert_eq!(totals.total_operations, 3);
    assert_eq!(totals.payload_bytes, 5);
    assert_eq!(totals.offered, None);
    let transactions = totals.transactions.expect("transactions");
    assert_eq!(transactions.conflicts, 1);
    assert_eq!(left.application(true).offered, Some(0));
}

#[test]
fn counts_head_separately_from_get() {
    let mut store = InstrumentedStore::new();
    store.metrics().put_finished("object", 5, true);
    store.metrics().get_finished(true, Some(0));

    let after_head = store.metrics().snapshot();
    assert_eq!(after_head.requests.get("head"), Some(&1));
    assert_eq!(after_head.requests.get("get"), Some(&0));
    assert_eq!(after_head.bytes_read, 0);

    store.metrics().get_finished(false, Some(5));

    let after_get = store.metrics().snapshot();
    assert_eq!(after_get.requests.get("head"), Some(&1));
    assert_eq!(after_get.requests.get("get"), Some(&1));
    assert_eq!(after_get.bytes_read, 5);
    let since = after_get.difference(&after_head);
    assert_eq!(since.requests.get("get"), Some(&1));
    assert_eq!(since.requests.get("head"), Some(&0));
    assert_eq!(since.bytes_read, 5);
}

#[test]
fn stores_know_the_bytes_of_their_objects() {
    let mut metrics = StoreMetrics::new();
    metrics.seed("db/old", 3);
    metrics.put_finished("db/a", 10, true);
    metrics.put_finished("db/b", 20, false);
    metrics.put_finished("dbx/c", 40, true);
    assert_eq!(metrics.prefix_bytes("db"), 13);
    metrics.copy_finished("db/a", "db/copy", true);
    assert_eq!(metrics.prefix_bytes("db"), 23);
    metrics.rename_finished("db/copy", "other/copy", true);
    assert_eq!(metrics.prefix_bytes("db"), 13);
    assert_eq!(metrics.prefix_bytes("other"), 10);
    metrics.delete_finished(Some("db/a"));
    assert_eq!(metrics.prefix_bytes("db"), 3);
    metrics.delete_finished(None);
    metrics.multipart_started(true);
    let mut upload = Upload::new("db/large");
    upload.put_part(&mut metrics, 30);
    upload.put_part(&mut metrics, 12);
    upload.complete(&mut metrics, true);
    assert_eq!(metrics.prefix_bytes("db"), 45);
    metrics.multipart_aborted(true);
    metrics.list_started();
    metrics.ranges_finished(2, None);
    metrics.result(false);
    let snapshot = metrics.snapshot();
    assert_eq!(snapshot.requests.get("create_multipart"), Some(&1));
    assert_eq!(snapshot.requests.get("complete_multipart"), Some(&1));
    assert_eq!(snapshot.requests.get("abort_multipart"), Some(&1));
    assert_eq!(snapshot.requests.get("list"), Some(&1));
    assert!(snapshot.errors >= 3);
}

#[test]
fn requests_are_priced_by_class() {
    let classes = RequestClasses {
        class_a: vec!["put".to_string()],
        class_b: vec!["get".to_string()],
        free: vec!["delete".to_string()],
    };
    assert_eq!(classes.class("put"), RequestClass::A);
    assert_eq!(classes.class("get"), RequestClass::B);
    assert_eq!(classes.class("delete"), RequestClass::Free);
    assert_eq!(classes.class("copy"), RequestClass::Unpriced);
}

#[test]
fn resources_grow_from_the_first_sample_to_the_last() {
    let mut first = sample(0, 0);
    first.rss_bytes = 9;
    first.network_bytes_sent = 5;
    first.disk_read_operations = 2;
    let mut second = sample(1, 0);
    second.rss_bytes = 4;
    second.network_bytes_sent = 7;
    second.disk_read_operations = 6;
    let totals = summarize_resources(&vec![first, second]);
    assert_eq!(totals.peak_rss_bytes, 9);
    assert_eq!(totals.network_bytes_sent, 2);
    assert_eq!(totals.disk_read_operations, 4);
    assert_eq!(finite_or_zero(f64::NAN.to_bits()), 0);
    assert_eq!(finite_or_zero(1.5f64.to_bits()), 1.5f64.to_bits());
    let metric = convert_metric(
        "name".to_string(),
        "text".to_string(),
        &vec![
            ("b".to_string(), "2".to_string()),
            ("a".to_string(), "1".to_string()),
        ],
        MetricValue::Counter(3),
    );
    assert_eq!(metric.labels.name_at(0), "a");
    assert_eq!(metric.labels.get("b").map(String::as_str), Some("2"));
}

#[test]
fn bulk_loads_visit_every_record_once() {
    let mut rng = StdRng::seed_from_u64(11);
    for count in [1u64, 2, 10, 97, 1_000] {
        let order = choose_order(count, &mut rng);
        let mut ids: Vec<u64> = (0..count)
            .map(|sequence| bulk_id(sequence, order.multiplier, order.offset, count))
            .collect();
        ids.sort();
        assert_eq!(ids, (0..count).collect::<Vec<u64>>());
    }
    assert_eq!(bulk_id(3, 7, 2, 10), 3);
}

#[test]
fn schedules_offer_every_period_before_the_deadline() {
    let mut schedule = Schedule::start(100, 50, 20);
    let start = schedule;
    assert_eq!(schedule.next_arrival(), Some(100));
    assert_eq!(schedule.take_arrival(99), None);
    let mut arrivals = Vec::new();
    while let Some(arrival) = schedule.take_arrival(1_000) {
        arrivals.push(arrival);
    }
    assert_eq!(arrivals, [100, 120, 140]);
    schedule.drop_arrival();
    assert_eq!(schedule.since(&start), (3, 1));
    let mut stats = WorkerStats::new();
    schedule.finish(&mut stats);
    assert_eq!(stats.counts.offered, 3);
    assert_eq!(stats.counts.dropped, 1);
}

#[test]
fn open_loop_workers_time_arrivals_not_calls() {
    let setup = OpenSetup {
        kind: WorkloadKind::OpenLoopReadUpdate,
        record_count: 10,
        key_bytes: 16,
        value_bytes: 32,
    };
    let mut worker = OpenWorker::new(setup, StdRng::seed_from_u64(5));
    let mut updates = 0;
    let mut last = vec![0; 32];
    for _ in 0..200 {
        match worker.next_request() {
            OpenRequest::Read { key } => assert_eq!(key.len(), 16),
            OpenRequest::Update { key, value } => {
                updates += 1;
                assert_eq!(key.len(), 16);
                assert_eq!(value.len(), 32);
                assert_ne!(value, last);
                last = value;
            }
        }
    }
    assert!(updates > 0);
    let times = OpenTimes {
        scheduled: 0,
        invoked: 10_000,
        returned_at: 15_000,
        completed: 16_000,
        backpressure_ns: 4,
    };
    let mut counters = ApplicationCounters::new();
    assert_eq!(
        worker.completed(&mut counters, OpenReply::Found(32), times),
        None
    );
    let write = worker.completed(&mut counters, OpenReply::Stored(32, 9), times);
    assert_eq!(
        write,
        Some(AcceptedWrite {
            sequence: 9,
            returned_at: 15_000
        })
    );
    worker.completed(&mut counters, OpenReply::Missing, times);
    assert_eq!((counters.operations, counters.errors), (3, 1));
    let stats = worker.into_stats();
    assert_eq!(stats.counts.backpressure_ns, 4);
    let totals = stats.application(true);
    assert_eq!(totals.response_latency.map(|summary| summary.max_ns), Some(16_000));
    assert_eq!(totals.scheduling_delay.map(|summary| summary.max_ns), Some(10_000));
    assert_eq!(totals.return_latency.max_ns, 5_000);
    counters.reset();
    assert_eq!(counters, ApplicationCounters::new());
}

fn choices(first: bool) -> Choices {
    Choices {
        first,
        id: 3,
        back: 4,
        length: 7,
        ids: vec![1, 2],
        steps: vec![
            TransactionStep { read: true, id: 1 },
            TransactionStep { read: false, id: 2 },
        ],
        prefix: 6,
        salt: 8,
    }
}

#[test]
fn workloads_plan_what_they_are_for() {
    let plan = |kind: WorkloadKind, first: bool| plan_operation(kind, 50, choices(first));
    assert!(matches!(plan(WorkloadKind::YcsbA, true), Ok(Plan::Read { id: 3 })));
    assert!(matches!(plan(WorkloadKind::YcsbA, false), Ok(Plan::Update { id: 3 })));
    assert!(matches!(plan(WorkloadKind::YcsbD, true), Ok(Plan::Read { id: 45 })));
    assert!(matches!(
        plan(WorkloadKind::YcsbD, false),
        Ok(Plan::InsertNext { id: 50 })
    ));
    assert!(matches!(
        plan(WorkloadKind::YcsbE, true),
        Ok(Plan::Scan { start_id: 3, limit: 7, reverse: false })
    ));
    assert!(matches!(
        plan(WorkloadKind::YcsbF, false),
        Ok(Plan::ReadModifyWrite { id: 3 })
    ));
    assert!(matches!(
        plan(WorkloadKind::ReverseRange, true),
        Ok(Plan::Scan { start_id: 3, limit: 10, reverse: true })
    ));
    assert!(matches!(
        plan(WorkloadKind::PrefixScan, true),
        Ok(Plan::PrefixScan { prefix: 6 })
    ));
    assert!(matches!(
        plan(WorkloadKind::BulkLoad, true),
        Err(Unsupported)
    ));
    assert_eq!(first_permille(WorkloadKind::YcsbB), Some(950));
    assert_eq!(first_permille(WorkloadKind::YcsbC), None);
    assert_eq!(
        selector_for(WorkloadKind::YcsbA, 9),
        KeySelector::ScrambledZipfian { record_count: 9 }
    );
    assert_eq!(
        selector_for(WorkloadKind::RandomRead, 9),
        KeySelector::Uniform { record_count: 9 }
    );
    assert_eq!(operation_name(WorkloadKind::Overwrite).name(), "update");
    assert_eq!(operation_name(WorkloadKind::YcsbA), Operation::Other);
    assert_eq!(
        reader_kind(WorkloadKind::ReadWhileWriting),
        Some(WorkloadKind::RandomRead)
    );
    assert_eq!(reader_kind(WorkloadKind::YcsbA), None);
    assert_eq!(writer_ops_per_second(100), 20_971);
    assert_eq!(writer_ops_per_second(10_000_000), 1);
}

#[test]
fn choosers_stay_in_their_domain() {
    let mut chooser = Chooser::new(WorkloadKind::MultiRandomRead, 20, StdRng::seed_from_u64(2));
    match chooser.next_operation(20) {
        Ok(Plan::BatchRead { ids }) => {
            assert_eq!(ids.len(), 10);
            assert!(ids.iter().all(|id| *id < 20));
        }
        _ => panic!("expected a batch"),
    }
    let mut generator = ValueGenerator::new();
    let mut chooser = Chooser::new(WorkloadKind::YcsbA, 20, StdRng::seed_from_u64(2));
    let mut rng = StdRng::seed_from_u64(2);
    let mut twin = ValueGenerator::new();
    for _ in 0..3 {
        assert_eq!(chooser.values(&mut generator, 12), twin.generate(12, &mut rng));
    }
    let mut state = ClosedLoopState::new(5);
    assert_eq!(state.reserve(), 5);
    assert_eq!(state.reserve(), 6);
    state.inserted(20);
    assert_eq!(state.reserve(), 21);
}

#[test]
fn replies_are_judged_by_their_plan() {
    let read = Plan::Read { id: 1 };
    let outcome = judge_reply(&read, 100, &Reply::Value(Some(64))).expect("value");
    assert_eq!(
        outcome,
        OperationOutcome {
            operation: Operation::Read,
            payload_bytes: 64,
            batch_keys: 0,
            sequence: None,
            transaction_commit: false
        }
    );
    assert_eq!(
        judge_reply(&read, 100, &Reply::Value(None)),
        Err(OperationError::Other)
    );
    let update = Plan::Update { id: 1 };
    let outcome = judge_reply(&update, 100, &Reply::Stored(7)).expect("stored");
    assert_eq!((outcome.payload_bytes, outcome.sequence), (100, Some(7)));
    assert_eq!(
        judge_reply(&update, 100, &Reply::Failed),
        Err(OperationError::Other)
    );
    let batch = Plan::BatchRead { ids: vec![1, 2] };
    let found = Reply::Values(vec![Some(5), Some(6)]);
    let outcome = judge_reply(&batch, 100, &found).expect("batch");
    assert_eq!((outcome.payload_bytes, outcome.batch_keys), (11, 10));
    let missing = Reply::Values(vec![Some(5), None]);
    assert_eq!(
        judge_reply(&batch, 100, &missing),
        Err(OperationError::Other)
    );
    let transaction = Plan::Transaction {
        steps: choices(true).steps,
    };
    let ended = |end: TransactionEnd| Reply::Ended {
        reads: vec![Some(9)],
        end,
    };
    let outcome = judge_reply(
        &transaction,
        100,
        &ended(TransactionEnd::Committed(Some(3))),
    )
    .expect("commit");
    assert!(outcome.transaction_commit);
    assert_eq!(outcome.sequence, Some(3));
    assert_eq!(
        judge_reply(&transaction, 100, &ended(TransactionEnd::Conflict)),
        Err(OperationError::TransactionConflict)
    );
    assert_eq!(
        judge_reply(&transaction, 100, &ended(TransactionEnd::Failed)),
        Err(OperationError::Other)
    );
    assert!(is_conflict("Transaction error: transaction conflict"));
    assert!(!is_conflict("closed"));
}

#[test]
fn operations_are_counted_as_they_end() {
    let mut stats = WorkerStats::new();
    let mut counters = ApplicationCounters::new();
    let kind = WorkloadKind::TransactionContention;
    let committed = OperationOutcome {
        operation: Operation::Transaction,
        payload_bytes: 50,
        batch_keys: 0,
        sequence: Some(4),
        transaction_commit: true,
    };
    let write = record_operation(&mut stats, &mut counters, kind, Ok(committed), 1_000, 77);
    assert_eq!(write.map(|accepted| accepted.returned_at), Some(77));
    let conflict = Err(OperationError::TransactionConflict);
    record_operation(&mut stats, &mut counters, kind, conflict, 2_000, 78);
    let failed = Err(OperationError::Other);
    record_operation(&mut stats, &mut counters, kind, failed, 3_000, 79);
    assert_eq!(stats.counts.transaction_commits, 1);
    assert_eq!(stats.counts.transaction_conflicts, 1);
    assert_eq!(stats.counts.total, 3);
    assert_eq!(stats.counts.errors, 1);
    assert_eq!(counters.errors, 1);
}

#[test]
fn prefix_keys_group_ten_records() {
    assert_eq!(dataset_key(12, 16, false), key_for_id(12, 16));
    let group = |id: u64| dataset_key(id, 24, true)[..8].to_vec();
    assert_eq!(group(10), group(19));
    assert_ne!(group(10), group(20));
    assert_ne!(dataset_key(10, 24, true), dataset_key(11, 24, true));
}

fn probe_config() -> ProbeConfig {
    ProbeConfig {
        latency_operations: 2,
        latency_object_bytes: 64,
        throughput_object_bytes: 128,
        throughput_concurrency: 2,
        throughput_warmup_ms: 1_000,
        throughput_measurement_ms: 2_000,
    }
}

#[test]
fn probes_measure_puts_gets_and_both_directions() {
    let mut probe = Probe::start(probe_config());
    let mut actions = vec![probe.action()];
    while probe.action() != ProbeAction::Finish {
        let event = match probe.action() {
            ProbeAction::Put(_) => ProbeEvent::Stored { latency_ns: 5_000 },
            ProbeAction::Get(_) => ProbeEvent::Fetched {
                size: 64,
                latency_ns: 7_000,
            },
            ProbeAction::Upload { .. } => ProbeEvent::Moved {
                bytes: 256,
                elapsed_ns: SECOND,
            },
            ProbeAction::PrepareDownloads => ProbeEvent::Prepared,
            ProbeAction::Download { .. } => ProbeEvent::Moved {
                bytes: 512,
                elapsed_ns: SECOND,
            },
            ProbeAction::Finish => break,
        };
        actions.push(probe.advance(event).expect("step"));
    }
    assert_eq!(
        actions,
        [
            ProbeAction::Put(0),
            ProbeAction::Put(1),
            ProbeAction::Get(0),
            ProbeAction::Get(1),
            ProbeAction::Upload { measured: false },
            ProbeAction::Upload { measured: true },
            ProbeAction::PrepareDownloads,
            ProbeAction::Download { measured: false },
            ProbeAction::Download { measured: true },
            ProbeAction::Finish,
        ]
    );
    let result = match probe.result() {
        Ok(result) => result,
        Err(error) => panic!("{error:?}"),
    };
    assert_eq!(result.put_latency.count, 2);
    assert_eq!(result.put_latency.max_ns, 5_000);
    assert_eq!(result.get_latency.max_ns, 7_000);
    assert_eq!(
        result.upload,
        Transfer {
            bytes: 256,
            elapsed_ns: SECOND
        }
    );
    assert_eq!(result.download.bytes, 512);
    assert_eq!(result.histograms.len(), 2);
}

#[test]
fn probes_refuse_wrong_objects_and_failures() {
    let mut probe = Probe::start(probe_config());
    assert_eq!(probe.advance(ProbeEvent::Prepared), Err(ProbeFault::OutOfOrder));
    let mut probe = Probe::start(probe_config());
    assert_eq!(probe.advance(ProbeEvent::Failed), Err(ProbeFault::Store));
    let mut probe = Probe::start(probe_config());
    for _ in 0..2 {
        probe
            .advance(ProbeEvent::Stored { latency_ns: 1 })
            .expect("put");
    }
    assert_eq!(
        probe.advance(ProbeEvent::Fetched {
            size: 63,
            latency_ns: 1
        }),
        Err(ProbeFault::ObjectSize)
    );
    assert_eq!(total_bytes(&vec![1, 2, u64::MAX]), u64::MAX);
    assert_eq!(total_bytes(&vec![1, 2]), 3);
    assert_eq!(after_cleanup::<u8, u8>(Ok(1), Ok(())), Ok(1));
    assert_eq!(after_cleanup::<u8, u8>(Ok(1), Err(2)), Err(2));
    assert_eq!(after_cleanup::<u8, u8>(Err(3), Err(2)), Err(3));
}

#[test]
fn compaction_waits_until_the_manifest_is_quiet() {
    let mut wait = CompactionWait::start(0, 7, 1_000, 100);
    assert!(!wait.observe(50, 7, false));
    assert!(!wait.observe(90, 8, false));
    assert!(!wait.observe(150, 8, false));
    assert!(!wait.observe(200, 8, true));
    assert!(wait.observe(201, 8, false));
    assert!(!wait.timed_out(999));
    assert!(wait.timed_out(1_001));
}

#[test]
fn ingested_keys_begin_with_their_salt_and_differ() {
    let key = ingest_key(7, 0x0102, 18);
    assert_eq!(&key[..8], &[0, 0, 0, 0, 0, 0, 1, 2]);
    assert_eq!(&key[8..16], &[0, 0, 0, 0, 0, 0, 0, 7]);
    assert_eq!(&key[16..], &key_for_id(7, 10)[8..]);
    assert_ne!(ingest_key(8, 0x0102, 18), key);
    assert_ne!(ingest_key(7, 0x0103, 18), key);
    assert_eq!(ingest_key(7, 0x0102, 15), key_for_id(7, 15));
}

#[test]
fn bulk_orders_take_the_next_coprime_stride() {
    let order = order_from(10, 4, 6);
    assert_eq!((order.count, order.multiplier, order.offset), (10, 7, 6));
    assert_eq!(order_from(10, 3, 0).multiplier, 3);
    assert_eq!(order_from(10, 10, 0).multiplier, 1);
    assert_eq!(order_from(1, 1, 0).multiplier, 1);
}

#[test]
fn open_requests_update_where_they_are_asked_to() {
    assert_eq!(
        open_update_permille(WorkloadKind::OpenLoopReadUpdate),
        Some(500)
    );
    assert_eq!(open_update_permille(WorkloadKind::OpenLoopRead), None);
    let setup = OpenSetup {
        kind: WorkloadKind::OpenLoopReadUpdate,
        record_count: 10,
        key_bytes: 16,
        value_bytes: 2,
    };
    match open_request(&setup, true, 3, vec![7, 8]) {
        OpenRequest::Update { key, value } => {
            assert_eq!(key, key_for_id(3, 16));
            assert_eq!(value, [7, 8]);
        }
        OpenRequest::Read { .. } => panic!("expected an update"),
    }
    match open_request(&setup, false, 4, Vec::new()) {
        OpenRequest::Read { key } => assert_eq!(key, key_for_id(4, 16)),
        OpenRequest::Update { .. } => panic!("expected a read"),
    }
}

#[test]
fn the_capped_writer_files_its_writes_under_its_own_name() {
    let mut stats = WorkerStats::new();
    let mut counters = ApplicationCounters::new();
    let write = record_writer_update(&mut stats, &mut counters, Some((400, 9)), 5_000, 70);
    assert_eq!(
        write,
        Some(AcceptedWrite {
            sequence: 9,
            returned_at: 70
        })
    );
    let failed = record_writer_update(&mut stats, &mut counters, None, 5_000, 80);
    assert_eq!(failed, None);
    assert_eq!(stats.counts.total, 2);
    assert_eq!(stats.counts.errors, 1);
    assert!(stats.histograms.get("return/writer-update").is_some());
    assert!(stats.histograms.get("return/operation").is_none());
}

#[test]
fn durability_windows_count_the_writes_of_their_second() {
    let mut collector = WindowedDurability::new(500);
    for at in [500, 999_999_999, 1_000_000_500, 3_200_000_000] {
        collector.record(at, 10_000);
    }
    let (overall, windows) = collector.finish(3_500_000_500);
    assert_eq!(overall.len(), 4);
    let counts: Vec<u64> = windows.iter().map(|w| w.writes_made_durable).collect();
    assert_eq!(counts, [2, 1, 0, 1]);
    let starts: Vec<u64> = windows.iter().map(|w| w.start_offset_ns).collect();
    assert_eq!(starts, [0, 1_000_000_000, 2_000_000_000, 3_000_000_000]);
    assert_eq!(windows[2].durability_lag, None);
    assert!(windows[3].durability_lag.is_some());
    assert_eq!(windows[3].duration_ns, 500_000_000);
}
