use rand::rngs::StdRng;
use rand::SeedableRng;
use slatedb_benchmark::config::{
    load, task_config, BenchmarkScale, ResolvedConfig, ScaledProducts, Task, TaskConfig,
    BLOCK_CACHE_BYTES, METADATA_CACHE_BYTES, RECORD_COUNT,
};
use slatedb_benchmark::instrumented_store::{HttpMethod, StoreMetrics};
use slatedb_benchmark::system::{ApplicationRegistry, HostSnapshot, RateWindowControl, Sampler};
use slatedb_benchmark::workloads::closed::{
    get_permille, logical_bytes, pair_steps, request_for, selector_for, Client, CommitOutcome,
    InactiveTask, ReadOutcome, Request, ScanEvent, TransactionStep, WriteOutcome,
};
use slatedb_benchmark::workloads::dataset::{
    build_batch, producer_count, put_bytes, queue_per_producer, BatchProducer, BatchRange,
    DatasetLoad, LoadCounters, LoadError, LoadProgress,
};
use slatedb_benchmark::workloads::durability::{
    durability_result, AcceptedWrite, DurabilityResult, DurabilityShard, FrontierHistory,
};
use slatedb_benchmark::workloads::execution::{
    mix_shares, record_flush, rules, validate_stats, Action, Event, Execution, ExecutionError,
    ExecutionTimes, MixShares, ReadRule, StatsError,
};
use slatedb_benchmark::workloads::stats::WorkerStats;
use slatedb_benchmark::workloads::util::{
    fnv_hash, key_for_id, missing_key_for_id, scramble, KeySelector, ValueGenerator,
    VALUE_CORPUS_BYTES,
};

const MILLI: u64 = 1_000_000;

fn products(task: Task, factor: f64) -> ScaledProducts {
    let definition = task.definition();
    let product = |value: u64| (value as f64 * factor).round() as u64;
    ScaledProducts {
        record_count: product(RECORD_COUNT),
        block_bytes: product(BLOCK_CACHE_BYTES),
        metadata_bytes: product(METADATA_CACHE_BYTES),
        warmup_ms: product(definition.warmup_ms),
        measurement_ms: product(definition.measurement_ms),
    }
}

fn resolved(task: Task, factor: f64) -> ResolvedConfig {
    let scale = BenchmarkScale::validate(factor.to_bits()).expect("scale");
    load(
        task,
        scale,
        &products(task, factor),
        true,
        "{}".to_string(),
        "{}".to_string(),
        "release".to_string(),
        "aws",
    )
    .expect("config")
}

fn full(task: Task) -> TaskConfig {
    task_config(task, &products(task, 1.0), RECORD_COUNT)
}

#[test]
fn keys_use_the_documented_binary_prefix_and_ascii_padding() {
    let key = key_for_id(0x0102_0304_0506_0708, 20);
    assert_eq!(&key[..8], &[1, 2, 3, 4, 5, 6, 7, 8]);
    assert_eq!(&key[8..], &[b'0'; 12]);

    let missing = missing_key_for_id(0x0102_0304_0506_0708, 20);
    assert_eq!(&missing[..19], &key[..19]);
    assert_eq!(missing[19], b'1');
}

#[test]
fn short_keys_keep_the_end_of_the_prefix() {
    let key = key_for_id(0x0102_0304_0506_0708, 8);
    assert_eq!(key, [1, 2, 3, 4, 5, 6, 7, 8]);
    assert_eq!(key_for_id(7, 4).len(), 4);
}

#[test]
fn values_are_incompressible_and_have_the_requested_size() {
    let mut rng = StdRng::seed_from_u64(7);
    let mut values = ValueGenerator::new();
    let value = values.generate(400, &mut rng);
    assert_eq!(value.len(), 400);
    assert_ne!(&value[..200], &value[200..]);
}

#[test]
fn successive_values_differ() {
    let mut rng = StdRng::from_os_rng();
    let mut values = ValueGenerator::new();
    let first = values.generate(64, &mut rng);
    let second = values.generate(64, &mut rng);
    assert_ne!(first, second);
    assert_eq!(values.generate(0, &mut rng), [0u8; 0]);
}

#[test]
fn values_start_over_at_the_end_of_the_corpus() {
    let mut rng = StdRng::seed_from_u64(7);
    let mut values = ValueGenerator::new();
    let size = VALUE_CORPUS_BYTES / 2 - 1;
    let first = values.generate(size, &mut rng);
    let second = values.generate(size, &mut rng);
    let third = values.generate(size, &mut rng);
    assert_ne!(first, second);
    assert_eq!(first, third);
}

#[test]
fn scrambled_zipfian_samples_stay_in_the_fixed_domain() {
    let selector = KeySelector::zipfian(1_000);
    let mut rng = StdRng::seed_from_u64(7);
    assert!((0..10_000).all(|_| selector.sample(&mut rng) < 1_000));
}

#[test]
fn uniform_samples_reach_the_whole_domain() {
    let selector = KeySelector::uniform(4);
    let mut rng = StdRng::seed_from_u64(7);
    let mut seen = [false; 4];
    for _ in 0..1_000 {
        seen[selector.sample(&mut rng) as usize] = true;
    }
    assert_eq!(seen, [true; 4]);
    assert_eq!(KeySelector::uniform(0).sample(&mut rng), 0);
    assert_eq!(KeySelector::zipfian(0).sample(&mut rng), 0);
}

#[test]
fn skewed_samples_favour_few_records() {
    let selector = KeySelector::zipfian(1_000);
    let mut rng = StdRng::seed_from_u64(7);
    let favourite = scramble(0, 1_000);
    let hits = (0..10_000)
        .filter(|_| selector.sample(&mut rng) == favourite)
        .count();
    assert!(hits > 500);
}

#[test]
fn skewed_samples_stand_for_ranks() {
    let selector = KeySelector::zipfian(1_000);
    let mut rng = StdRng::seed_from_u64(7);
    let records: Vec<u64> = (1..=1_001).map(|rank| scramble(rank, 1_000)).collect();
    assert!((0..1_000).any(|record| !records.contains(&record)));
    assert!((0..10_000).all(|_| records.contains(&selector.sample(&mut rng))));
}

#[test]
fn hashes_are_the_published_fnv_values() {
    let mut hash: u64 = 0xcbf2_9ce4_8422_2325;
    for byte in 5u64.to_le_bytes() {
        hash ^= byte as u64;
        hash = hash.wrapping_mul(1_099_511_628_211);
    }
    assert_eq!(fnv_hash(5), (hash as i64).wrapping_abs() as u64);
    assert_eq!(scramble(6, 1_000), fnv_hash(5) % 1_000);
    assert_eq!(scramble(0, 1_000), fnv_hash(0) % 1_000);
}

#[test]
fn uses_first_covering_frontier_observation_for_delayed_writes() {
    let mut history = FrontierHistory::start(0, 0);
    assert!(history.observe(10, 100 * MILLI));
    assert!(history.observe(20, 200 * MILLI));
    let mut registry = ApplicationRegistry::new();
    let recorder = registry.recorder();
    let mut shard = DurabilityShard::new(recorder, &history);
    let mut latencies = shard.accepted(
        AcceptedWrite {
            sequence: 5,
            returned_at: 25 * MILLI,
        },
        &history,
        &mut registry,
    );
    latencies.extend(shard.accepted(
        AcceptedWrite {
            sequence: 15,
            returned_at: 50 * MILLI,
        },
        &history,
        &mut registry,
    ));
    shard.close();

    assert_eq!(shard.finished(), Some(2));
    assert_eq!(latencies, [75 * MILLI, 150 * MILLI]);
    let delta = registry.drain();
    assert_eq!(
        delta.histograms.summary("api/durable").map(|digest| digest.count),
        Some(2)
    );
}

#[test]
fn drains_pending_writes_when_frontier_advances() {
    let mut history = FrontierHistory::start(0, 0);
    let mut registry = ApplicationRegistry::new();
    let recorder = registry.recorder();
    let mut shard = DurabilityShard::new(recorder, &history);
    let write = AcceptedWrite {
        sequence: 10,
        returned_at: 0,
    };
    assert!(shard.accepted(write, &history, &mut registry).is_empty());
    shard.close();
    assert_eq!(shard.finished(), None);

    assert!(history.observe(10, 125 * MILLI));
    assert_eq!(history.latest(), 10);
    assert!(!history.observe(10, 130 * MILLI));
    let latencies = shard.frontier_changed(&history, &mut registry);

    assert_eq!(shard.finished(), Some(1));
    assert_eq!(latencies, [125 * MILLI]);
    assert_eq!(
        durability_result(&vec![1, 2], 10),
        DurabilityResult {
            count: 3,
            final_durable_sequence: 10
        }
    );
}

#[test]
fn missing_reads_require_misses_and_no_hits() {
    let config = full(Task::PointReadMissing);
    let mut stats = WorkerStats::new();
    stats.read_misses = 1;
    validate_stats(&config, &stats).expect("valid missing reads");

    stats.read_hits = 1;
    assert_eq!(
        validate_stats(&config, &stats),
        Err(StatsError::MissingReads { hits: 1, misses: 1 })
    );
    assert_eq!(
        validate_stats(&config, &WorkerStats::new()),
        Err(StatsError::MissingReads { hits: 0, misses: 0 })
    );
}

#[test]
fn each_kind_of_unsound_counters_is_named() {
    let mut stats = WorkerStats::new();
    stats.errors = 2;
    assert_eq!(
        validate_stats(&full(Task::Balanced), &stats),
        Err(StatsError::OperationErrors(2))
    );
    let mut stats = WorkerStats::new();
    stats.read_misses = 3;
    assert_eq!(
        validate_stats(&full(Task::ReadHeavy), &stats),
        Err(StatsError::UnexpectedMisses(3))
    );
    let mut stats = WorkerStats::new();
    stats.transaction_attempts = 3;
    stats.transaction_commits = 1;
    stats.transaction_conflicts = 1;
    assert_eq!(
        validate_stats(&full(Task::TransactionContention), &stats),
        Err(StatsError::UnreconciledTransactions)
    );
    stats.transaction_conflicts = 2;
    assert_eq!(
        validate_stats(&full(Task::TransactionContention), &stats),
        Ok(())
    );
    assert_eq!(rules(&full(Task::RangeScan)).reads, ReadRule::Free);
}

#[test]
fn merged_counters_are_those_of_all_clients() {
    let mut left = WorkerStats::new();
    left.record_write(9, 1);
    left.count_error();
    let mut right = WorkerStats::new();
    let accepted = right.record_write(4, 2);
    assert_eq!((accepted.sequence, accepted.returned_at), (4, 2));
    left.merge(&right);
    assert_eq!(left.writes, 2);
    assert_eq!(left.errors, 1);
    assert_eq!(left.last_write_sequence, Some(9));
    right.merge(&left);
    assert_eq!(right.last_write_sequence, Some(9));
    assert_eq!(right.writes, 3);
}

#[test]
fn tasks_ask_what_they_are_for() {
    assert_eq!(get_permille(Task::ReadHeavy), Some(950));
    assert_eq!(get_permille(Task::Balanced), Some(500));
    assert_eq!(get_permille(Task::UpdateHeavy), Some(50));
    assert_eq!(get_permille(Task::RangeScan), None);
    assert_eq!(
        request_for(Task::Balanced, true, 3),
        Ok(Request::Get {
            id: 3,
            missing: false
        })
    );
    assert_eq!(
        request_for(Task::Balanced, false, 3),
        Ok(Request::Put { id: 3 })
    );
    assert_eq!(
        request_for(Task::PointReadMissing, true, 3),
        Ok(Request::Get {
            id: 3,
            missing: true
        })
    );
    assert_eq!(
        request_for(Task::RangeScan, true, 3),
        Ok(Request::Scan { id: 3 })
    );
    assert_eq!(
        request_for(Task::SustainedIngest, true, 3),
        Ok(Request::Put { id: 3 })
    );
    assert_eq!(
        request_for(Task::TransactionContention, true, 3),
        Ok(Request::Transaction)
    );
    assert_eq!(request_for(Task::Idle, true, 3), Err(InactiveTask));
    assert_eq!(
        selector_for(Task::Balanced, 0),
        KeySelector::ScrambledZipfian { record_count: 1 }
    );
    assert_eq!(
        selector_for(Task::RangeScan, 9),
        KeySelector::Uniform { record_count: 9 }
    );
    assert_eq!(logical_bytes(20, 400), 420);
}

#[test]
fn clients_count_reads_and_writes() {
    let config = resolved(Task::Balanced, 0.0001);
    let mut registry = ApplicationRegistry::new();
    let recorder = registry.recorder();
    let mut client = Client::new(&config, StdRng::seed_from_u64(1), Some(recorder));
    let mut reads = 0;
    for _ in 0..1_000 {
        match client.next_request(0).expect("request") {
            Request::Get { id, missing } => {
                reads += 1;
                assert!(id < config.dataset.record_count);
                assert!(!missing);
            }
            Request::Put { id } => assert!(id < config.dataset.record_count),
            other => panic!("unexpected request {other:?}"),
        }
    }
    assert!((400..600).contains(&reads));
    assert_eq!(client.key(1, false), key_for_id(1, 20));
    assert_eq!(client.key(1, true), missing_key_for_id(1, 20));
    assert_eq!(client.value().len(), 400);

    client.got(&mut registry, 20, ReadOutcome::Found(400), MILLI);
    client.got(&mut registry, 20, ReadOutcome::Absent, MILLI);
    client.got(&mut registry, 20, ReadOutcome::Failed, MILLI);
    let write = client.stored(
        &mut registry,
        20,
        400,
        WriteOutcome::Accepted {
            sequence: 8,
            returned_at: 5,
        },
        MILLI,
    );
    assert_eq!(
        write,
        Some(AcceptedWrite {
            sequence: 8,
            returned_at: 5
        })
    );
    let failed = client.stored(&mut registry, 20, 400, WriteOutcome::Failed, MILLI);
    assert_eq!(failed, None);
    let stats = client.stats();
    assert_eq!((stats.read_hits, stats.read_misses), (1, 1));
    assert_eq!((stats.writes, stats.errors), (1, 2));
    let delta = registry.drain();
    let get = delta.operations.get("get").expect("gets");
    assert_eq!((get.calls, get.logical_bytes, get.errors), (3, 440, 1));
    let put = delta.operations.get("put").expect("puts");
    assert_eq!((put.calls, put.logical_bytes, put.errors), (2, 420, 1));
}

#[test]
fn clients_cut_their_values_from_one_corpus() {
    let config = resolved(Task::Balanced, 0.0001);
    let mut client = Client::new(&config, StdRng::seed_from_u64(1), None);
    let mut rng = StdRng::seed_from_u64(1);
    let mut values = ValueGenerator::new();
    for _ in 0..3 {
        assert_eq!(client.value(), values.generate(400, &mut rng));
    }
}

#[test]
fn clients_of_skewed_tasks_prefer_some_records() {
    let most_requested = |task: Task| {
        let config = resolved(task, 0.0001);
        let mut client = Client::new(&config, StdRng::seed_from_u64(1), None);
        let mut counts = vec![0u32; config.dataset.record_count as usize];
        for _ in 0..2_000 {
            match client.next_request(0).expect("request") {
                Request::Get { id, .. } | Request::Put { id } => counts[id as usize] += 1,
                other => panic!("unexpected request {other:?}"),
            }
        }
        counts.into_iter().max().expect("records")
    };
    assert!(most_requested(Task::PointReadSkewed) > 10 * most_requested(Task::PointReadUniform));
}

#[test]
fn scans_return_what_is_left_of_the_database() {
    let config = resolved(Task::RangeScan, 0.0001);
    let mut registry = ApplicationRegistry::new();
    let mut client = Client::new(&config, StdRng::seed_from_u64(1), None);
    let start = config.dataset.record_count - 2;
    let (mut progress, more) = client.scan_started(start);
    assert!(more);
    assert_eq!((progress.limit, progress.expected), (10, 2));
    let entry = ScanEvent::Entry {
        key: 20,
        value: 400,
    };
    assert!(client.scanned(&mut registry, &mut progress, entry, 1));
    assert!(client.scanned(&mut registry, &mut progress, entry, 1));
    assert!(!client.scanned(&mut registry, &mut progress, ScanEvent::End, 1));
    let stats = client.stats();
    assert_eq!((stats.scan_records, stats.scan_end_calls), (2, 1));
    assert_eq!(stats.errors, 0);

    let (mut progress, _) = client.scan_started(0);
    assert!(!client.scanned(&mut registry, &mut progress, ScanEvent::End, 1));
    assert_eq!(client.stats().errors, 1);
    let (mut progress, _) = client.scan_started(0);
    assert!(!client.scanned(&mut registry, &mut progress, ScanEvent::Failed, 1));
    client.scan_not_started(&mut registry);
    assert_eq!(client.stats().errors, 3);
}

#[test]
fn transactions_read_and_write_contended_keys() {
    let config = resolved(Task::TransactionContention, 0.0001);
    let mut registry = ApplicationRegistry::new();
    let recorder = registry.recorder();
    let mut client = Client::new(&config, StdRng::seed_from_u64(3), Some(recorder));
    assert_eq!(client.next_request(0), Ok(Request::Transaction));
    let steps = client.plan_transaction();
    assert_eq!(steps.iter().filter(|step| step.read).count(), 5);
    assert_eq!(steps.iter().filter(|step| !step.read).count(), 5);
    assert!(steps.iter().all(|step| step.id < 10_000));
    assert!(client.transaction_read(&mut registry, 20, ReadOutcome::Found(400), 1));
    assert!(client.transaction_read(&mut registry, 20, ReadOutcome::Absent, 1));
    assert!(!client.transaction_read(&mut registry, 20, ReadOutcome::Failed, 1));
    assert!(client.transaction_write(&mut registry, 20, 400, true, 1));
    assert!(!client.transaction_write(&mut registry, 20, 400, false, 1));
    let committed = CommitOutcome::Committed {
        sequence: 2,
        returned_at: 3,
    };
    assert!(client.committed(&mut registry, committed, 1).is_some());
    assert!(client
        .committed(&mut registry, CommitOutcome::Conflict, 1)
        .is_none());
    assert!(client
        .committed(&mut registry, CommitOutcome::WithoutWrite, 1)
        .is_none());
    assert!(client
        .committed(&mut registry, CommitOutcome::Failed, 1)
        .is_none());
    client.transaction_not_started();
    let stats = client.stats();
    assert_eq!(stats.transaction_attempts, 1);
    assert_eq!(stats.transaction_commits, 1);
    assert_eq!(stats.transaction_conflicts, 1);
    assert_eq!(stats.errors, 6);
    assert_eq!(stats.last_write_sequence, Some(2));
    let delta = registry.drain();
    let commits = delta.operations.get("transaction.commit").expect("commits");
    assert_eq!((commits.calls, commits.errors), (4, 2));
}

#[test]
fn inserting_clients_use_the_reserved_record() {
    let config = resolved(Task::SustainedIngest, 0.0001);
    let mut client = Client::new(&config, StdRng::seed_from_u64(3), None);
    assert_eq!(client.next_request(77), Ok(Request::Put { id: 77 }));
    let idle = resolved(Task::Idle, 0.0001);
    let mut client = Client::new(&idle, StdRng::seed_from_u64(3), None);
    assert_eq!(client.next_request(77), Err(InactiveTask));
}

#[test]
fn producers_take_turns_over_the_dataset() {
    let records = 5_000;
    let mut producers: Vec<BatchProducer> =
        (0..2).map(|i| BatchProducer::new(i, 2, records)).collect();
    let mut load = DatasetLoad::new(records, 2);
    let mut written = Vec::new();
    while let Some(turn) = load.next_producer().expect("turn") {
        let batch = producers[turn].next_batch().expect("batch");
        load.take_turn(&batch).expect("in order");
        load.written(&batch, 3);
        written.push((batch.start, batch.end));
    }
    assert_eq!(
        written,
        [
            (0, 1_024),
            (1_024, 2_048),
            (2_048, 3_072),
            (3_072, 4_096),
            (4_096, 5_000)
        ]
    );
    assert_eq!(load.loaded, records);
    assert_eq!(load.backpressure_ns, 15);
    assert_eq!(producers[0].next_batch(), None);
    let stray = BatchRange { start: 7, end: 8 };
    assert_eq!(load.take_turn(&stray), Err(LoadError::OutOfOrder));
}

#[test]
fn batches_hold_the_records_of_their_range() {
    let mut rng = StdRng::seed_from_u64(7);
    let mut values = ValueGenerator::new();
    let range = BatchRange { start: 3, end: 6 };
    let batch = build_batch(range, 20, 100, &mut values, &mut rng);
    assert_eq!(batch.len(), 3);
    for (offset, (key, value)) in batch.iter().enumerate() {
        assert_eq!(*key, key_for_id(3 + offset as u64, 20));
        assert_eq!(value.len(), 100);
    }
    let mut rng = StdRng::seed_from_u64(7);
    let mut values = ValueGenerator::new();
    for (_, value) in &batch {
        assert_eq!(*value, values.generate(100, &mut rng));
    }
    assert_eq!(producer_count(None), 2);
    assert_eq!(producer_count(Some(1)), 2);
    assert_eq!(producer_count(Some(5)), 5);
    assert_eq!(producer_count(Some(64)), 8);
    assert_eq!(queue_per_producer(8), 2);
    assert_eq!(queue_per_producer(64), 1);
}

#[test]
fn load_reports_hold_the_recent_growth() {
    let at = |now: u64, records: u64, upload_bytes: u64| LoadCounters {
        now,
        records,
        upload_bytes,
        l0_bytes: 0,
        backpressure_ns: 0,
    };
    let mut progress = LoadProgress {
        started: 0,
        total: 100,
        last: at(0, 0, 0),
    };
    progress.report(at(10, 30, 500));
    let report = progress.report(at(25, 70, 900));
    assert_eq!(report.interval_ns, 15);
    assert_eq!(report.elapsed_ns, 25);
    assert_eq!(report.recent_records, 40);
    assert_eq!(report.remaining_records, 30);
    assert_eq!(report.recent_upload_bytes, 400);

    let mut metrics = StoreMetrics::new();
    metrics.record_request_bytes(HttpMethod::Put, 12);
    metrics.record_request_bytes(HttpMethod::Post, 5);
    assert_eq!(put_bytes(&metrics.snapshot()), 12);
}

fn stats_of(writes: u64, last: Option<u64>) -> WorkerStats {
    let mut stats = WorkerStats::new();
    stats.read_hits = 1;
    stats.writes = writes;
    stats.last_write_sequence = last;
    stats
}

#[test]
fn writing_executions_flush_and_drain_before_their_verdict() {
    let config = full(Task::Balanced);
    let (mut execution, first) = Execution::start(&config);
    assert_eq!(
        first,
        Action::Warm {
            duration_ms: 300_000
        }
    );
    let ended = Event::PhaseEnded {
        stats: Some(stats_of(2, Some(9))),
        elapsed_ns: 50,
    };
    assert_eq!(execution.advance(ended), Action::FlushWarmup);
    assert_eq!(
        execution.advance(Event::FlushEnded { flushed: true }),
        Action::Measure {
            duration_ms: 900_000,
            track: true
        }
    );
    assert_eq!(execution.advance(ended), Action::Flush);
    assert_eq!(
        execution.advance(Event::FlushEnded { flushed: true }),
        Action::FinishDurability
    );
    let durable = DurabilityResult {
        count: 2,
        final_durable_sequence: 9,
    };
    assert_eq!(
        execution.advance(Event::DurabilityEnded {
            result: Some(durable),
            drain_ns: 7
        }),
        Action::StopSampling { abandon: false }
    );
    assert_eq!(
        execution.advance(Event::SamplingStopped {
            application_errors: 0,
            mix_in_tolerance: true
        }),
        Action::Done(Ok(ExecutionTimes {
            client_measurement_ns: 50,
            durability_drain_ns: 7
        }))
    );
}

fn measuring(task: Task) -> Execution {
    let (mut execution, mut action) = Execution::start(&full(task));
    while !matches!(action, Action::Measure { .. }) {
        action = match action {
            Action::Warm { .. } => execution.advance(Event::PhaseEnded {
                stats: Some(stats_of(0, None)),
                elapsed_ns: 1,
            }),
            _ => execution.advance(Event::FlushEnded { flushed: true }),
        };
    }
    execution
}

fn verdict(
    task: Task,
    stats: WorkerStats,
    durable: Option<DurabilityResult>,
    application_errors: u64,
    mix_in_tolerance: bool,
) -> Result<ExecutionTimes, ExecutionError> {
    let mut execution = measuring(task);
    let mut action = execution.advance(Event::PhaseEnded {
        stats: Some(stats),
        elapsed_ns: 1,
    });
    loop {
        action = match action {
            Action::Flush => execution.advance(Event::FlushEnded { flushed: true }),
            Action::FinishDurability => execution.advance(Event::DurabilityEnded {
                result: durable,
                drain_ns: 1,
            }),
            Action::StopSampling { .. } => execution.advance(Event::SamplingStopped {
                application_errors,
                mix_in_tolerance,
            }),
            Action::Done(result) => return result,
            other => panic!("unexpected action {other:?}"),
        };
    }
}

#[test]
fn each_failure_of_an_execution_is_named() {
    let durable = |count: u64, sequence: u64| {
        Some(DurabilityResult {
            count,
            final_durable_sequence: sequence,
        })
    };
    let task = Task::Balanced;
    assert_eq!(
        verdict(task, stats_of(2, Some(9)), durable(1, 9), 0, true),
        Err(ExecutionError::CoverageMismatch {
            writes: 2,
            samples: 1
        })
    );
    assert_eq!(
        verdict(task, stats_of(2, Some(9)), durable(2, 8), 0, true),
        Err(ExecutionError::FrontierBehind {
            frontier: 8,
            last_write: 9
        })
    );
    assert_eq!(
        verdict(task, stats_of(2, Some(9)), None, 0, true),
        Err(ExecutionError::DurabilityFailed)
    );
    assert_eq!(
        verdict(task, stats_of(2, Some(9)), durable(2, 9), 0, false),
        Err(ExecutionError::MixOutOfTolerance)
    );
    assert_eq!(
        verdict(task, stats_of(2, Some(9)), durable(2, 9), 4, true),
        Err(ExecutionError::ApplicationErrors(4))
    );
    let mut faulty = stats_of(2, Some(9));
    faulty.errors = 1;
    assert_eq!(
        verdict(task, faulty, durable(2, 9), 0, true),
        Err(ExecutionError::Stats(StatsError::OperationErrors(1)))
    );

    let (mut execution, _) = Execution::start(&full(task));
    let action = execution.advance(Event::PhaseEnded {
        stats: Some(faulty),
        elapsed_ns: 1,
    });
    assert_eq!(action, Action::Done(Err(ExecutionError::WarmupErrors(1))));
    let (mut execution, _) = Execution::start(&full(task));
    let action = execution.advance(Event::PhaseEnded {
        stats: None,
        elapsed_ns: 1,
    });
    assert_eq!(action, Action::Done(Err(ExecutionError::PhaseFailed)));
    let (mut execution, _) = Execution::start(&full(task));
    execution.advance(Event::PhaseEnded {
        stats: Some(stats_of(0, None)),
        elapsed_ns: 1,
    });
    let action = execution.advance(Event::FlushEnded { flushed: false });
    assert_eq!(action, Action::Done(Err(ExecutionError::WarmupFlushFailed)));

    let mut execution = measuring(task);
    execution.advance(Event::PhaseEnded {
        stats: Some(stats_of(0, None)),
        elapsed_ns: 1,
    });
    let action = execution.advance(Event::FlushEnded { flushed: false });
    assert_eq!(action, Action::StopSampling { abandon: true });
    let action = execution.advance(Event::SamplingStopped {
        application_errors: 0,
        mix_in_tolerance: true,
    });
    assert_eq!(action, Action::Done(Err(ExecutionError::FlushFailed)));

    let mut execution = measuring(Task::PointReadUniform);
    let action = execution.advance(Event::PhaseEnded {
        stats: Some(stats_of(0, None)),
        elapsed_ns: 1,
    });
    assert_eq!(action, Action::StopSampling { abandon: false });
    let action = execution.advance(Event::SamplingFailed);
    assert_eq!(action, Action::Done(Err(ExecutionError::SamplerFailed)));
}

#[test]
fn mixed_workloads_compare_their_shares() {
    let mut registry = ApplicationRegistry::new();
    let recorder = registry.recorder();
    let store = StoreMetrics::new();
    let host = HostSnapshot {
        process_cpu_cores: 0,
        process_rss_bytes: 0,
        machine_cpu_percent: 0,
        network_received: 0,
        network_sent: 0,
        disk_read_bytes: 0,
        disk_write_bytes: 0,
        disk_read_operations: 0,
        disk_write_operations: 0,
    };
    let sampler = Sampler::new(0, store.snapshot(), host);
    recorder.record_success(&mut registry, "get", 1, 1);
    recorder.record_success(&mut registry, "get", 1, 1);
    recorder.record_success(&mut registry, "put", 1, 1);
    record_flush(recorder, &mut registry, true, 9);
    let control = RateWindowControl::new();
    let measurement = sampler.finish(10, registry.drain(), store.snapshot(), &control);
    assert_eq!(
        mix_shares(&full(Task::Balanced), &measurement),
        Some(MixShares {
            expected_get: 0.5f64.to_bits(),
            expected_put: 0.5f64.to_bits(),
            gets: 2,
            calls: 3
        })
    );
    assert_eq!(mix_shares(&full(Task::RangeScan), &measurement), None);
    assert_eq!(measurement.operation_total("flush"), 1);
}

#[test]
fn transaction_steps_pair_reads_with_records() {
    assert_eq!(
        pair_steps(&vec![true, false, true], &vec![5, 6, 5]),
        [
            TransactionStep { read: true, id: 5 },
            TransactionStep { read: false, id: 6 },
            TransactionStep { read: true, id: 5 },
        ]
    );
}
