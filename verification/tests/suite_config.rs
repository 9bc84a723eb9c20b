use slatedb_benchmark::suite::config::{
    duration_millis, load_profile, parse_duration_ms, select_profiles, validate_probe,
    validate_sequential_profile, LoadFault, NothingSelected, ProbeFile, ProfileError,
    ProfileExecution, ProfileFile, SourceFile, SuiteConfig, SuiteFault, VariantDefinition,
    WorkloadFile, WorkloadKind,
};
use slatedb_benchmark::suite::golden::{dataset_shape, GoldenManager, NoManifest};
use slatedb_benchmark::suite::open_loop::{
    recorder_for, window_recorders, worker_count, RateFault, WINDOW_RECORDER_SHARDS,
};
use slatedb_benchmark::suite::run::{
    baseline_file, check_worker_state, group_by_profile, run_mode, RunFault, UnexpectedState,
};
use slatedb_benchmark::suite::sequential::{find_loader, LoaderFault};
use slatedb_benchmark::system::ApplicationRegistry;
use std::collections::BTreeMap;

fn closed(name: &str, clients: usize) -> VariantDefinition {
    VariantDefinition {
        name: name.to_string(),
        clients: Some(clients),
        target_rate: None,
    }
}

fn open(rate: u64) -> VariantDefinition {
    VariantDefinition {
        name: format!("rate-{rate}"),
        clients: None,
        target_rate: Some(rate),
    }
}

fn workload(name: &str, kind: WorkloadKind, variants: Vec<VariantDefinition>) -> WorkloadFile {
    WorkloadFile {
        name: name.to_string(),
        kind,
        variants,
        await_durable: false,
        record_count: None,
        key_bytes: None,
        value_bytes: None,
        warmup: None,
        measurement: None,
    }
}

fn profile(execution: ProfileExecution, workloads: Vec<WorkloadFile>) -> ProfileFile {
    ProfileFile {
        schema_version: 1,
        release: true,
        execution,
        object_store_probe: ProbeFile {
            latency_operations: 100,
            latency_object_bytes: 1_024,
            throughput_object_bytes: 1_048_576,
            throughput_concurrency: 8,
            throughput_warmup: "5s".to_string(),
            throughput_measurement: "10s".to_string(),
        },
        compaction_quiet: "30s".to_string(),
        compaction_timeout: "1h".to_string(),
        record_count: 1_000,
        key_bytes: 16,
        value_bytes: 100,
        block_cache_bytes: Some(1_024),
        metadata_cache_bytes: None,
        warmup: "1m".to_string(),
        measurement: "5m".to_string(),
        sst_block_bytes: Some(8_192),
        workloads,
    }
}

fn clients() -> Vec<VariantDefinition> {
    vec![
        closed("clients-1", 1),
        closed("clients-16", 16),
        closed("clients-64", 64),
    ]
}

fn rates() -> Vec<VariantDefinition> {
    vec![open(100), open(1_000), open(10_000)]
}

fn ycsb() -> ProfileFile {
    profile(
        ProfileExecution::Isolated,
        vec![
            workload("workload-a", WorkloadKind::YcsbA, clients()),
            workload("workload-b", WorkloadKind::YcsbB, clients()),
            workload("workload-c", WorkloadKind::YcsbC, clients()),
            workload("workload-d", WorkloadKind::YcsbD, clients()),
            workload("workload-e", WorkloadKind::YcsbE, clients()),
            workload("workload-f", WorkloadKind::YcsbF, clients()),
        ],
    )
}

fn slatedb() -> ProfileFile {
    profile(
        ProfileExecution::Isolated,
        vec![
            workload("cold-read", WorkloadKind::ColdRead, vec![closed("clients-1", 1)]),
            workload("sustained-ingest", WorkloadKind::SustainedIngest, clients()),
            workload(
                "transaction-contention",
                WorkloadKind::TransactionContention,
                clients(),
            ),
            workload(
                "prefix-scan",
                WorkloadKind::PrefixScan,
                vec![closed("clients-1", 1), closed("clients-16", 16)],
            ),
            workload("open-loop-read", WorkloadKind::OpenLoopRead, rates()),
            workload(
                "open-loop-read-update",
                WorkloadKind::OpenLoopReadUpdate,
                rates(),
            ),
        ],
    )
}

fn rocksdb() -> ProfileFile {
    let one = || vec![closed("clients-1", 1)];
    let readers = || vec![closed("readers-64-writer-1", 64)];
    profile(
        ProfileExecution::Sequential,
        vec![
            workload("bulk-load", WorkloadKind::BulkLoad, one()),
            workload("random-read", WorkloadKind::RandomRead, one()),
            workload("multi-random-read", WorkloadKind::MultiRandomRead, one()),
            workload("forward-range", WorkloadKind::ForwardRange, one()),
            workload("reverse-range", WorkloadKind::ReverseRange, one()),
            workload("overwrite", WorkloadKind::Overwrite, one()),
            workload(
                "read-while-writing",
                WorkloadKind::ReadWhileWriting,
                readers(),
            ),
            workload(
                "forward-range-while-writing",
                WorkloadKind::ForwardRangeWhileWriting,
                readers(),
            ),
            workload(
                "reverse-range-while-writing",
                WorkloadKind::ReverseRangeWhileWriting,
                readers(),
            ),
        ],
    )
}

fn smoke() -> ProfileFile {
    let mut file = profile(
        ProfileExecution::Isolated,
        vec![workload(
            "workload-a",
            WorkloadKind::YcsbA,
            vec![closed("clients-1", 1)],
        )],
    );
    file.release = false;
    file
}

fn source(name: &str, file: ProfileFile) -> SourceFile {
    SourceFile {
        name: format!("{name}.profile.toml"),
        file,
    }
}

fn suite() -> SuiteConfig {
    SuiteConfig::load_from(
        vec![
            source("rocksdb", rocksdb()),
            source("slatedb", slatedb()),
            source("smoke", smoke()),
            source("ycsb", ycsb()),
        ],
        &vec![true; 4],
    )
    .expect("config")
}

#[test]
fn release_catalog_contains_every_documented_variant() {
    assert_eq!(suite().catalog(None).expect("catalog").len(), 42);
}

#[test]
fn smoke_is_a_small_non_release_profile() {
    let suite = suite();
    let release = suite.catalog(None).expect("release catalog");
    let smoke = suite.catalog(Some("smoke")).expect("smoke catalog");
    assert!(smoke.len() < release.len());
    assert!(smoke.iter().all(|entry| entry.profile == "smoke"));
    assert!(release.iter().all(|entry| entry.profile != "smoke"));
}

#[test]
fn catalog_has_the_documented_profile_workload_variant_counts() {
    let suite = suite();
    let mut profiles = BTreeMap::new();
    let mut workloads = BTreeMap::new();
    for entry in suite.catalog(None).expect("catalog") {
        *profiles.entry(entry.profile.clone()).or_insert(0) += 1;
        *workloads
            .entry((entry.profile, entry.workload))
            .or_insert(0) += 1;
    }
    assert_eq!(
        profiles,
        BTreeMap::from([
            ("rocksdb".to_string(), 9),
            ("slatedb".to_string(), 15),
            ("ycsb".to_string(), 18),
        ])
    );
    assert_eq!(workloads.len(), 21);
}

#[test]
fn variants_are_explicit_configuration() {
    let suite = suite();
    let variant = suite
        .select(Some("rocksdb"), Some("read-while-writing"), None)
        .expect("variant")
        .pop()
        .expect("configured variant");
    assert_eq!(variant.definition.name, "readers-64-writer-1");
    assert_eq!(variant.definition.clients, Some(64));
    assert_eq!(variant.definition.target_rate, None);
}

#[test]
fn rocksdb_workloads_follow_declaration_order() {
    let suite = suite();
    let profile = suite
        .profiles
        .iter()
        .find(|profile| profile.name == "rocksdb")
        .expect("rocksdb profile");
    assert_eq!(
        profile
            .workloads
            .iter()
            .map(|workload| workload.name.as_str())
            .collect::<Vec<_>>(),
        vec![
            "bulk-load",
            "random-read",
            "multi-random-read",
            "forward-range",
            "reverse-range",
            "overwrite",
            "read-while-writing",
            "forward-range-while-writing",
            "reverse-range-while-writing",
        ]
    );
}

#[test]
fn worker_pool_scales_with_target_rate() {
    let suite = suite();
    let variant = suite
        .select(Some("slatedb"), Some("open-loop-read"), Some("rate-10000"))
        .expect("variant")
        .pop()
        .expect("configured variant");

    assert_eq!(variant.definition.clients, None);
    assert_eq!(worker_count(variant.definition.target_rate), Ok(10_000));
    assert_eq!(worker_count(None), Err(RateFault::Missing));
    assert_eq!(worker_count(Some(0)), Err(RateFault::Zero));
}

#[test]
fn window_recorders_are_bounded_independently_of_target_rate() {
    let mut registry = ApplicationRegistry::new();
    assert_eq!(
        window_recorders(&mut registry).len(),
        WINDOW_RECORDER_SHARDS
    );
    assert_eq!(recorder_for(3), 3);
    assert_eq!(recorder_for(35), 3);
}

#[test]
fn selections_that_match_nothing_are_refused() {
    let suite = suite();
    assert_eq!(
        suite.catalog(Some("missing")).err(),
        Some(NothingSelected)
    );
    assert_eq!(
        suite.select(None, Some("missing"), None).err(),
        Some(NothingSelected)
    );
    assert_eq!(
        suite
            .select(None, Some("workload-a"), None)
            .map(|found| found.len()),
        Ok(3)
    );
}

#[test]
fn variants_override_their_profile() {
    let mut file = smoke();
    file.workloads[0].record_count = Some(7);
    file.workloads[0].key_bytes = Some(8);
    file.workloads[0].measurement = Some("2s".to_string());
    let profile = load_profile("smoke.profile.toml", file).expect("profile");
    assert_eq!(profile.mode(), "smoke");
    let suite = SuiteConfig {
        schema_version: 1,
        profiles: vec![profile],
    };
    let variant = suite
        .select(Some("smoke"), None, None)
        .expect("variant")
        .pop()
        .expect("variant");
    assert_eq!(variant.record_count(), 7);
    assert_eq!(variant.key_bytes(), 8);
    assert_eq!(variant.value_bytes(), 100);
    assert_eq!(variant.warmup_ms(), 60_000);
    assert_eq!(variant.measurement_ms(), 2_000);
}

#[test]
fn written_durations_are_milliseconds() {
    assert_eq!(parse_duration_ms("1m 30s"), Ok(90_000));
    assert_eq!(parse_duration_ms("soon"), Err(ProfileError::InvalidDuration));
    assert_eq!(duration_millis(Some(1_999_999)), Ok(1));
    assert_eq!(duration_millis(None), Err(ProfileError::InvalidDuration));
    assert_eq!(
        duration_millis(Some(u128::MAX)),
        Err(ProfileError::DurationTooLarge)
    );
}

#[test]
fn profile_files_are_named_and_versioned() {
    assert_eq!(
        load_profile("smoke.toml", smoke()).err(),
        Some(ProfileError::InvalidFileName)
    );
    assert_eq!(
        load_profile(".profile.toml", smoke()).err(),
        Some(ProfileError::InvalidFileName)
    );
    let mut file = smoke();
    file.schema_version = 2;
    assert_eq!(
        load_profile("smoke.profile.toml", file).err(),
        Some(ProfileError::UnsupportedSchema)
    );
    let mut file = smoke();
    file.measurement = "forever".to_string();
    assert_eq!(
        load_profile("smoke.profile.toml", file).err(),
        Some(ProfileError::InvalidDuration)
    );
    let found = vec![
        "ycsb.profile.toml".to_string(),
        "settings.toml".to_string(),
        "rocksdb.profile.toml".to_string(),
    ];
    assert_eq!(
        select_profiles(&found).expect("profiles"),
        ["rocksdb.profile.toml", "ycsb.profile.toml"]
    );
    assert_eq!(
        select_profiles(&vec!["settings.toml".to_string()]),
        Err(LoadFault::NoProfiles)
    );
}

fn fault_of(change: impl FnOnce(&mut ProfileFile)) -> Option<LoadFault> {
    let mut file = rocksdb();
    change(&mut file);
    SuiteConfig::load_from(vec![source("rocksdb", file)], &vec![true]).err()
}

#[test]
fn every_fault_of_a_suite_is_named() {
    let suite_fault = |fault: SuiteFault| Some(LoadFault::Suite(fault));
    assert_eq!(fault_of(|_| {}), None);
    assert_eq!(
        SuiteConfig::load_from(
            vec![source("a", smoke()), source("a", smoke())],
            &vec![true, true]
        )
        .err(),
        suite_fault(SuiteFault::DuplicateProfile)
    );
    assert_eq!(
        SuiteConfig::load_from(vec![source("a", smoke())], &vec![false]).err(),
        suite_fault(SuiteFault::NoSettings)
    );
    assert_eq!(
        fault_of(|file| file.workloads.clear()),
        suite_fault(SuiteFault::NoWorkloads)
    );
    assert_eq!(
        fault_of(|file| file.key_bytes = 0),
        suite_fault(SuiteFault::ZeroSizedRecord)
    );
    assert_eq!(
        fault_of(|file| file.sst_block_bytes = Some(4_096)),
        suite_fault(SuiteFault::UnsupportedBlockSize)
    );
    assert_eq!(
        fault_of(|file| file.compaction_quiet = "0s".to_string()),
        suite_fault(SuiteFault::ZeroCompactionTime)
    );
    assert_eq!(
        fault_of(|file| file.object_store_probe.throughput_concurrency = 0),
        suite_fault(SuiteFault::InvalidProbe)
    );
    assert_eq!(
        fault_of(|file| file.workloads.swap(0, 1)),
        suite_fault(SuiteFault::NotOneLeadingBulkLoad)
    );
    assert_eq!(
        fault_of(|file| file.workloads[1].name = "bulk-load".to_string()),
        suite_fault(SuiteFault::DuplicateWorkload)
    );
    assert_eq!(
        fault_of(|file| file.workloads[1].variants.clear()),
        suite_fault(SuiteFault::NoVariants)
    );
    assert_eq!(
        fault_of(|file| file.workloads[1].variants[0].name = " ".to_string()),
        suite_fault(SuiteFault::UnnamedVariant)
    );
    assert_eq!(
        fault_of(|file| file.workloads[1].variants[0].clients = Some(0)),
        suite_fault(SuiteFault::ZeroLoad)
    );
    assert_eq!(
        fault_of(|file| file.workloads[1].variants[0] = open(5)),
        suite_fault(SuiteFault::ClosedLoopWithoutClients)
    );
    assert_eq!(
        fault_of(|file| file.workloads[1].kind = WorkloadKind::OpenLoopRead),
        suite_fault(SuiteFault::OpenLoopWithoutRate)
    );
    assert_eq!(
        fault_of(|file| file.workloads[1].variants.push(closed("clients-1", 2))),
        suite_fault(SuiteFault::DuplicateVariant)
    );
    assert_eq!(
        fault_of(|file| file.warmup = "x".to_string()),
        Some(LoadFault::Profile(ProfileError::InvalidDuration))
    );
}

#[test]
fn loaders_and_probes_are_found_and_checked() {
    let suite = suite();
    assert_eq!(find_loader(&suite.profiles[0]), Ok(0));
    assert_eq!(find_loader(&suite.profiles[3]), Err(LoaderFault::NoBulkLoad));
    assert!(validate_sequential_profile(&suite.profiles[0].workloads));
    assert!(!validate_sequential_profile(&suite.profiles[3].workloads));
    assert!(validate_probe(&suite.profiles[0].object_store_probe));
    let mut probe = suite.profiles[0].object_store_probe;
    probe.latency_operations = 0;
    assert!(!validate_probe(&probe));
    assert!(WorkloadKind::OpenLoopRead.is_open_loop());
    assert!(!WorkloadKind::YcsbA.is_open_loop());
}

#[test]
fn runs_group_variants_by_profile() {
    let suite = suite();
    let selected = suite.select(None, None, None).expect("release");
    assert_eq!(run_mode(&selected), Ok("published"));
    let groups = group_by_profile(&selected);
    assert_eq!(groups.len(), 3);
    assert_eq!(groups.name_at(0), "rocksdb");
    assert_eq!(groups.value_at(0).len(), 9);
    let mut all: Vec<usize> = Vec::new();
    for group in 0..groups.len() {
        all.extend(groups.value_at(group));
    }
    all.sort();
    assert_eq!(all, (0..42).collect::<Vec<usize>>());

    assert_eq!(run_mode(&Vec::new()), Err(RunFault::EmptySelection));
    let mut mixed = suite.select(Some("smoke"), None, None).expect("smoke");
    mixed.extend(suite.select(Some("ycsb"), None, None).expect("ycsb"));
    assert_eq!(run_mode(&mixed), Err(RunFault::MixedModes));
    assert_ne!(baseline_file(2, "ycsb"), baseline_file(2, "rocksdb"));
    assert_eq!(check_worker_state("a", "a"), Ok(()));
    assert_eq!(check_worker_state("a", "b"), Err(UnexpectedState));
}

#[test]
fn goldens_are_shared_by_variants_of_one_dataset() {
    let suite = suite();
    let variants = suite.select(Some("ycsb"), None, None).expect("ycsb");
    let first = dataset_shape(&variants[0], "digest".to_string()).key();
    let second = dataset_shape(&variants[4], "digest".to_string()).key();
    assert_eq!(first, second);
    let other = dataset_shape(&variants[0], "other".to_string()).key();
    assert_ne!(first, other);
    let prefix = suite
        .select(Some("slatedb"), Some("prefix-scan"), None)
        .expect("prefix");
    assert_ne!(
        first,
        dataset_shape(&prefix[0], "digest".to_string()).key()
    );

    let mut manager = GoldenManager::new("root".to_string());
    assert!(manager.find(&first).is_none());
    let plan = manager.plan(first.clone());
    assert!(plan.path.starts_with("root"));
    assert_eq!(
        manager.built(plan, "id".to_string(), 3, None, 9).err(),
        Some(NoManifest)
    );
    let plan = manager.plan(first.clone());
    let path = plan.path.clone();
    manager.remove_later(path.clone());
    assert_eq!(
        manager.built(plan, "id".to_string(), 3, Some("lsm".to_string()), 9),
        Ok(())
    );
    assert_eq!(manager.len(), 1);
    let golden = manager.find(&first).expect("golden");
    assert_eq!(golden.manifest_id, 3);
    assert_eq!(golden.lsm_digest, "lsm");
    assert_eq!(golden.size_bytes, 9);
    assert!(manager.cleanup().contains(&path));
}
