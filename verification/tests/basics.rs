use slatedb_benchmark::bits::{equal, finite, no_more_than, plain, sorted};
use slatedb_benchmark::commands::{
    declared_features, needs_result, workload_to_run, Artifact, FeatureFault, NotAWorkload,
    PreparationPhase, ResultRequired,
};
use slatedb_benchmark::config::Task;
use slatedb_benchmark::count::{max_of, min_of, minus, plus, times};
use slatedb_benchmark::database_size::{
    live_database_size_bytes, Levels, ManifestTables, TableId, TableView,
};
use slatedb_benchmark::digest::{sha256_bytes, sha256_joined};
use slatedb_benchmark::faults::{fault_unless, first_listed};
use slatedb_benchmark::host::{
    counter_value, inspect_environment, is_physical_disk, is_tigris_endpoint, linux_disk_totals,
    linux_io_operations, network_totals, object_store_name, verify_environment,
    verify_suite_environment, EnvironmentFault, HostFacts, InterfaceTotals, MetricReading,
};
use slatedb_benchmark::named::Named;
use slatedb_benchmark::names::{validate_identifier, validate_name};
use slatedb_benchmark::paths::{append_path, is_named, is_of_kind, NotRelative};
use slatedb_benchmark::stores::{
    endpoint_name, plan_store, prefer_specific, StoreEnvironment, StoreFault, StoreKind,
};
use slatedb_benchmark::text::{
    ascii_lowercase, blank, contains, decimal, ends_with, insert_sorted, is_before, padded_decimal,
    parse_unsigned, precedence, same_text, same_text_ignoring_case, split, split_non_empty,
    split_words, starts_with, strip_prefix, strip_suffix, Precedence,
};

fn text(value: &str) -> String {
    value.to_string()
}

#[test]
fn counters_stop_at_their_limits() {
    assert_eq!(plus(u64::MAX, 1), u64::MAX);
    assert_eq!(plus(2, 3), 5);
    assert_eq!(minus(2, 3), 0);
    assert_eq!(minus(3, 2), 1);
    assert_eq!(times(u64::MAX, 2), u64::MAX);
    assert_eq!(times(6, 7), 42);
    assert_eq!((max_of(2, 3), min_of(2, 3)), (3, 2));
}

#[test]
fn bit_patterns_order_as_their_numbers() {
    let bits = f64::to_bits;
    assert!(finite(bits(-1.5)) && !finite(bits(f64::INFINITY)) && !finite(bits(f64::NAN)));
    assert!(plain(bits(0.0)) && plain(bits(2.5)) && !plain(bits(-2.5)));
    for (a, b) in [(-2.0, -1.0), (-1.0, 0.0), (0.5, 0.75), (3.0, 3.0), (-0.0, 0.0)] {
        assert!(no_more_than(bits(a), bits(b)), "{a} {b}");
    }
    assert!(!no_more_than(bits(1.0), bits(-1.0)));
    assert!(equal(bits(-0.0), bits(0.0)));
    assert!(!equal(bits(1.0), bits(2.0)));
    let values: Vec<u64> = [2.0, -1.0, 0.0, -3.5].map(bits).to_vec();
    let ordered: Vec<f64> = sorted(&values).into_iter().map(f64::from_bits).collect();
    assert_eq!(ordered, [-3.5, -1.0, 0.0, 2.0]);
}

#[test]
fn texts_are_compared_and_cut() {
    assert_eq!(precedence("a", "b"), Precedence::Before);
    assert_eq!(precedence("b", "a"), Precedence::After);
    assert_eq!(precedence("a", "a"), Precedence::Same);
    assert!(is_before("a", "ab") && !is_before("a", "a"));
    assert!(same_text("x", "x") && !same_text("x", "X"));
    assert!(same_text_ignoring_case("Xy", "xY"));
    assert!(contains("abcd", "bc") && contains("abc", "") && !contains("abc", "cb"));
    assert!(starts_with("abc", "ab") && ends_with("abc", "bc"));
    assert_eq!(strip_prefix("api/get", "api/").as_deref(), Some("get"));
    assert_eq!(strip_prefix("get", "api/"), None);
    assert_eq!(strip_suffix("a.toml", ".toml").as_deref(), Some("a"));
    assert_eq!(ascii_lowercase("ABÄ"), "abÄ");
    assert_eq!(split("a,,b", ','), ["a", "", "b"]);
    assert_eq!(split_non_empty("a,,b", ','), ["a", "b"]);
    assert_eq!(split_words("  a \t b "), ["a", "b"]);
    assert!(blank(" \t") && !blank(" a "));
    let mut names = Vec::new();
    for name in ["b", "c", "a"] {
        insert_sorted(&mut names, text(name));
    }
    assert_eq!(names, ["a", "b", "c"]);
}

#[test]
fn written_numbers_read_back() {
    for number in [0, 7, 42, u64::MAX] {
        assert_eq!(parse_unsigned(&decimal(number), u64::MAX), Some(number));
    }
    assert_eq!(decimal(1_024), "1024");
    assert_eq!(padded_decimal(7), "007");
    assert_eq!(padded_decimal(12_345), "12345");
    assert_eq!(parse_unsigned("+5", 9), Some(5));
    assert_eq!(parse_unsigned("", 9), None);
    assert_eq!(parse_unsigned("1x", 9), None);
    assert_eq!(parse_unsigned("10", 9), None);
}

#[test]
fn named_values_are_kept_in_order() {
    let mut table = Named::new();
    table.put(text("b"), 2);
    table.put(text("a"), 1);
    table.put(text("b"), 3);
    assert_eq!(table.len(), 2);
    assert_eq!(table.name_at(0), "a");
    assert_eq!(*table.value_at(1), 3);
    assert_eq!(table.locate("b"), (1, true));
    assert_eq!(table.locate("aa"), (1, false));
    assert_eq!(table.get("c"), None);
    *table.value_mut(0) = 9;
    let mut more = Named::new();
    more.put(text("c"), 4);
    table.extend(more);
    assert_eq!(table.remove("a"), Some(9));
    assert_eq!(table.remove("a"), None);
    assert_eq!(table.pop(), Some((text("c"), 4)));
    assert_eq!(table.len(), 1);
}

#[test]
fn faults_are_reported_in_their_order() {
    assert_eq!(fault_unless(true, 1), None);
    assert_eq!(fault_unless(false, 1), Some(1));
    assert_eq!(first_listed(&vec![None, Some(2), Some(3)]), Some(2));
    assert_eq!(first_listed::<u8>(&vec![None, None]), None);
}

#[test]
fn digests_are_those_of_the_bytes() {
    assert_eq!(
        sha256_bytes(b""),
        "e3b0c44298fc1c149afbf4c8996fb92427ae41e4649b934ca495991b7852b855"
    );
    assert_eq!(
        sha256_joined(&b"ab".to_vec(), &b"c".to_vec()),
        sha256_bytes(b"abc")
    );
}

#[test]
fn names_hold_no_separators() {
    assert!(validate_name("", "golden").is_err());
    assert!(validate_name("a.b_c-1", "golden").is_ok());
    assert!(validate_name(&"a".repeat(128), "golden").is_ok());
    assert!(validate_name(&"a".repeat(129), "golden").is_err());
    assert!(validate_identifier("..", "golden").is_err());
    assert_eq!(
        validate_name("a b", "golden").err().map(|name| name.kind),
        Some(text("golden"))
    );
}

#[test]
fn paths_stay_below_their_root() {
    assert_eq!(
        append_path(vec![text("root")], "a/b.json").expect("path"),
        ["root", "a", "b.json"]
    );
    assert_eq!(append_path(Vec::new(), "/a"), Err(NotRelative));
    assert!(is_named("a/run.json", "run.json") && !is_named("a/rerun.json", "run.json"));
    assert!(is_of_kind("a/x.json", ".json") && !is_of_kind("a/x.txt", ".json"));
}

#[test]
fn commands_name_their_tasks() {
    assert_eq!(Task::from(PreparationPhase::BulkLoad), Task::BulkLoad);
    assert_eq!(Task::from(PreparationPhase::Compaction), Task::Compaction);
    assert_eq!(workload_to_run(Task::Balanced), Ok(Task::Balanced));
    assert_eq!(workload_to_run(Task::BulkLoad), Err(NotAWorkload));
    assert_eq!(needs_result(Artifact::Series, true), Ok(true));
    assert_eq!(needs_result(Artifact::Series, false), Err(ResultRequired));
    assert_eq!(needs_result(Artifact::Golden, false), Ok(false));
    assert_eq!(
        declared_features(Some(false), Some(vec![text("zstd"), text("aws")])),
        Ok(vec![text("aws"), text("zstd")])
    );
    assert_eq!(
        declared_features(None, Some(Vec::new())),
        Err(FeatureFault::DefaultFeatures)
    );
    assert_eq!(
        declared_features(Some(false), None),
        Err(FeatureFault::Missing)
    );
}

fn store(provider: Option<&str>) -> StoreEnvironment {
    StoreEnvironment {
        provider: provider.map(text),
        benchmark_bucket: None,
        aws_bucket: None,
        local_path: None,
        prefix: None,
        benchmark_region: None,
        aws_region: None,
    }
}

#[test]
fn stores_are_planned_from_the_environment() {
    assert_eq!(
        plan_store(store(Some("tape"))).err(),
        Some(StoreFault::UnsupportedProvider)
    );
    assert_eq!(
        plan_store(store(Some("aws"))).err(),
        Some(StoreFault::BucketRequired)
    );
    assert_eq!(
        plan_store(store(Some("local"))).err(),
        Some(StoreFault::LocalPathRequired)
    );
    let mut given = store(Some("aws"));
    given.aws_bucket = Some(text("general"));
    given.benchmark_bucket = Some(text("specific"));
    given.prefix = Some(text("runs"));
    let plan = plan_store(given).expect("plan");
    assert!(matches!(plan.kind, StoreKind::Aws(bucket) if bucket == "specific"));
    assert_eq!(plan.provider, "aws");
    assert_eq!(plan.prefix, "runs");
    let memory = plan_store(store(Some("memory"))).expect("plan");
    assert!(matches!(memory.kind, StoreKind::Memory));
    assert_ne!(
        endpoint_name(&StoreKind::Memory, None),
        endpoint_name(&StoreKind::Aws(text("b")), Some(text("https://s3.example")))
    );
    assert_eq!(
        endpoint_name(&StoreKind::Aws(text("b")), Some(text("https://s3.example"))),
        "https://s3.example"
    );
    assert_eq!(
        prefer_specific(None, Some(text("general"))),
        Some(text("general"))
    );
}

fn table(id: u64, size: u64) -> TableView {
    TableView {
        id: TableId::Wal(id),
        size,
    }
}

#[test]
fn checkpoint_clone_hops_do_not_inflate_live_database_size() {
    let levels = || Levels {
        l0: vec![table(1, 10), table(2, 20)],
        compacted: vec![vec![TableView {
            id: TableId::Compacted(1),
            size: 40,
        }]],
    };
    let source = ManifestTables {
        tree: levels(),
        segments: Vec::new(),
    };
    let first_clone = ManifestTables {
        tree: levels(),
        segments: vec![levels()],
    };
    let second_clone = ManifestTables {
        tree: levels(),
        segments: vec![levels(), levels()],
    };
    let size = live_database_size_bytes(&source);
    assert!(size > 0);
    assert_eq!(size, 70);
    assert_eq!(size, live_database_size_bytes(&first_clone));
    assert_eq!(
        live_database_size_bytes(&first_clone),
        live_database_size_bytes(&second_clone)
    );
}

#[test]
fn environments_describe_the_host() {
    let facts = HostFacts {
        runner_type: None,
        hostname: Some(text("host")),
        cpu_model: Some(text("cpu")),
        cpu_cores: 16,
        ram_bytes: 64,
        disks: vec![(text("sda"), text("/")), (text("sdb"), text("/data"))],
        os_name: Some(text("Linux")),
        os_version: None,
        kernel: Some(text("6.1")),
    };
    let environment = inspect_environment(&facts, "AWS", "https://t3.storage.dev", "fra");
    assert_eq!(environment.runner_type, "local");
    assert_eq!(environment.os, "Linux unknown");
    assert!(environment.local_disk.contains("sda:/"));
    assert!(environment.local_disk.contains("sdb:/data"));
    assert_eq!(environment.object_store, "Tigris");
    assert_eq!(
        verify_environment(&environment),
        Err(EnvironmentFault::RunnerType)
    );
    let mut published = environment;
    published.runner_type = text("warp-ubuntu-latest-arm64-32x");
    assert_eq!(
        verify_environment(&published),
        Err(EnvironmentFault::CpuCount)
    );
    published.cpu_cores = 32;
    assert_eq!(
        verify_environment(&published),
        Err(EnvironmentFault::Memory)
    );
    published.ram_bytes = 64 * 1024 * 1024 * 1024;
    assert_eq!(
        verify_environment(&published),
        Err(EnvironmentFault::Region)
    );
    published.region = text("auto");
    assert_eq!(verify_environment(&published), Ok(()));
    published.endpoint = text("https://fly.storage.tigris.dev");
    assert_eq!(
        verify_environment(&published),
        Err(EnvironmentFault::Endpoint)
    );
    published.object_store = text("aws");
    assert_eq!(
        verify_environment(&published),
        Err(EnvironmentFault::Region)
    );
    published.region = text("us-east-1");
    assert_eq!(verify_environment(&published), Ok(()));
    published.object_store = text("local");
    assert_eq!(
        verify_environment(&published),
        Err(EnvironmentFault::ObjectStore)
    );

    assert_eq!(
        verify_suite_environment(&published, false),
        Err(EnvironmentFault::RunnerType)
    );
    assert_eq!(verify_suite_environment(&published, true), Ok(()));
    published.runner_type = text("warp-ubuntu-latest-x64-16x");
    assert_eq!(
        verify_suite_environment(&published, false),
        Err(EnvironmentFault::CpuCount)
    );
    published.cpu_cores = 16;
    assert_eq!(
        verify_suite_environment(&published, false),
        Err(EnvironmentFault::ObjectStore)
    );
    published.object_store = text("Tigris");
    assert_eq!(
        verify_suite_environment(&published, false),
        Err(EnvironmentFault::Region)
    );
    published.region = text("fra");
    assert_eq!(verify_suite_environment(&published, false), Ok(()));
    published.endpoint = text("https://t3.storage.dev");
    assert_eq!(
        verify_suite_environment(&published, false),
        Err(EnvironmentFault::Endpoint)
    );
    assert_eq!(object_store_name("local", "https://t3.storage.dev"), "local");
    assert!(is_tigris_endpoint("https://fly.storage.tigris.dev"));
    assert!(!is_tigris_endpoint("https://s3.amazonaws.com"));
}

#[test]
fn host_counters_are_read_from_their_files() {
    let disks = "   8       0 sda 10 0 20 0 30 0 40 0 0 0 0\n   \
                 8       1 sda1 1 0 2 0 3 0 4 0 0 0 0\n \
                 259       0 nvme0n1 5 0 6 0 7 0 8 0 0 0 0\nshort line\n";
    let totals = linux_disk_totals(disks);
    assert_eq!(totals.read_operations, 15);
    assert_eq!(totals.read_bytes, 26 * 512);
    assert_eq!(totals.write_operations, 37);
    assert_eq!(totals.write_bytes, 48 * 512);
    assert!(is_physical_disk("nvme0n1") && !is_physical_disk("nvme0n1p1"));
    assert!(is_physical_disk("sda") && !is_physical_disk("sda1"));
    assert!(!is_physical_disk("loop0"));
    assert_eq!(
        linux_io_operations("rchar: 1\nsyscr: 7\nsyscw: 9\n"),
        (7, 9)
    );
    let interface = |name: &str, received: u64, sent: u64| InterfaceTotals {
        name: text(name),
        received,
        sent,
    };
    assert_eq!(
        network_totals(&vec![interface("lo", 100, 100), interface("eth0", 3, 4)]),
        (3, 4)
    );
    assert_eq!(
        counter_value(&vec![
            MetricReading::Counter(3),
            MetricReading::Histogram,
            MetricReading::Counter(4)
        ]),
        7
    );
}
