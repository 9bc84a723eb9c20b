use slatedb::config::Settings;
use slatedb_benchmark::config::{
    load, scaled_u64, settings_path_for_task, task_config, workload_settings_name, BenchmarkScale,
    DatasetConfig, ResolvedConfig, ScaleError, ScaledProducts, SettingsSource, Task, TaskConfig,
    TaskConfigError, BLOCK_CACHE_BYTES, CLIENTS, FEW, HALF, KEY_BYTES, METADATA_CACHE_BYTES,
    MIN_BLOCK_CACHE_BYTES, MIN_DURATION_MS, MIN_METADATA_CACHE_BYTES, MOST, ONE, RECORD_COUNT,
    VALUE_BYTES,
};
use slatedb_benchmark::named::Named;
use std::io::Write;
use std::path::{Path, PathBuf};
use tempfile::{NamedTempFile, TempDir};

fn scale_of(text: &str) -> Result<BenchmarkScale, ScaleError> {
    BenchmarkScale::from_text(text, text.parse::<f64>().ok().map(f64::to_bits))
}

fn product(value: u64, scale: BenchmarkScale) -> u64 {
    (value as f64 * f64::from_bits(scale.factor())).round() as u64
}

fn scaled(value: u64, minimum: u64, scale: BenchmarkScale) -> u64 {
    scaled_u64(value, minimum, product(value, scale))
}

fn products(task: Task, scale: BenchmarkScale) -> ScaledProducts {
    let definition = task.definition();
    ScaledProducts {
        record_count: product(RECORD_COUNT, scale),
        block_bytes: product(BLOCK_CACHE_BYTES, scale),
        metadata_bytes: product(METADATA_CACHE_BYTES, scale),
        warmup_ms: product(definition.warmup_ms, scale),
        measurement_ms: product(definition.measurement_ms, scale),
    }
}

fn mix_is_whole(config: &TaskConfig) -> bool {
    let mut sum = 0.0;
    for i in 0..config.operation_mix.len() {
        sum += f64::from_bits(*config.operation_mix.value_at(i));
    }
    (sum - 1.0).abs() <= 1e-9
}

fn resolve(task: Task, scale: BenchmarkScale) -> Result<ResolvedConfig, TaskConfigError> {
    let products = products(task, scale);
    let whole = mix_is_whole(&task_config(task, &products, RECORD_COUNT));
    load(
        task,
        scale,
        &products,
        whole,
        "{}".to_string(),
        "{}".to_string(),
        "release".to_string(),
        "zstd,aws",
    )
}

fn catalog() -> Vec<Task> {
    let mut tasks = vec![Task::BulkLoad, Task::Compaction];
    tasks.extend(Task::workloads());
    tasks
}

fn write_settings(root: &Path, name: &str, contents: &str) -> NamedTempFile {
    let mut file = tempfile::Builder::new()
        .prefix(name)
        .suffix("")
        .rand_bytes(0)
        .tempfile_in(root)
        .expect("create settings");
    file.write_all(contents.as_bytes()).expect("write settings");
    file
}

fn effective_settings(task: Task, shared: &Path) -> Settings {
    let workload: PathBuf = shared.with_file_name(workload_settings_name(task));
    match settings_path_for_task(task, workload.exists(), shared.exists()) {
        SettingsSource::Workload => Settings::from_file(&workload).expect("workload file"),
        SettingsSource::Shared => Settings::from_file(shared).expect("shared file"),
        SettingsSource::Defaults => Settings::default(),
    }
}

#[test]
fn published_configurations_load_and_validate() {
    let small = scale_of("0.01").expect("scale");
    for task in catalog() {
        for scale in [BenchmarkScale::full(), small] {
            if let Err(error) = resolve(task, scale) {
                panic!("loading {} failed: {error:?}", task.as_str());
            }
        }
    }
}

#[test]
fn decimal_scale_applies_factor_and_minimum() {
    let scale = scale_of("0.01").expect("scale");

    assert_eq!(scaled(10_000, 1, scale), 100);
    assert_eq!(scaled(100, 5, scale), 5);
    assert_eq!(scaled(0, 5, scale), 0);
    assert!(!scale.is_full());
    assert!(BenchmarkScale::full().is_full());
    assert!(scale_of("1%").is_err());
}

#[test]
fn workload_settings_replace_shared_settings() {
    let directory = TempDir::new().expect("temporary directory");
    let _shared = write_settings(
        directory.path(),
        "settings.toml",
        "l0_max_ssts = 31\nl0_max_ssts_per_key = 29\n",
    );
    let _workload = write_settings(
        directory.path(),
        "settings.balanced.toml",
        "l0_max_ssts = 63\n",
    );

    let settings = effective_settings(Task::Balanced, &directory.path().join("settings.toml"));

    assert_eq!(settings.l0_max_ssts, 63);
    assert_eq!(
        settings.l0_max_ssts_per_key,
        Settings::default().l0_max_ssts_per_key
    );
}

#[test]
fn workloads_without_settings_use_shared_settings() {
    let directory = TempDir::new().expect("temporary directory");
    let _shared = write_settings(directory.path(), "settings.toml", "l0_max_ssts = 31\n");
    let _workload = write_settings(
        directory.path(),
        "settings.balanced.toml",
        "l0_max_ssts = 63\n",
    );

    let settings = effective_settings(Task::ReadHeavy, &directory.path().join("settings.toml"));

    assert_eq!(settings.l0_max_ssts, 31);
}

#[test]
fn missing_settings_use_slatedb_defaults() {
    let directory = TempDir::new().expect("temporary directory");

    let settings = effective_settings(Task::Balanced, &directory.path().join("settings.toml"));

    assert_eq!(settings.l0_max_ssts, Settings::default().l0_max_ssts);
}

#[test]
fn workload_settings_do_not_require_shared_settings() {
    let directory = TempDir::new().expect("temporary directory");
    let _workload = write_settings(
        directory.path(),
        "settings.balanced.toml",
        "l0_max_ssts = 63\n",
    );

    let settings = effective_settings(Task::Balanced, &directory.path().join("settings.toml"));

    assert_eq!(settings.l0_max_ssts, 63);
}

#[test]
fn preparations_share_the_shared_settings() {
    assert_eq!(
        settings_path_for_task(Task::BulkLoad, true, true),
        SettingsSource::Shared
    );
    assert_eq!(
        settings_path_for_task(Task::Compaction, true, false),
        SettingsSource::Defaults
    );
}

#[test]
fn scales_lie_above_zero_and_at_most_at_one() {
    assert_eq!(scale_of("1").expect("one"), BenchmarkScale::full());
    assert_eq!(scale_of("0.5").expect("half").factor(), 0.5f64.to_bits());
    assert_eq!(scale_of("1%"), Err(ScaleError::Percentage));
    assert_eq!(scale_of("some"), Err(ScaleError::NotANumber));
    for text in ["0", "-0", "-0.5", "1.0001", "inf", "NaN"] {
        assert_eq!(scale_of(text), Err(ScaleError::OutOfRange), "{text}");
    }
    assert_eq!(
        BenchmarkScale::validate(f64::MIN_POSITIVE.to_bits()).map(|scale| scale.is_full()),
        Ok(false)
    );
}

#[test]
fn catalog_constants_are_the_shares_they_name() {
    assert_eq!(f64::from_bits(ONE), 1.0);
    assert_eq!(f64::from_bits(HALF), 0.5);
    assert_eq!(f64::from_bits(MOST), 0.95);
    assert_eq!(f64::from_bits(FEW), 0.05);
}

#[test]
fn scaled_values_stay_between_the_minimum_and_the_value() {
    assert_eq!(scaled_u64(100, 5, 0), 5);
    assert_eq!(scaled_u64(100, 5, 101), 100);
    assert_eq!(scaled_u64(3, 5, 0), 3);
    assert_eq!(scaled_u64(100, 5, 6), 6);
}

#[test]
fn small_runs_keep_the_minimum_caches_and_durations() {
    let scale = scale_of("0.0001").expect("scale");
    let config = resolve(Task::Balanced, scale).expect("balanced");
    assert_eq!(config.dataset.record_count, 30_000);
    assert_eq!(config.caches.block_bytes, MIN_BLOCK_CACHE_BYTES);
    assert_eq!(config.caches.metadata_bytes, MIN_METADATA_CACHE_BYTES);
    assert_eq!(config.task.warmup_ms, MIN_DURATION_MS);
    assert_eq!(config.task.measurement_ms, MIN_DURATION_MS);
    assert_eq!(config.enabled_features, ["zstd", "aws"]);
}

#[test]
fn published_dataset_holds_what_the_readme_says() {
    let config = resolve(Task::Balanced, BenchmarkScale::full()).expect("balanced");
    assert_eq!(config.dataset.record_count, RECORD_COUNT);
    assert_eq!(config.dataset.key_bytes, KEY_BYTES);
    assert_eq!(config.dataset.value_bytes, VALUE_BYTES);
    assert_eq!(config.dataset.logical_bytes(), 126_000_000_000);
    assert_eq!(config.task.clients, CLIENTS);
    assert_eq!(
        f64::from_bits(config.dataset.value_compression_ratio),
        1.0
    );

    let huge = DatasetConfig {
        record_count: u64::MAX,
        key_bytes: 20,
        value_bytes: 400,
        value_compression_ratio: ONE,
    };
    assert_eq!(huge.logical_bytes(), u64::MAX);
}

#[test]
fn task_names_and_kinds_agree() {
    let names: Vec<&str> = catalog().into_iter().map(Task::as_str).collect();
    assert_eq!(
        names,
        [
            "bulk-load",
            "compaction",
            "idle",
            "point-read-uniform",
            "point-read-skewed",
            "point-read-missing",
            "read-heavy",
            "balanced",
            "update-heavy",
            "range-scan",
            "sustained-ingest",
            "transaction-contention",
        ]
    );
    assert!(Task::Compaction.is_preparation());
    assert!(!Task::Idle.is_preparation());
    assert!(Task::Idle.uses_golden());
    assert!(!Task::SustainedIngest.uses_golden());
    assert!(Task::SustainedIngest.may_write());
    assert!(!Task::RangeScan.may_write());
    assert_eq!(
        workload_settings_name(Task::ReadHeavy),
        "settings.read-heavy.toml"
    );
}

fn balanced() -> TaskConfig {
    let scale = BenchmarkScale::full();
    task_config(
        Task::Balanced,
        &products(Task::Balanced, scale),
        RECORD_COUNT,
    )
}

fn contended() -> TaskConfig {
    let scale = BenchmarkScale::full();
    task_config(
        Task::TransactionContention,
        &products(Task::TransactionContention, scale),
        RECORD_COUNT,
    )
}

fn scanning() -> TaskConfig {
    let scale = BenchmarkScale::full();
    task_config(
        Task::RangeScan,
        &products(Task::RangeScan, scale),
        RECORD_COUNT,
    )
}

#[test]
fn every_catalog_violation_is_named() {
    assert_eq!(balanced().validate(true), Ok(()));
    assert_eq!(contended().validate(true), Ok(()));
    assert_eq!(scanning().validate(true), Ok(()));

    let mut config = balanced();
    config.key_selection = "random".to_string();
    assert_eq!(
        config.validate(true),
        Err(TaskConfigError::UnknownKeySelection)
    );

    let mut config = balanced();
    config.operation_mix = Named::new();
    assert_eq!(
        config.validate(true),
        Err(TaskConfigError::MixDisagreesWithActivity)
    );

    let mut config = balanced();
    config.key_selection = "none".to_string();
    assert_eq!(
        config.validate(true),
        Err(TaskConfigError::KeySelectionDisagreesWithActivity)
    );

    let mut config = balanced();
    config.operation_mix.put("delete".to_string(), HALF);
    assert_eq!(config.validate(true), Err(TaskConfigError::UnknownOperation));

    for fraction in [0.0f64, -0.5, f64::NAN, f64::INFINITY] {
        let mut config = balanced();
        config.operation_mix.put("get".to_string(), fraction.to_bits());
        assert_eq!(config.validate(true), Err(TaskConfigError::InvalidFraction));
    }

    assert_eq!(
        balanced().validate(false),
        Err(TaskConfigError::MixDoesNotSumToOne)
    );

    let mut config = balanced();
    config.operation_mix.remove("put");
    assert_eq!(
        config.validate(true),
        Err(TaskConfigError::WritesDisagreeWithTask)
    );

    let mut config = balanced();
    config.transaction_reads = Some(1);
    assert_eq!(
        config.validate(true),
        Err(TaskConfigError::StrayTransactionSettings)
    );

    let mut config = balanced();
    config.scan_limit = Some(1);
    assert_eq!(config.validate(true), Err(TaskConfigError::StrayScanLimit));

    let mut config = scanning();
    config.scan_limit = Some(0);
    assert_eq!(config.validate(true), Err(TaskConfigError::NoScanLimit));
}

#[test]
fn every_transaction_violation_is_named() {
    let mut config = contended();
    config.transaction_hot_keys = None;
    assert_eq!(config.validate(true), Err(TaskConfigError::MissingHotKeys));

    let mut config = contended();
    config.transaction_reads = None;
    assert_eq!(config.validate(true), Err(TaskConfigError::MissingReads));

    let mut config = contended();
    config.transaction_updates = None;
    assert_eq!(config.validate(true), Err(TaskConfigError::MissingUpdates));

    let mut config = contended();
    config.transaction_hot_keys = Some(0);
    assert_eq!(config.validate(true), Err(TaskConfigError::NoHotKeys));

    let mut config = contended();
    config.transaction_reads = Some(usize::MAX);
    assert_eq!(
        config.validate(true),
        Err(TaskConfigError::OperationCountOverflows)
    );

    let mut config = contended();
    config.transaction_reads = Some(0);
    config.transaction_updates = Some(0);
    assert_eq!(
        config.validate(true),
        Err(TaskConfigError::NoTransactionOperations)
    );

    let mut config = contended();
    config.transaction_reads = Some(10_000);
    assert_eq!(
        config.validate(true),
        Err(TaskConfigError::TooManyTransactionOperations)
    );

    let mut config = contended();
    config.transaction_updates = Some(0);
    assert_eq!(
        config.validate(true),
        Err(TaskConfigError::NoTransactionUpdates)
    );

    let mut config = contended();
    config.key_selection = "uniform".to_string();
    assert_eq!(
        config.validate(true),
        Err(TaskConfigError::TransactionOutsideHotSet)
    );
}

#[test]
fn preparation_phases_start_from_no_state() {
    let products = ScaledProducts {
        record_count: 1,
        block_bytes: 1,
        metadata_bytes: 1,
        warmup_ms: 0,
        measurement_ms: 0,
    };
    let state = |task: Task| task_config(task, &products, 1).initial_state;
    assert_eq!(state(Task::BulkLoad), "none");
    assert_eq!(state(Task::Compaction), "none");
    assert_eq!(state(Task::SustainedIngest), "empty");
    assert_eq!(state(Task::Balanced), "golden");
}
