//! Results of a suite, with the series and histograms that support them.
//!
//! Measured numbers that are not whole are carried as their double-precision bit patterns.

use crate::model::Environment;
use crate::named::Named;
use crate::suite::encoding::LatencySummary;
use vstd::prelude::*;

verus! {

/// What a result belongs to.
pub struct Identity {
    pub slate_version: String,
    pub slate_commit: String,
    pub runner_version: String,
    pub runner_commit: String,
    pub lockfile_sha256: String,
    pub timestamp: String,
    pub profile: String,
    pub workload: String,
    pub variant: String,
    pub mode: String,
}

/// What the object store does without a database.
pub struct ObjectStoreBaseline {
    pub measured_at: String,
    pub put_latency: LatencySummary,
    pub get_latency: LatencySummary,
    pub upload_mib_per_second: u64,
    pub download_mib_per_second: u64,
}

/// How a variant was run.
pub struct BenchmarkConfiguration {
    pub clients: Option<usize>,
    pub target_rate: Option<u64>,
    pub warmup_ns: u64,
    pub measurement_ns: u64,
    pub record_count: u64,
    pub key_bytes: usize,
    pub value_bytes: usize,
    pub block_cache_bytes: Option<u64>,
    pub metadata_cache_bytes: Option<u64>,
    pub sst_block_bytes: Option<usize>,
    /// The settings of the database, in JSON.
    pub slate_settings: String,
    pub build_profile: String,
    pub enabled_features: Vec<String>,
}

/// What the application saw.
pub struct ApplicationPerformance {
    pub total_operations: u64,
    pub successful_operations: u64,
    pub accepted_ops_per_second: u64,
    pub completed_ops_per_second: u64,
    pub offered_ops_per_second: Option<u64>,
    pub dropped_operations: Option<u64>,
    pub dropped_ops_per_second: Option<u64>,
    pub payload_mib_per_second: u64,
    pub errors: u64,
    pub return_latency: LatencySummary,
    pub return_latency_by_operation: Named<LatencySummary>,
    pub response_latency: Option<LatencySummary>,
    pub scheduling_delay: Option<LatencySummary>,
    pub batch_latency: Option<LatencySummary>,
    pub key_throughput_per_second: Option<u64>,
    pub transaction_commits: Option<u64>,
    pub transaction_aborts: Option<u64>,
    pub transaction_conflicts: Option<u64>,
    pub transaction_commit_rate: Option<u64>,
    pub transaction_abort_rate: Option<u64>,
    pub transaction_conflict_rate: Option<u64>,
}

/// When writes became durable.
#[derive(Debug, Clone, Copy, PartialEq, Eq, Structural)]
pub struct DurabilityPerformance {
    pub lag: Option<LatencySummary>,
    pub final_flush_drain_ns: Option<u64>,
    pub durable_ops_per_second: Option<u64>,
    pub last_measured_sequence: Option<u64>,
    pub final_durable_sequence: Option<u64>,
}

/// What the machine spent.
#[derive(Debug, Clone, Copy, PartialEq, Eq, Structural)]
pub struct ResourceUse {
    pub average_cpu_percent: u64,
    pub peak_cpu_percent: u64,
    pub peak_rss_bytes: u64,
    pub network_bytes_sent: u64,
    pub network_bytes_received: u64,
    pub disk_bytes_read: u64,
    pub disk_bytes_written: u64,
    pub disk_read_operations: u64,
    pub disk_write_operations: u64,
}

/// A part of a long ingest.
#[derive(Debug, Clone, Copy, PartialEq, Eq, Structural)]
pub struct IngestWindow {
    pub start_offset_ns: u64,
    pub operations: u64,
    pub ops_per_second: u64,
    pub compaction_backlog_bytes: Option<u64>,
    pub write_amplification: Option<u64>,
}

/// What the object store was asked for.
pub struct StoragePerformance {
    pub database_size_bytes: u64,
    pub object_store_requests: Named<u64>,
    pub object_store_errors: u64,
    pub bytes_read: u64,
    pub bytes_written: u64,
    pub compaction_throughput_bytes_per_second: Option<u64>,
    pub write_amplification: Option<u64>,
    pub backpressure_ns: u64,
    pub compaction_backlog_bytes: Option<u64>,
    pub five_minute_windows: Vec<IngestWindow>,
}

/// What a measurement would cost.
pub struct CostEstimate {
    pub price_table_revision: String,
    pub currency: String,
    pub compute: u64,
    pub requests: u64,
    pub storage: u64,
    pub transfer: u64,
    pub total: u64,
    pub compute_per_million_operations: Option<u64>,
    pub requests_per_million_operations: Option<u64>,
    pub storage_per_million_operations: Option<u64>,
    pub transfer_per_million_operations: Option<u64>,
    pub total_per_million_operations: Option<u64>,
}

/// What a variant started from.
pub struct InitialState {
    pub checkpoint_id: Option<String>,
    pub manifest_id: Option<u64>,
    pub lsm_digest_sha256: String,
}

/// The files beside a result.
pub struct SourceFiles {
    pub histograms: String,
    pub timeseries: String,
}

/// The result of a variant.
pub struct ResultRecord {
    pub schema_version: u32,
    pub identity: Identity,
    pub environment: Environment,
    pub object_store_baseline: ObjectStoreBaseline,
    pub configuration: BenchmarkConfiguration,
    pub application: ApplicationPerformance,
    pub durability: DurabilityPerformance,
    pub resources: ResourceUse,
    pub storage: StoragePerformance,
    pub cost: CostEstimate,
    pub initial_state: InitialState,
    pub source_files: SourceFiles,
}

/// A reading of the machine and the store at one time.
pub struct TimeseriesSample {
    pub offset_ns: u64,
    pub operations: u64,
    pub errors: u64,
    pub cpu_percent: u64,
    pub rss_bytes: u64,
    pub network_bytes_sent: u64,
    pub network_bytes_received: u64,
    pub disk_bytes_read: u64,
    pub disk_bytes_written: u64,
    pub disk_read_operations: u64,
    pub disk_write_operations: u64,
    pub database_size_bytes: u64,
    pub object_store_requests: Named<u64>,
    pub object_store_bytes_read: u64,
    pub object_store_bytes_written: u64,
}

/// What kind of value a metric has.
#[derive(Debug, Clone, Copy, PartialEq, Eq, Structural)]
pub enum MetricValueType {
    Counter,
    Gauge,
    UpDownCounter,
    Histogram,
}

/// A number of a document.
#[derive(Debug, Clone, Copy, PartialEq, Eq, Structural)]
pub enum Number {
    /// A whole number that is not negative.
    Whole(u64),
    /// A negative whole number.
    Negative(i64),
    /// The bit pattern of any other number.
    Fraction(u64),
}

/// The distribution that a metric reports.
pub struct MetricHistogramValue {
    pub count: u64,
    pub sum: u64,
    pub min: u64,
    pub max: u64,
    pub bucket_counts: Vec<u64>,
}

/// What a metric reports at one time.
pub enum MetricSeriesValue {
    Scalar(Number),
    Histogram(MetricHistogramValue),
}

/// What a metric reports over time.
pub struct MetricSeries {
    pub name: String,
    pub description: String,
    pub labels: Named<String>,
    pub value_type: MetricValueType,
    pub boundaries: Option<Vec<u64>>,
    pub values: Vec<Option<MetricSeriesValue>>,
}

/// What a metric reports at one time, with its boundaries.
pub enum MetricValue {
    Counter(u64),
    Gauge(i64),
    UpDownCounter(i64),
    Histogram {
        count: u64,
        sum: u64,
        min: u64,
        max: u64,
        boundaries: Vec<u64>,
        bucket_counts: Vec<u64>,
    },
}

/// A metric at one time.
pub struct MetricSnapshot {
    pub name: String,
    pub description: String,
    pub labels: Named<String>,
    pub value: MetricValue,
}

/// The series of a result.
pub struct TimeseriesFile {
    pub schema_version: u32,
    pub interval_ns: u64,
    pub samples: Vec<TimeseriesSample>,
    pub slatedb_metrics: Vec<MetricSeries>,
}

/// A run of a suite.
pub struct SuiteManifest {
    pub schema_version: u32,
    pub status: String,
    pub started_at: String,
    pub finished_at: String,
    pub mode: String,
    pub slate_version: String,
    pub slate_commit: String,
    pub runner_version: String,
    pub runner_commit: String,
    pub lockfile_sha256: String,
    /// The configuration of the suite, in JSON.
    pub resolved_configuration: String,
    pub object_store_baselines: Named<ObjectStoreBaseline>,
    pub results: Vec<String>,
}

} // verus!
