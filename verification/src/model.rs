//! Contracts for golden datasets, workload results, and run bundles.
//!
//! Measured numbers that are not whole are carried as their double-precision bit patterns.

use crate::config::{CacheConfig, DatasetConfig, ResolvedConfig, Task, TaskConfig};
use crate::histogram::LatencyDigest;
use crate::named::Named;
use vstd::prelude::*;

verus! {

/// Source revisions that make a benchmark artifact reproducible.
pub struct SourceIdentity {
    /// SlateDB version label used to group published results.
    pub slate_version: String,
    /// Exact SlateDB Git commit compiled into the runner.
    pub slate_commit: String,
    /// Version of the benchmark runner crate.
    pub runner_version: String,
    /// Exact benchmark-runner Git commit.
    pub runner_commit: String,
    /// SHA-256 digest of the runner's `Cargo.lock`.
    pub lockfile_sha256: String,
}

/// Source revisions as character sequences.
#[verifier::ext_equal]
pub struct SourceView {
    pub slate_version: Seq<char>,
    pub slate_commit: Seq<char>,
    pub runner_version: Seq<char>,
    pub runner_commit: Seq<char>,
    pub lockfile_sha256: Seq<char>,
}

impl View for SourceIdentity {
    type V = SourceView;

    open spec fn view(&self) -> SourceView {
        SourceView {
            slate_version: self.slate_version@,
            slate_commit: self.slate_commit@,
            runner_version: self.runner_version@,
            runner_commit: self.runner_commit@,
            lockfile_sha256: self.lockfile_sha256@,
        }
    }
}

impl SourceIdentity {
    /// Returns the identity made of the values that the build recorded.
    pub fn current(
        slate_version: &str,
        slate_commit: &str,
        runner_version: &str,
        runner_commit: &str,
        lockfile_sha256: &str,
    ) -> (r: Self)
        ensures
            r@ == (SourceView {
                slate_version: slate_version@,
                slate_commit: slate_commit@,
                runner_version: runner_version@,
                runner_commit: runner_commit@,
                lockfile_sha256: lockfile_sha256@,
            }),
    {
        SourceIdentity {
            slate_version: slate_version.to_string(),
            slate_commit: slate_commit.to_string(),
            runner_version: runner_version.to_string(),
            runner_commit: runner_commit.to_string(),
            lockfile_sha256: lockfile_sha256.to_string(),
        }
    }
}

/// Hardware, operating system, and object-store context for a benchmark.
pub struct Environment {
    /// CI runner label or `local`.
    pub runner_type: String,
    /// Hostname reported by the operating system.
    pub hostname: String,
    /// CPU model string.
    pub cpu_model: String,
    /// Number of logical CPU cores visible to the process.
    pub cpu_cores: usize,
    /// Total host memory in bytes.
    pub ram_bytes: u64,
    /// Names and mount points of visible local disks.
    pub local_disk: String,
    /// Operating system name and version.
    pub os: String,
    /// Kernel version.
    pub kernel: String,
    /// Object-store provider name.
    pub object_store: String,
    /// Configured object-store endpoint or provider default.
    pub endpoint: String,
    /// Object-store region.
    pub region: String,
}

/// Immutable checkpoint used as a golden workload starting point.
pub struct CheckpointReference {
    /// Object-store path of the checkpointed database.
    pub database_path: String,
    /// UUID of the detached SlateDB checkpoint.
    pub checkpoint_id: String,
    /// Manifest ID captured by the checkpoint.
    pub manifest_id: u64,
    /// SHA-256 digest of the checkpoint's logical LSM state.
    pub lsm_digest_sha256: String,
    /// Compressed bytes in physical SSTs referenced by the checkpoint.
    pub live_sst_bytes: u64,
}

/// Size and record-shape metadata for a prepared golden dataset.
#[derive(Debug, Clone, Copy, PartialEq, Eq, Structural)]
pub struct GoldenDatasetMetadata {
    /// Number of records loaded.
    pub record_count: u64,
    /// Encoded key size in bytes.
    pub key_bytes: usize,
    /// Generated value size in bytes.
    pub value_bytes: usize,
    /// Total logical bytes loaded before compression.
    pub logical_bytes: u64,
    /// Compressed bytes in live physical SSTs.
    pub live_sst_bytes: u64,
}

/// Published configuration for one preparation phase or workload.
pub struct ResultConfiguration {
    /// Bit pattern of the scale factor applied to catalog defaults.
    pub scale: u64,
    /// Dataset shape used by the task.
    pub dataset: DatasetConfig,
    /// Benchmark-managed cache capacities.
    pub caches: CacheConfig,
    /// Workload behavior and duration.
    pub task: TaskConfig,
    /// Effective SlateDB settings in serialized form.
    pub slate_settings: String,
    /// Whether the settings are a table of named values.
    pub settings_are_table: bool,
    /// SlateDB defaults used to identify explicit overrides.
    pub slate_default_settings: Option<String>,
    /// Rust build profile used for the runner.
    pub build_profile: String,
    /// SlateDB Cargo features enabled in the runner.
    pub enabled_features: Vec<String>,
}

impl ResultConfiguration {
    /// Publishes a resolved configuration.
    pub fn from_resolved(config: ResolvedConfig) -> (r: Self)
        ensures
            r.scale == config.scale,
            r.dataset == config.dataset,
            r.caches == config.caches,
            r.task == config.task,
            r.slate_settings == config.slate_settings,
            r.settings_are_table,
            r.slate_default_settings == Some(config.slate_default_settings),
            r.build_profile == config.build_profile,
            r.enabled_features == config.enabled_features,
    {
        ResultConfiguration {
            scale: config.scale,
            dataset: config.dataset,
            caches: config.caches,
            task: config.task,
            slate_settings: config.slate_settings,
            settings_are_table: true,
            slate_default_settings: Some(config.slate_default_settings),
            build_profile: config.build_profile,
            enabled_features: config.enabled_features,
        }
    }
}

/// Manifest for the compacted dataset shared by golden-backed workloads.
pub struct GoldenManifest {
    /// Completion status; valid manifests use `ok`.
    pub status: String,
    /// Stable golden-dataset identifier.
    pub golden_id: String,
    /// RFC 3339 completion timestamp.
    pub timestamp: String,
    /// Source revisions used to build the dataset.
    pub source: SourceIdentity,
    /// Environment in which preparation ran.
    pub environment: Environment,
    /// Effective compaction-phase configuration.
    pub configuration: ResultConfiguration,
    /// Detached checkpoint cloned by workloads.
    pub checkpoint: CheckpointReference,
    /// Prepared dataset size and record shape.
    pub dataset: GoldenDatasetMetadata,
}

/// Database state observed immediately before a workload starts.
pub struct InitialState {
    /// State kind, either `golden` or `empty`.
    pub kind: String,
    /// Golden checkpoint UUID, absent for an empty database.
    pub checkpoint_id: Option<String>,
    /// Golden manifest ID, absent for an empty database.
    pub manifest_id: Option<u64>,
    /// SHA-256 digest of the initial logical LSM state.
    pub lsm_digest_sha256: String,
}

/// Total and per-window distribution for an operation count.
#[derive(Debug, Clone, Copy, PartialEq, Eq, Structural)]
pub struct RateSummary {
    /// Calls recorded over the full measurement interval.
    pub total: u64,
    /// Full-interval average calls per second.
    pub avg_per_second: u64,
    /// Median of the rate windows.
    pub p50_per_second: u64,
    /// 95th percentile of the rate windows.
    pub p95_per_second: u64,
    /// 99th percentile of the rate windows.
    pub p99_per_second: u64,
    /// 99.9th percentile of the rate windows.
    pub p999_per_second: u64,
    /// Minimum window rate.
    pub min_per_second: u64,
    /// Maximum window rate.
    pub max_per_second: u64,
}

/// Total and per-window distribution for byte throughput.
#[derive(Debug, Clone, Copy, PartialEq, Eq, Structural)]
pub struct ThroughputSummary {
    /// Logical or physical bytes recorded over the full interval.
    pub total_bytes: u64,
    /// Full-interval average bytes per second.
    pub avg_bytes_per_second: u64,
    /// Median window bytes per second.
    pub p50_bytes_per_second: u64,
    /// 95th percentile of window bytes per second.
    pub p95_bytes_per_second: u64,
    /// 99th percentile of window bytes per second.
    pub p99_bytes_per_second: u64,
    /// 99.9th percentile of window bytes per second.
    pub p999_bytes_per_second: u64,
    /// Minimum window bytes per second.
    pub min_bytes_per_second: u64,
    /// Maximum window bytes per second.
    pub max_bytes_per_second: u64,
}

/// HDR-histogram summary of operation latency in nanoseconds.
#[derive(Debug, Clone, Copy, PartialEq, Eq, Structural)]
pub struct LatencySummary {
    /// Number of latency observations.
    pub count: u64,
    /// Bit pattern of the arithmetic mean latency in nanoseconds.
    pub avg_ns: u64,
    /// Median latency in nanoseconds.
    pub p50_ns: u64,
    /// 95th-percentile latency in nanoseconds.
    pub p95_ns: u64,
    /// 99th-percentile latency in nanoseconds.
    pub p99_ns: u64,
    /// 99.9th-percentile latency in nanoseconds.
    pub p999_ns: u64,
    /// Minimum observed latency in nanoseconds.
    pub min_ns: u64,
    /// Maximum observed latency in nanoseconds.
    pub max_ns: u64,
}

impl LatencySummary {
    /// The summary that publishes a digest with a mean in nanoseconds.
    pub open spec fn publishes(self, digest: LatencyDigest, avg_ns: u64) -> bool {
        self == (LatencySummary {
            count: digest.count,
            avg_ns,
            p50_ns: digest.p50_ns,
            p95_ns: digest.p95_ns,
            p99_ns: digest.p99_ns,
            p999_ns: digest.p999_ns,
            min_ns: digest.min_ns,
            max_ns: digest.max_ns,
        })
    }

    /// Publishes a digest, given its mean in nanoseconds.
    pub fn publish(digest: &LatencyDigest, avg_ns: u64) -> (r: Self)
        ensures
            r.publishes(*digest, avg_ns),
    {
        LatencySummary {
            count: digest.count,
            avg_ns,
            p50_ns: digest.p50_ns,
            p95_ns: digest.p95_ns,
            p99_ns: digest.p99_ns,
            p999_ns: digest.p999_ns,
            min_ns: digest.min_ns,
            max_ns: digest.max_ns,
        }
    }
}

/// Distribution summary for sampled measurements.
#[derive(Debug, Clone, Copy, PartialEq, Eq, Structural)]
pub struct DistributionSummary {
    /// Arithmetic mean.
    pub avg: u64,
    /// Median.
    pub p50: u64,
    /// 95th percentile.
    pub p95: u64,
    /// 99th percentile.
    pub p99: u64,
    /// 99.9th percentile.
    pub p999: u64,
    /// Minimum sample.
    pub min: u64,
    /// Maximum sample.
    pub max: u64,
}

impl DistributionSummary {
    /// The summary of no samples.
    pub open spec fn zero() -> Self {
        DistributionSummary { avg: 0, p50: 0, p95: 0, p99: 0, p999: 0, min: 0, max: 0 }
    }
}

impl Default for DistributionSummary {
    fn default() -> (r: Self)
        ensures
            r == DistributionSummary::zero(),
    {
        DistributionSummary { avg: 0, p50: 0, p95: 0, p99: 0, p999: 0, min: 0, max: 0 }
    }
}

/// Application-level operation, throughput, and latency summaries.
pub struct ApplicationMetrics {
    /// Operation name to call-rate summary.
    pub operations: Named<RateSummary>,
    /// Operation name to logical-byte throughput summary.
    pub throughput: Named<ThroughputSummary>,
    /// Operation name to end-to-end latency summary.
    pub latency: Named<LatencySummary>,
}

impl ApplicationMetrics {
    /// The names of each table are in order and none occurs twice.
    pub open spec fn wf(&self) -> bool {
        self.operations.wf() && self.throughput.wf() && self.latency.wf()
    }
}

/// Physical object-store request and body-byte summaries.
pub struct ObjectStoreMetrics {
    /// HTTP method to request-rate summary.
    pub requests: Named<RateSummary>,
    /// HTTP method to response and request body throughput summary.
    pub throughput: Named<ThroughputSummary>,
}

impl ObjectStoreMetrics {
    /// The names of each table are in order and none occurs twice.
    pub open spec fn wf(&self) -> bool {
        self.requests.wf() && self.throughput.wf()
    }
}

/// Distribution of process-level resource samples.
#[derive(Debug, Clone, Copy, PartialEq, Eq, Structural)]
pub struct ProcessStatistics {
    /// CPU cores consumed by the benchmark process.
    pub cpu_cores: DistributionSummary,
    /// Resident set size in bytes.
    pub rss_bytes: DistributionSummary,
}

/// Distribution of host-level resource and I/O samples.
#[derive(Debug, Clone, Copy, PartialEq, Eq, Structural)]
pub struct MachineStatistics {
    /// Host CPU utilization as a percentage.
    pub cpu_percent: DistributionSummary,
    /// Resident set size in bytes.
    pub rss_bytes: DistributionSummary,
    /// Network bytes received per second.
    pub network_receive_bytes_per_second: DistributionSummary,
    /// Network bytes sent per second.
    pub network_send_bytes_per_second: DistributionSummary,
    /// Physical disk bytes read per second.
    pub disk_read_bytes_per_second: DistributionSummary,
    /// Physical disk bytes written per second.
    pub disk_write_bytes_per_second: DistributionSummary,
    /// Physical disk read operations per second.
    pub disk_read_operations_per_second: DistributionSummary,
    /// Physical disk write operations per second.
    pub disk_write_operations_per_second: DistributionSummary,
}

/// Content-addressed reference to a workload sidecar.
pub struct SeriesReference {
    /// Sidecar filename relative to `result.json`.
    pub file: String,
    /// Lowercase SHA-256 digest of the sidecar bytes.
    pub sha256: String,
}

/// Sparse HDR-histogram buckets for one latency metric.
pub struct HistogramSeries {
    /// Inclusive bucket upper bounds in nanoseconds.
    pub upper_bound_ns: Vec<u64>,
    /// Observation counts corresponding to `upper_bound_ns`.
    pub counts: Vec<u64>,
}

/// An amount that was counted over a span of time.
#[derive(Debug, Clone, Copy, PartialEq, Eq, Structural)]
pub struct Rate {
    /// What was counted.
    pub amount: u64,
    /// The span in nanoseconds.
    pub duration_ns: u64,
}

/// Per-window latency digests for one application operation.
///
/// A missing value means the operation had no observations in that window.
pub struct LatencyTimeSeries {
    pub windows: Vec<Option<LatencyDigest>>,
}

/// Application metrics sampled over time.
pub struct ApplicationSeries {
    /// Operation name to calls per rate window.
    pub operations_per_second: Named<Vec<Rate>>,
    /// Operation name to logical bytes per rate window.
    pub bytes_per_second: Named<Vec<Rate>>,
    /// Operation name to latency values per latency window.
    pub latency_ns: Named<LatencyTimeSeries>,
    /// Operation name to full-interval sparse latency histogram.
    pub latency_histograms: Named<HistogramSeries>,
}

impl ApplicationSeries {
    /// The names of each table are in order and none occurs twice.
    pub open spec fn wf(&self) -> bool {
        self.operations_per_second.wf() && self.bytes_per_second.wf() && self.latency_ns.wf()
            && self.latency_histograms.wf()
    }
}

/// Object-store metrics sampled over time.
pub struct ObjectStoreSeries {
    /// HTTP method to requests per rate window.
    pub requests_per_second: Named<Vec<Rate>>,
    /// HTTP method to body bytes per rate window.
    pub bytes_per_second: Named<Vec<Rate>>,
}

impl ObjectStoreSeries {
    /// The names of each table are in order and none occurs twice.
    pub open spec fn wf(&self) -> bool {
        self.requests_per_second.wf() && self.bytes_per_second.wf()
    }
}

/// Process resource samples over time.
pub struct ProcessSeries {
    /// CPU cores consumed in each resource window.
    pub cpu_cores: Vec<u64>,
    /// Resident set size in bytes in each resource window.
    pub rss_bytes: Vec<u64>,
}

/// Host resource and I/O samples over time.
pub struct MachineSeries {
    /// Host CPU utilization percentage per resource window.
    pub cpu_percent: Vec<u64>,
    /// Resident set size in bytes per resource window.
    pub rss_bytes: Vec<u64>,
    /// Network receive rate per resource window.
    pub network_receive_bytes_per_second: Vec<Rate>,
    /// Network send rate per resource window.
    pub network_send_bytes_per_second: Vec<Rate>,
    /// Physical disk read-byte rate per resource window.
    pub disk_read_bytes_per_second: Vec<Rate>,
    /// Physical disk write-byte rate per resource window.
    pub disk_write_bytes_per_second: Vec<Rate>,
    /// Physical disk read-operation rate per resource window.
    pub disk_read_operations_per_second: Vec<Rate>,
    /// Physical disk write-operation rate per resource window.
    pub disk_write_operations_per_second: Vec<Rate>,
}

/// Time-series sidecar associated with one workload result.
pub struct WorkloadSeries {
    /// End of each operation and object-store rate window, relative to sampling start.
    pub rate_elapsed_ns: Vec<u64>,
    /// Duration represented by each rate window.
    pub rate_duration_ns: Vec<u64>,
    /// End of each application-latency window, relative to sampling start.
    pub latency_elapsed_ns: Vec<u64>,
    /// Duration represented by each latency window.
    pub latency_duration_ns: Vec<u64>,
    /// End of each process and machine window, relative to sampling start.
    pub resource_elapsed_ns: Vec<u64>,
    /// Duration represented by each resource window.
    pub resource_duration_ns: Vec<u64>,
    /// Application time-series values.
    pub application: ApplicationSeries,
    /// Object-store time-series values.
    pub object_store: ObjectStoreSeries,
    /// Process time-series values.
    pub process: ProcessSeries,
    /// Host time-series values.
    pub machine: MachineSeries,
}

/// Result and provenance of one preparation phase.
pub struct PreparationResult {
    /// Completion status; valid results use `ok`.
    pub status: String,
    /// Preparation phase represented by this artifact.
    pub task: Task,
    /// Golden dataset identifier.
    pub golden_id: String,
    /// RFC 3339 completion timestamp.
    pub timestamp: String,
    /// Source revisions used to build the runner.
    pub source: SourceIdentity,
    /// Execution environment.
    pub environment: Environment,
    /// Effective phase configuration.
    pub configuration: ResultConfiguration,
    /// Checkpoint that the phase started from.
    pub source_checkpoint: Option<CheckpointReference>,
    /// Checkpoint that the phase created.
    pub checkpoint: CheckpointReference,
    /// Prepared dataset size and record shape.
    pub dataset: GoldenDatasetMetadata,
    /// Total interval covered by summary metrics.
    pub recorded_interval_ns: u64,
    /// Application-level summary metrics.
    pub application: ApplicationMetrics,
    /// Physical object-store summary metrics.
    pub object_store: ObjectStoreMetrics,
    /// Process summary metrics.
    pub process: ProcessStatistics,
    /// Host summary metrics.
    pub machine: MachineStatistics,
}

/// Summarized result and provenance for one benchmark workload.
pub struct WorkloadResult {
    /// Completion status; valid results use `ok`.
    pub status: String,
    /// Workload represented by this artifact.
    pub task: Task,
    /// Golden dataset identifier supplied to the run.
    pub golden_id: String,
    /// Run identifier shared by sibling workloads.
    pub session: String,
    /// RFC 3339 completion timestamp.
    pub timestamp: String,
    /// Job log URL, when available.
    pub actions_log_url: Option<String>,
    /// Source revisions used to build the runner.
    pub source: SourceIdentity,
    /// Execution environment.
    pub environment: Environment,
    /// Effective workload and SlateDB configuration.
    pub configuration: ResultConfiguration,
    /// Database state observed before warmup and measurement.
    pub initial_state: InitialState,
    /// Wall-clock time spent running measured clients.
    pub client_measurement_ns: u64,
    /// Time after clients stopped until all accepted writes became durable.
    pub durability_drain_ns: u64,
    /// Total interval covered by summary metrics.
    pub recorded_interval_ns: u64,
    /// Application-level summary metrics.
    pub application: ApplicationMetrics,
    /// Physical object-store summary metrics.
    pub object_store: ObjectStoreMetrics,
    /// Process summary metrics.
    pub process: ProcessStatistics,
    /// Host summary metrics.
    pub machine: MachineStatistics,
    /// Reference to the workload time-series sidecar.
    pub series: SeriesReference,
}

/// SlateDB patch applied before compiling a benchmark runner.
pub struct AppliedPatch {
    /// Patch filename, which also determines application order.
    pub name: String,
    /// Lowercase SHA-256 digest of the patch contents.
    pub sha256: String,
}

/// Manifest for one versioned collection of workload artifacts.
pub struct RunManifest {
    /// Completion status; valid manifests use `ok`.
    pub status: String,
    /// Run identifier, normally derived from the GitHub Actions run.
    pub run_id: String,
    /// Golden dataset identifier shared by the workloads.
    pub golden_id: String,
    /// RFC 3339 timestamp captured when execution began.
    pub started_at: String,
    /// RFC 3339 timestamp captured when bundling completed.
    pub finished_at: String,
    /// Ordered SlateDB patches applied to the runner.
    pub patches: Vec<AppliedPatch>,
    /// Source identity shared by every workload.
    pub source: SourceIdentity,
    /// Runner commit used to build the golden checkpoint.
    pub golden_runner_commit: String,
    /// Task name to effective published configuration.
    pub resolved_configuration: Named<ResultConfiguration>,
    /// Maximum workload parallelism represented by the bundle.
    pub max_parallel: usize,
    /// Relative artifact path to lowercase SHA-256 digest.
    pub results: Named<String>,
}

} // verus!
