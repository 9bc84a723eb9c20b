//! Results of variants, as they are written down.

use crate::count;
use crate::count::times;
use crate::model::{Environment, SourceIdentity};
use crate::named::Named;
use crate::suite::checks;
use crate::suite::checks::{validate_invariants, ResultFault, SummaryReadings};
use crate::suite::config::VariantConfig;
use crate::suite::encoding::{EncodedHistogram, HistogramsFile};
use crate::suite::records::{
    ApplicationPerformance, BenchmarkConfiguration, CostEstimate, DurabilityPerformance, Identity,
    InitialState, ObjectStoreBaseline, ResourceUse, ResultRecord, SourceFiles, StoragePerformance,
    TimeseriesFile,
};
use vstd::prelude::*;

verus! {

/// What a variant came to.
pub struct WorkloadOutcome {
    pub application: ApplicationPerformance,
    pub durability: DurabilityPerformance,
    pub resources: ResourceUse,
    pub storage: StoragePerformance,
    pub histograms: HistogramsFile,
    pub timeseries: TimeseriesFile,
    pub elapsed_ns: u64,
}

/// What every result of a run has in common, or is known only when it is written.
pub struct ResultFacts {
    pub source: SourceIdentity,
    pub timestamp: String,
    pub environment: Environment,
    pub baseline: ObjectStoreBaseline,
    pub baseline_histograms: Named<EncodedHistogram>,
    pub cost: CostEstimate,
    pub initial_state: InitialState,
    /// The settings of the database, in JSON.
    pub slate_settings: String,
    /// The metadata cache of a profile that does not ask for one.
    pub default_metadata_cache: u64,
    /// Whether the runner was built for debugging.
    pub debug_build: bool,
}

/// A result, with the files beside it.
pub struct VariantResult {
    /// The directory of the result, below that of the run.
    pub directory: String,
    pub result: ResultRecord,
    pub histograms: HistogramsFile,
    pub timeseries: TimeseriesFile,
}

/// The directory of a result, below that of the run.
pub open spec fn result_directory_of(
    version: Seq<char>,
    profile: Seq<char>,
    workload: Seq<char>,
    variant: Seq<char>,
) -> Seq<char> {
    "results/"@ + version + "/"@ + profile + "/"@ + workload + "/"@ + variant
}

/// Returns the directory of a result, below that of the run.
pub fn result_directory(version: &str, profile: &str, workload: &str, variant: &str) -> (r: String)
    ensures
        r@ == result_directory_of(version@, profile@, workload@, variant@),
{
    "results/".to_string().concat(version).concat("/").concat(profile).concat("/").concat(
        workload,
    ).concat("/").concat(variant)
}

/// The features that the database is built with.
pub open spec fn enabled_features() -> Seq<Seq<char>> {
    seq!["aws"@, "foyer"@, "wal_disable"@, "zstd"@]
}

/// Whether an identity is that of a variant.
pub open spec fn identifies(identity: Identity, variant: VariantConfig, facts: ResultFacts) -> bool {
    &&& identity.slate_version@ == facts.source@.slate_version
    &&& identity.slate_commit@ == facts.source@.slate_commit
    &&& identity.runner_version@ == facts.source@.runner_version
    &&& identity.runner_commit@ == facts.source@.runner_commit
    &&& identity.lockfile_sha256@ == facts.source@.lockfile_sha256
    &&& identity.timestamp@ == facts.timestamp@
    &&& identity.profile@ == variant.profile.name@
    &&& identity.workload@ == variant.workload.name@
    &&& identity.variant@ == variant.definition.name@
    &&& identity.mode@ == (if variant.profile.release {
        "published"@
    } else {
        "smoke"@
    })
}

/// An override, or what it overrides.
pub open spec fn or_else<T>(value: Option<T>, default: T) -> T {
    match value {
        Some(v) => v,
        None => default,
    }
}

/// Whether a configuration is that of a variant.
pub open spec fn configures(
    c: BenchmarkConfiguration,
    variant: VariantConfig,
    facts: ResultFacts,
) -> bool {
    let profile = variant.profile;
    let workload = variant.workload;
    &&& c.clients == variant.definition.clients
    &&& c.target_rate == variant.definition.target_rate
    &&& c.warmup_ns == count::capped_product(
        or_else(workload.warmup_ms, profile.warmup_ms),
        1_000_000,
    )
    &&& c.measurement_ns == count::capped_product(
        or_else(workload.measurement_ms, profile.measurement_ms),
        1_000_000,
    )
    &&& c.record_count == or_else(workload.record_count, profile.record_count)
    &&& c.key_bytes == or_else(workload.key_bytes, profile.key_bytes)
    &&& c.value_bytes == or_else(workload.value_bytes, profile.value_bytes)
    &&& c.block_cache_bytes == profile.block_cache_bytes
    &&& c.metadata_cache_bytes == Some(
        or_else(profile.metadata_cache_bytes, facts.default_metadata_cache),
    )
    &&& c.sst_block_bytes == profile.sst_block_bytes
    &&& c.slate_settings@ == facts.slate_settings@
    &&& c.build_profile@ == (if facts.debug_build {
        "debug"@
    } else {
        "release"@
    })
    &&& crate::text::texts(c.enabled_features@) == enabled_features()
}

/// Whether a written result is that of a variant and what it came to.
pub open spec fn assembled(
    r: VariantResult,
    variant: VariantConfig,
    outcome: WorkloadOutcome,
    facts: ResultFacts,
) -> bool {
    &&& r.directory@ == result_directory_of(
        facts.source@.slate_version,
        variant.profile.name@,
        variant.workload.name@,
        variant.definition.name@,
    )
    &&& r.result.schema_version == 1
    &&& identifies(r.result.identity, variant, facts)
    &&& r.result.environment == facts.environment
    &&& r.result.object_store_baseline == facts.baseline
    &&& configures(r.result.configuration, variant, facts)
    &&& r.result.application == outcome.application
    &&& r.result.durability == outcome.durability
    &&& r.result.resources == outcome.resources
    &&& r.result.storage == outcome.storage
    &&& r.result.cost == facts.cost
    &&& r.result.initial_state == facts.initial_state
    &&& r.result.source_files.histograms@ == "histograms.json"@
    &&& r.result.source_files.timeseries@ == "timeseries.json"@
    &&& r.histograms.schema_version == outcome.histograms.schema_version
    &&& r.histograms.encoding == outcome.histograms.encoding
    &&& r.histograms.significant_digits == outcome.histograms.significant_digits
    &&& r.histograms.histograms.wf()
    &&& r.histograms.histograms.map() == outcome.histograms.histograms.map().union_prefer_right(
        facts.baseline_histograms.map(),
    )
    &&& r.timeseries == outcome.timeseries
}

fn configuration_of(variant: &VariantConfig, slate_settings: &String, default_metadata_cache: u64,
    debug_build: bool, facts: Ghost<ResultFacts>) -> (r: BenchmarkConfiguration)
    requires
        facts@.slate_settings == *slate_settings,
        facts@.default_metadata_cache == default_metadata_cache,
        facts@.debug_build == debug_build,
    ensures
        configures(r, *variant, facts@),
{
    let metadata: u64 = match variant.profile.metadata_cache_bytes {
        Some(bytes) => bytes,
        None => default_metadata_cache,
    };
    let enabled = vec![
        "aws".to_string(),
        "foyer".to_string(),
        "wal_disable".to_string(),
        "zstd".to_string(),
    ];
    assert(crate::text::texts(enabled@) =~= enabled_features());
    BenchmarkConfiguration {
        clients: variant.definition.clients,
        target_rate: variant.definition.target_rate,
        warmup_ns: times(variant.warmup_ms(), 1_000_000),
        measurement_ns: times(variant.measurement_ms(), 1_000_000),
        record_count: variant.record_count(),
        key_bytes: variant.key_bytes(),
        value_bytes: variant.value_bytes(),
        block_cache_bytes: variant.profile.block_cache_bytes,
        metadata_cache_bytes: Some(metadata),
        sst_block_bytes: variant.profile.sst_block_bytes,
        slate_settings: slate_settings.clone(),
        build_profile: if debug_build {
            "debug".to_string()
        } else {
            "release".to_string()
        },
        enabled_features: enabled,
    }
}

/// Puts the result of a variant together.
pub fn assemble_result(variant: &VariantConfig, outcome: WorkloadOutcome, facts: ResultFacts) -> (r:
    VariantResult)
    requires
        outcome.histograms.histograms.wf(),
        facts.baseline_histograms.wf(),
    ensures
        assembled(r, *variant, outcome, facts),
{
    let ghost whole = facts;
    let directory = result_directory(
        facts.source.slate_version.as_str(),
        variant.profile.name.as_str(),
        variant.workload.name.as_str(),
        variant.definition.name.as_str(),
    );
    let configuration = configuration_of(
        variant,
        &facts.slate_settings,
        facts.default_metadata_cache,
        facts.debug_build,
        Ghost(whole),
    );
    let mut histograms = outcome.histograms.histograms;
    histograms.extend(facts.baseline_histograms);
    let identity = Identity {
        slate_version: facts.source.slate_version,
        slate_commit: facts.source.slate_commit,
        runner_version: facts.source.runner_version,
        runner_commit: facts.source.runner_commit,
        lockfile_sha256: facts.source.lockfile_sha256,
        timestamp: facts.timestamp,
        profile: variant.profile.name.clone(),
        workload: variant.workload.name.clone(),
        variant: variant.definition.name.clone(),
        mode: variant.profile.mode().to_string(),
    };
    VariantResult {
        directory,
        result: ResultRecord {
            schema_version: 1,
            identity,
            environment: facts.environment,
            object_store_baseline: facts.baseline,
            configuration,
            application: outcome.application,
            durability: outcome.durability,
            resources: outcome.resources,
            storage: outcome.storage,
            cost: facts.cost,
            initial_state: facts.initial_state,
            source_files: SourceFiles {
                histograms: "histograms.json".to_string(),
                timeseries: "timeseries.json".to_string(),
            },
        },
        histograms: HistogramsFile {
            schema_version: outcome.histograms.schema_version,
            encoding: outcome.histograms.encoding,
            significant_digits: outcome.histograms.significant_digits,
            histograms,
        },
        timeseries: outcome.timeseries,
    }
}

/// Whether the collections of what a variant came to are in order.
pub open spec fn outcome_wf(outcome: WorkloadOutcome) -> bool {
    &&& outcome.histograms.histograms.wf()
    &&& outcome.application.return_latency_by_operation.wf()
    &&& forall|k: int|
        0 <= k < outcome.timeseries.slatedb_metrics.len() ==> (
        #[trigger] outcome.timeseries.slatedb_metrics@[k]).labels.wf()
}

/// Puts the result of a variant together, and refuses it where it does not hold together.
///
/// `rate_met` tells that the offered rate is no less than 95% of the target.
pub fn write_variant_result(
    variant: &VariantConfig,
    outcome: WorkloadOutcome,
    facts: ResultFacts,
    rate_met: bool,
) -> (r: Result<VariantResult, ResultFault>)
    requires
        outcome_wf(outcome),
        facts.baseline_histograms.wf(),
    ensures
        exists|w: VariantResult, readings: SummaryReadings|
            {
                &&& #[trigger] assembled(w, *variant, outcome, facts)
                &&& #[trigger] checks::readings_of(
                    readings,
                    w.histograms,
                    w.result.application,
                )
                &&& match checks::invariants_fault(
                    w.result,
                    w.histograms,
                    w.timeseries,
                    readings,
                    rate_met,
                ) {
                    None => r == Ok::<VariantResult, ResultFault>(w),
                    Some(fault) => r == Err::<VariantResult, ResultFault>(fault),
                }
            },
{
    let written = assemble_result(variant, outcome, facts);
    match validate_invariants(
        &written.result,
        &written.histograms,
        &written.timeseries,
        rate_met,
    ) {
        Ok(_) => Ok(written),
        Err(fault) => Err(fault),
    }
}

/// A result is named for the version, profile, workload and variant that it belongs to, and its
/// times are in nanoseconds, the workload's own before the profile's.
pub proof fn results_describe_their_variant(
    r: VariantResult,
    variant: VariantConfig,
    outcome: WorkloadOutcome,
    facts: ResultFacts,
)
    requires
        assembled(r, variant, outcome, facts),
    ensures
        ({
            let c = r.result.configuration;
            let id = r.result.identity;
            let w = variant.workload;
            let p = variant.profile;
            let warmup = if w.warmup_ms is Some {
                w.warmup_ms->0
            } else {
                p.warmup_ms
            };
            let measurement = if w.measurement_ms is Some {
                w.measurement_ms->0
            } else {
                p.measurement_ms
            };
            &&& r.directory@ == "results/"@ + facts.source.slate_version@ + "/"@ + p.name@ + "/"@
                + w.name@ + "/"@ + variant.definition.name@
            &&& id.slate_version@ == facts.source.slate_version@
            &&& id.slate_commit@ == facts.source.slate_commit@
            &&& id.runner_version@ == facts.source.runner_version@
            &&& id.runner_commit@ == facts.source.runner_commit@
            &&& id.lockfile_sha256@ == facts.source.lockfile_sha256@
            &&& id.profile@ == p.name@
            &&& id.workload@ == w.name@
            &&& id.variant@ == variant.definition.name@
            &&& p.release ==> id.mode@ == "published"@
            &&& !p.release ==> id.mode@ == "smoke"@
            &&& c.clients == variant.definition.clients
            &&& c.target_rate == variant.definition.target_rate
            &&& warmup * 1_000_000 <= u64::MAX ==> c.warmup_ns == warmup * 1_000_000
            &&& measurement * 1_000_000 <= u64::MAX ==> c.measurement_ns == measurement * 1_000_000
            &&& w.record_count is Some ==> c.record_count == w.record_count->0
            &&& w.record_count is None ==> c.record_count == p.record_count
            &&& w.key_bytes is Some ==> c.key_bytes == w.key_bytes->0
            &&& w.key_bytes is None ==> c.key_bytes == p.key_bytes
            &&& w.value_bytes is Some ==> c.value_bytes == w.value_bytes->0
            &&& w.value_bytes is None ==> c.value_bytes == p.value_bytes
            &&& c.block_cache_bytes == p.block_cache_bytes
            &&& r.result.application == outcome.application
            &&& r.result.durability == outcome.durability
            &&& r.result.resources == outcome.resources
            &&& r.result.storage == outcome.storage
            &&& r.timeseries == outcome.timeseries
        }),
{
}

} // verus!
