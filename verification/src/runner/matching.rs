//! Whether stored results belong to the run at hand.

use crate::bits;
use crate::bits::equal;
use crate::config::{BenchmarkScale, CacheConfig, DatasetConfig, ResolvedConfig, Task, TaskConfig};
use crate::digest;
use crate::digest::sha256_bytes;
use crate::model::{
    CheckpointReference, InitialState, PreparationResult, ResultConfiguration, SeriesReference,
    SourceIdentity, WorkloadResult,
};
use crate::named::Named;
use crate::names;
use crate::names::validate_name;
use crate::text;
use crate::text::same_text;
use vstd::prelude::*;

verus! {

/// What a run was asked to do.
pub struct ExecutionArgs {
    /// Preparation phase or workload.
    pub task: Task,
    /// Identifier of the golden dataset.
    pub golden: String,
    /// Identifier shared by all workloads of a run; preparation has none.
    pub session: Option<String>,
    /// Fraction applied to dataset size and duration.
    pub scale: BenchmarkScale,
    /// Required idle time after the last compaction.
    pub compaction_quiet_ms: u64,
}

/// Why a run's arguments are refused.
#[derive(Debug, Clone, Copy, PartialEq, Eq, Structural)]
pub enum ArgumentFault {
    InvalidGolden,
    UnexpectedSession,
    MissingSession,
    InvalidSession,
}

/// What is wrong with a run's arguments.
pub open spec fn argument_fault(args: &ExecutionArgs) -> Option<ArgumentFault> {
    if !names::is_name(args.golden@) {
        Some(ArgumentFault::InvalidGolden)
    } else if args.task.prepares() {
        if args.session is Some {
            Some(ArgumentFault::UnexpectedSession)
        } else {
            None
        }
    } else if args.session is None {
        Some(ArgumentFault::MissingSession)
    } else if !names::is_name(args.session->0@) {
        Some(ArgumentFault::InvalidSession)
    } else {
        None
    }
}

/// Checks a run's arguments.
pub fn validate_arguments(args: &ExecutionArgs) -> (r: Result<(), ArgumentFault>)
    ensures
        argument_fault(args) matches Some(f) ==> r == Err::<(), ArgumentFault>(f),
        argument_fault(args) is None ==> r == Ok::<(), ArgumentFault>(()),
{
    if validate_name(args.golden.as_str(), "golden").is_err() {
        return Err(ArgumentFault::InvalidGolden);
    }
    if args.task.is_preparation() {
        if args.session.is_some() {
            return Err(ArgumentFault::UnexpectedSession);
        }
        return Ok(());
    }
    match &args.session {
        None => Err(ArgumentFault::MissingSession),
        Some(session) => {
            if validate_name(session.as_str(), "session").is_err() {
                Err(ArgumentFault::InvalidSession)
            } else {
                Ok(())
            }
        },
    }
}

/// The path components, below the root, of what a preparation phase stores.
pub open spec fn golden_components(golden: Seq<char>, task: Task) -> Seq<Seq<char>> {
    seq!["goldens"@, golden, task.label()]
}

/// The path components, below the root, of what a workload stores.
pub open spec fn session_components(session: Seq<char>, task: Task) -> Seq<Seq<char>> {
    seq!["sessions"@, session, task.label()]
}

/// Names the directory of a preparation phase, below the root.
pub fn golden_task_root(golden: &str, task: Task) -> (r: Vec<String>)
    ensures
        text::texts(r@) == golden_components(golden@, task),
{
    let parts: Vec<String> = vec![
        "goldens".to_string(),
        golden.to_string(),
        task.as_str().to_string(),
    ];
    assert(text::texts(parts@) =~= golden_components(golden@, task));
    parts
}

/// Names the directory of a workload, below the root.
pub fn session_task_root(session: &str, task: Task) -> (r: Vec<String>)
    ensures
        text::texts(r@) == session_components(session@, task),
{
    let parts: Vec<String> = vec![
        "sessions".to_string(),
        session.to_string(),
        task.as_str().to_string(),
    ];
    assert(text::texts(parts@) =~= session_components(session@, task));
    parts
}

/// Different phases and workloads store into different directories.
pub proof fn directories_are_distinct(a: Seq<char>, b: Seq<char>, s: Task, t: Task)
    ensures
        golden_components(a, s) == golden_components(b, t) <==> a == b && s == t,
        session_components(a, s) == session_components(b, t) <==> a == b && s == t,
        golden_components(a, s) != session_components(b, t),
{
    if golden_components(a, s) == golden_components(b, t) {
        assert(golden_components(a, s)[1] == golden_components(b, t)[1]);
        assert(golden_components(a, s)[2] == golden_components(b, t)[2]);
    }
    if session_components(a, s) == session_components(b, t) {
        assert(session_components(a, s)[1] == session_components(b, t)[1]);
        assert(session_components(a, s)[2] == session_components(b, t)[2]);
    }
    if s.label() == t.label() {
        crate::config::labels_are_distinct(s, t);
    }
    reveal_strlit("goldens");
    reveal_strlit("sessions");
    assert(golden_components(a, s)[0].len() != session_components(b, t)[0].len());
}

/// Whether two datasets have the same shape.
pub open spec fn same_dataset(a: DatasetConfig, b: DatasetConfig) -> bool {
    a.record_count == b.record_count && a.key_bytes == b.key_bytes && a.value_bytes
        == b.value_bytes && bits::same_number(
        a.value_compression_ratio,
        b.value_compression_ratio,
    )
}

fn datasets_agree(a: &DatasetConfig, b: &DatasetConfig) -> (r: bool)
    ensures
        r == same_dataset(*a, *b),
{
    a.record_count == b.record_count && a.key_bytes == b.key_bytes && a.value_bytes
        == b.value_bytes && equal(a.value_compression_ratio, b.value_compression_ratio)
}

/// Whether two mixes give the same operations the same shares.
pub open spec fn same_mix(a: &Named<u64>, b: &Named<u64>) -> bool {
    &&& a.names() == b.names()
    &&& forall|i: int|
        0 <= i < a.names().len() ==> bits::same_number(
            #[trigger] a.values()[i],
            b.values()[i],
        )
}

fn mixes_agree(a: &Named<u64>, b: &Named<u64>) -> (r: bool)
    requires
        a.wf(),
        b.wf(),
    ensures
        r == same_mix(a, b),
{
    if a.len() != b.len() {
        return false;
    }
    let mut i: usize = 0;
    while i < a.len()
        invariant
            a.wf(),
            b.wf(),
            i <= a.names().len(),
            a.names().len() == b.names().len(),
            forall|k: int| 0 <= k < i ==> #[trigger] a.names()[k] == b.names()[k],
            forall|k: int|
                0 <= k < i ==> bits::same_number(#[trigger] a.values()[k], b.values()[k]),
        decreases a.names().len() - i,
    {
        if !same_text(a.name_at(i).as_str(), b.name_at(i).as_str()) {
            assert(a.names()[i as int] != b.names()[i as int]);
            return false;
        }
        if !equal(*a.value_at(i), *b.value_at(i)) {
            assert(!bits::same_number(a.values()[i as int], b.values()[i as int]));
            return false;
        }
        i += 1;
    }
    assert(a.names() =~= b.names());
    true
}

/// Whether two tasks are configured alike.
pub open spec fn same_task(a: TaskConfig, b: TaskConfig) -> bool {
    &&& a.task == b.task
    &&& a.clients == b.clients
    &&& a.warmup_ms == b.warmup_ms
    &&& a.measurement_ms == b.measurement_ms
    &&& a.initial_state@ == b.initial_state@
    &&& a.key_selection@ == b.key_selection@
    &&& same_mix(&a.operation_mix, &b.operation_mix)
    &&& a.scan_limit == b.scan_limit
    &&& a.transaction_hot_keys == b.transaction_hot_keys
    &&& a.transaction_reads == b.transaction_reads
    &&& a.transaction_updates == b.transaction_updates
}

fn tasks_agree(a: &TaskConfig, b: &TaskConfig) -> (r: bool)
    requires
        a.wf(),
        b.wf(),
    ensures
        r == same_task(*a, *b),
{
    a.task == b.task && a.clients == b.clients && a.warmup_ms == b.warmup_ms && a.measurement_ms
        == b.measurement_ms && same_text(a.initial_state.as_str(), b.initial_state.as_str())
        && same_text(a.key_selection.as_str(), b.key_selection.as_str()) && mixes_agree(
        &a.operation_mix,
        &b.operation_mix,
    ) && a.scan_limit == b.scan_limit && a.transaction_hot_keys == b.transaction_hot_keys
        && a.transaction_reads == b.transaction_reads && a.transaction_updates
        == b.transaction_updates
}

fn lists_agree(a: &Vec<String>, b: &Vec<String>) -> (r: bool)
    ensures
        r == (text::texts(a@) == text::texts(b@)),
{
    let ghost x = text::texts(a@);
    let ghost y = text::texts(b@);
    if a.len() != b.len() {
        assert(x.len() != y.len());
        return false;
    }
    let mut i: usize = 0;
    while i < a.len()
        invariant
            i <= a.len(),
            a.len() == b.len(),
            x == text::texts(a@),
            y == text::texts(b@),
            forall|k: int| 0 <= k < i ==> #[trigger] x[k] == y[k],
        decreases a.len() - i,
    {
        if !same_text(a[i].as_str(), b[i].as_str()) {
            assert(x[i as int] != y[i as int]);
            return false;
        }
        i += 1;
    }
    assert(x =~= y);
    true
}

/// Whether two caches have the same capacities.
pub open spec fn same_caches(a: CacheConfig, b: CacheConfig) -> bool {
    a.block_bytes == b.block_bytes && a.metadata_bytes == b.metadata_bytes
}

/// Whether a published configuration is the one that a run resolved.
pub open spec fn same_configuration(a: ResultConfiguration, b: ResolvedConfig) -> bool {
    &&& bits::same_number(a.scale, b.scale)
    &&& same_dataset(a.dataset, b.dataset)
    &&& same_caches(a.caches, b.caches)
    &&& same_task(a.task, b.task)
    &&& a.slate_settings@ == b.slate_settings@
    &&& a.settings_are_table
    &&& a.slate_default_settings is Some
    &&& a.slate_default_settings->0@ == b.slate_default_settings@
    &&& a.build_profile@ == b.build_profile@
    &&& text::texts(a.enabled_features@) == text::texts(b.enabled_features@)
}

/// Whether a configuration publishes exactly what a run resolved.
pub open spec fn same_resolved(a: ResultConfiguration, b: ResolvedConfig) -> bool {
    &&& a.scale == b.scale
    &&& a.dataset == b.dataset
    &&& a.caches == b.caches
    &&& a.task == b.task
    &&& a.slate_settings == b.slate_settings
    &&& a.settings_are_table
    &&& a.slate_default_settings == Some(b.slate_default_settings)
    &&& a.build_profile == b.build_profile
    &&& a.enabled_features == b.enabled_features
}

fn configurations_agree(a: &ResultConfiguration, b: &ResolvedConfig) -> (r: bool)
    requires
        a.task.wf(),
        b.task.wf(),
    ensures
        r == same_configuration(*a, *b),
{
    let defaults = match &a.slate_default_settings {
        Some(settings) => same_text(settings.as_str(), b.slate_default_settings.as_str()),
        None => false,
    };
    equal(a.scale, b.scale) && datasets_agree(&a.dataset, &b.dataset) && a.caches.block_bytes
        == b.caches.block_bytes && a.caches.metadata_bytes == b.caches.metadata_bytes
        && tasks_agree(&a.task, &b.task) && same_text(
        a.slate_settings.as_str(),
        b.slate_settings.as_str(),
    ) && a.settings_are_table && defaults && same_text(
        a.build_profile.as_str(),
        b.build_profile.as_str(),
    ) && lists_agree(&a.enabled_features, &b.enabled_features)
}

/// Whether the fractional values of a configuration are numbers.
pub open spec fn numbers_are_numbers(config: ResolvedConfig) -> bool {
    &&& !bits::is_nan(config.scale)
    &&& !bits::is_nan(config.dataset.value_compression_ratio)
    &&& forall|i: int|
        0 <= i < config.task.operation_mix.names().len() ==> !bits::is_nan(
            #[trigger] config.task.operation_mix.values()[i],
        )
}

/// A published configuration agrees with the one that it publishes.
pub proof fn resolved_configurations_agree(a: ResultConfiguration, b: ResolvedConfig)
    requires
        same_resolved(a, b),
        numbers_are_numbers(b),
    ensures
        same_configuration(a, b),
{
}

/// Why a golden dataset does not fit a configuration.
#[derive(Debug, Clone, Copy, PartialEq, Eq, Structural)]
pub enum SharedFault {
    Scale,
    Dataset,
    BuildProfile,
    Features,
}

/// What keeps a golden dataset from fitting a configuration.
///
/// Cache sizes and database settings may differ.
pub open spec fn shared_fault(existing: ResultConfiguration, config: ResolvedConfig) -> Option<
    SharedFault,
> {
    if !bits::same_number(existing.scale, config.scale) {
        Some(SharedFault::Scale)
    } else if !same_dataset(existing.dataset, config.dataset) {
        Some(SharedFault::Dataset)
    } else if existing.build_profile@ != config.build_profile@ {
        Some(SharedFault::BuildProfile)
    } else if text::texts(existing.enabled_features@) != text::texts(config.enabled_features@) {
        Some(SharedFault::Features)
    } else {
        None
    }
}

/// Checks that a golden dataset fits a configuration.
pub fn ensure_shared_configuration(existing: &ResultConfiguration, config: &ResolvedConfig) -> (r:
    Result<(), SharedFault>)
    ensures
        shared_fault(*existing, *config) matches Some(f) ==> r == Err::<(), SharedFault>(f),
        shared_fault(*existing, *config) is None ==> r == Ok::<(), SharedFault>(()),
{
    if !equal(existing.scale, config.scale) {
        Err(SharedFault::Scale)
    } else if !datasets_agree(&existing.dataset, &config.dataset) {
        Err(SharedFault::Dataset)
    } else if !same_text(existing.build_profile.as_str(), config.build_profile.as_str()) {
        Err(SharedFault::BuildProfile)
    } else if !lists_agree(&existing.enabled_features, &config.enabled_features) {
        Err(SharedFault::Features)
    } else {
        Ok(())
    }
}

/// Why a stored result belongs to another run.
#[derive(Debug, Clone, Copy, PartialEq, Eq, Structural)]
pub enum Mismatch {
    Task,
    Golden,
    Session,
    RunnerCommit,
    SlateCommit,
    Configuration,
    Checkpoint,
}

/// What sets a stored preparation result apart from a run.
pub open spec fn preparation_mismatch(
    result: &PreparationResult,
    args: &ExecutionArgs,
    config: &ResolvedConfig,
    source: &SourceIdentity,
) -> Option<Mismatch> {
    if result.task != args.task {
        Some(Mismatch::Task)
    } else if result.golden_id@ != args.golden@ {
        Some(Mismatch::Golden)
    } else if result.source.slate_commit@ != source.slate_commit@ {
        Some(Mismatch::SlateCommit)
    } else if !same_configuration(result.configuration, *config) {
        Some(Mismatch::Configuration)
    } else {
        None
    }
}

/// Checks that a stored preparation result belongs to a run.
pub fn ensure_preparation_matches(
    result: &PreparationResult,
    args: &ExecutionArgs,
    config: &ResolvedConfig,
    source: &SourceIdentity,
) -> (r: Result<(), Mismatch>)
    requires
        result.configuration.task.wf(),
        config.task.wf(),
    ensures
        preparation_mismatch(result, args, config, source) matches Some(m) ==> r == Err::<
            (),
            Mismatch,
        >(m),
        preparation_mismatch(result, args, config, source) is None ==> r == Ok::<(), Mismatch>(()),
{
    if result.task != args.task {
        Err(Mismatch::Task)
    } else if !same_text(result.golden_id.as_str(), args.golden.as_str()) {
        Err(Mismatch::Golden)
    } else if !same_text(result.source.slate_commit.as_str(), source.slate_commit.as_str()) {
        Err(Mismatch::SlateCommit)
    } else if !configurations_agree(&result.configuration, config) {
        Err(Mismatch::Configuration)
    } else {
        Ok(())
    }
}

/// Whether a workload started from a checkpoint.
pub open spec fn started_from(state: InitialState, checkpoint: CheckpointReference) -> bool {
    &&& state.checkpoint_id is Some
    &&& state.checkpoint_id->0@ == checkpoint.checkpoint_id@
    &&& state.manifest_id == Some(checkpoint.manifest_id)
    &&& state.lsm_digest_sha256@ == checkpoint.lsm_digest_sha256@
}

/// Tells whether a workload started from a checkpoint.
pub fn starts_from(state: &InitialState, checkpoint: &CheckpointReference) -> (r: bool)
    ensures
        r == started_from(*state, *checkpoint),
{
    let same_id = match &state.checkpoint_id {
        Some(id) => same_text(id.as_str(), checkpoint.checkpoint_id.as_str()),
        None => false,
    };
    let same_manifest = match state.manifest_id {
        Some(id) => id == checkpoint.manifest_id,
        None => false,
    };
    same_id && same_manifest && same_text(
        state.lsm_digest_sha256.as_str(),
        checkpoint.lsm_digest_sha256.as_str(),
    )
}

/// The session of a run, or nothing.
pub open spec fn session_of(args: &ExecutionArgs) -> Seq<char> {
    match args.session {
        Some(session) => session@,
        None => Seq::empty(),
    }
}

/// What sets a stored workload result apart from a run.
pub open spec fn workload_mismatch(
    result: &WorkloadResult,
    args: &ExecutionArgs,
    config: &ResolvedConfig,
    source: &SourceIdentity,
    golden: Option<CheckpointReference>,
) -> Option<Mismatch> {
    if result.task != args.task {
        Some(Mismatch::Task)
    } else if result.golden_id@ != args.golden@ {
        Some(Mismatch::Golden)
    } else if result.session@ != session_of(args) {
        Some(Mismatch::Session)
    } else if result.source.runner_commit@ != source.runner_commit@ {
        Some(Mismatch::RunnerCommit)
    } else if result.source.slate_commit@ != source.slate_commit@ {
        Some(Mismatch::SlateCommit)
    } else if !same_configuration(result.configuration, *config) {
        Some(Mismatch::Configuration)
    } else if golden is Some && !started_from(result.initial_state, golden->0) {
        Some(Mismatch::Checkpoint)
    } else {
        None
    }
}

fn is_session(session: &str, args: &ExecutionArgs) -> (r: bool)
    ensures
        r == (session@ == session_of(args)),
{
    match &args.session {
        Some(expected) => same_text(session, expected.as_str()),
        None => {
            let empty = session.is_empty();
            proof {
                if empty {
                    assert(session@ =~= Seq::<char>::empty());
                }
            }
            empty
        },
    }
}

/// Checks that a stored workload result belongs to a run.
pub fn ensure_workload_matches(
    result: &WorkloadResult,
    args: &ExecutionArgs,
    config: &ResolvedConfig,
    source: &SourceIdentity,
    golden: &Option<CheckpointReference>,
) -> (r: Result<(), Mismatch>)
    requires
        result.configuration.task.wf(),
        config.task.wf(),
    ensures
        workload_mismatch(result, args, config, source, *golden) matches Some(m) ==> r == Err::<
            (),
            Mismatch,
        >(m),
        workload_mismatch(result, args, config, source, *golden) is None ==> r == Ok::<
            (),
            Mismatch,
        >(()),
{
    if result.task != args.task {
        return Err(Mismatch::Task);
    }
    if !same_text(result.golden_id.as_str(), args.golden.as_str()) {
        return Err(Mismatch::Golden);
    }
    if !is_session(result.session.as_str(), args) {
        return Err(Mismatch::Session);
    }
    if !same_text(result.source.runner_commit.as_str(), source.runner_commit.as_str()) {
        return Err(Mismatch::RunnerCommit);
    }
    if !same_text(result.source.slate_commit.as_str(), source.slate_commit.as_str()) {
        return Err(Mismatch::SlateCommit);
    }
    if !configurations_agree(&result.configuration, config) {
        return Err(Mismatch::Configuration);
    }
    if let Some(checkpoint) = golden {
        if !starts_from(&result.initial_state, checkpoint) {
            return Err(Mismatch::Checkpoint);
        }
    }
    Ok(())
}

/// Whether two references are to the same checkpoint.
pub open spec fn same_checkpoint(a: CheckpointReference, b: CheckpointReference) -> bool {
    &&& a.database_path@ == b.database_path@
    &&& a.checkpoint_id@ == b.checkpoint_id@
    &&& a.manifest_id == b.manifest_id
    &&& a.lsm_digest_sha256@ == b.lsm_digest_sha256@
    &&& a.live_sst_bytes == b.live_sst_bytes
}

/// Tells whether two references are to the same checkpoint.
pub fn checkpoints_agree(a: &CheckpointReference, b: &CheckpointReference) -> (r: bool)
    ensures
        r == same_checkpoint(*a, *b),
{
    same_text(a.database_path.as_str(), b.database_path.as_str()) && same_text(
        a.checkpoint_id.as_str(),
        b.checkpoint_id.as_str(),
    ) && a.manifest_id == b.manifest_id && same_text(
        a.lsm_digest_sha256.as_str(),
        b.lsm_digest_sha256.as_str(),
    ) && a.live_sst_bytes == b.live_sst_bytes
}

/// Why a sidecar is refused.
#[derive(Debug, Clone, Copy, PartialEq, Eq, Structural)]
pub enum SeriesFault {
    WrongFile,
    WrongDigest,
}

/// What is wrong with a sidecar, given the digest of its bytes.
pub open spec fn series_fault(reference: SeriesReference, digest: Seq<char>) -> Option<
    SeriesFault,
> {
    if reference.file@ != "series.json"@ {
        Some(SeriesFault::WrongFile)
    } else if digest != reference.sha256@ {
        Some(SeriesFault::WrongDigest)
    } else {
        None
    }
}

/// Checks a reference to a sidecar, given the digest of the sidecar's bytes.
pub fn check_series_digest(reference: &SeriesReference, digest: &str) -> (r: Result<
    (),
    SeriesFault,
>)
    ensures
        series_fault(*reference, digest@) matches Some(f) ==> r == Err::<(), SeriesFault>(f),
        series_fault(*reference, digest@) is None ==> r == Ok::<(), SeriesFault>(()),
{
    if !same_text(reference.file.as_str(), "series.json") {
        Err(SeriesFault::WrongFile)
    } else if !same_text(digest, reference.sha256.as_str()) {
        Err(SeriesFault::WrongDigest)
    } else {
        Ok(())
    }
}

/// Checks a reference to a sidecar against the sidecar's bytes.
pub fn validate_series_digest(reference: &SeriesReference, bytes: &[u8]) -> (r: Result<
    (),
    SeriesFault,
>)
    ensures
        series_fault(*reference, digest::sha256(bytes@)) matches Some(f) ==> r == Err::<
            (),
            SeriesFault,
        >(f),
        series_fault(*reference, digest::sha256(bytes@)) is None ==> r == Ok::<(), SeriesFault>(()),
{
    let digest = sha256_bytes(bytes);
    check_series_digest(reference, digest.as_str())
}

/// A configuration that a run resolved fits a golden dataset made with the same one.
pub proof fn equal_configurations_share_golden_data(
    existing: ResultConfiguration,
    config: ResolvedConfig,
)
    requires
        same_configuration(existing, config),
    ensures
        shared_fault(existing, config) is None,
{
}

/// Whether a golden dataset fits depends neither on cache sizes nor on database settings.
pub proof fn cache_sizes_and_settings_do_not_matter(
    a: ResultConfiguration,
    b: ResultConfiguration,
    config: ResolvedConfig,
)
    requires
        a == (ResultConfiguration {
            caches: a.caches,
            slate_settings: a.slate_settings,
            settings_are_table: a.settings_are_table,
            slate_default_settings: a.slate_default_settings,
            task: a.task,
            ..b
        }),
    ensures
        shared_fault(a, config) == shared_fault(b, config),
{
}

/// A result belongs to a configuration exactly where scale, dataset, caches, task, settings, build
/// and features are the same.
pub proof fn configurations_match_field_by_field(a: ResultConfiguration, b: ResolvedConfig)
    ensures
        same_configuration(a, b) <==> {
            &&& bits::same_number(a.scale, b.scale)
            &&& a.dataset.record_count == b.dataset.record_count
            &&& a.dataset.key_bytes == b.dataset.key_bytes
            &&& a.dataset.value_bytes == b.dataset.value_bytes
            &&& bits::same_number(
                a.dataset.value_compression_ratio,
                b.dataset.value_compression_ratio,
            )
            &&& a.caches.block_bytes == b.caches.block_bytes
            &&& a.caches.metadata_bytes == b.caches.metadata_bytes
            &&& a.task.task == b.task.task
            &&& a.task.clients == b.task.clients
            &&& a.task.warmup_ms == b.task.warmup_ms
            &&& a.task.measurement_ms == b.task.measurement_ms
            &&& a.task.initial_state@ == b.task.initial_state@
            &&& a.task.key_selection@ == b.task.key_selection@
            &&& a.task.operation_mix.names() == b.task.operation_mix.names()
            &&& forall|i: int|
                0 <= i < a.task.operation_mix.names().len() ==> bits::same_number(
                    #[trigger] a.task.operation_mix.values()[i],
                    b.task.operation_mix.values()[i],
                )
            &&& a.task.scan_limit == b.task.scan_limit
            &&& a.task.transaction_hot_keys == b.task.transaction_hot_keys
            &&& a.task.transaction_reads == b.task.transaction_reads
            &&& a.task.transaction_updates == b.task.transaction_updates
            &&& a.slate_settings@ == b.slate_settings@
            &&& a.settings_are_table
            &&& a.slate_default_settings is Some && a.slate_default_settings->0@
                == b.slate_default_settings@
            &&& a.build_profile@ == b.build_profile@
            &&& text::texts(a.enabled_features@) == text::texts(b.enabled_features@)
        },
{
}

/// Golden data fits a configuration exactly where scale, dataset, build and features are the same.
pub proof fn golden_data_fits_field_by_field(existing: ResultConfiguration, config: ResolvedConfig)
    ensures
        shared_fault(existing, config) is None <==> {
            &&& bits::same_number(existing.scale, config.scale)
            &&& existing.dataset.record_count == config.dataset.record_count
            &&& existing.dataset.key_bytes == config.dataset.key_bytes
            &&& existing.dataset.value_bytes == config.dataset.value_bytes
            &&& bits::same_number(
                existing.dataset.value_compression_ratio,
                config.dataset.value_compression_ratio,
            )
            &&& existing.build_profile@ == config.build_profile@
            &&& text::texts(existing.enabled_features@) == text::texts(config.enabled_features@)
        },
{
}

/// An existing preparation is taken over exactly where task, golden dataset, database revision and
/// configuration are the same.
pub proof fn preparations_match_field_by_field(
    result: &PreparationResult,
    args: &ExecutionArgs,
    config: &ResolvedConfig,
    source: &SourceIdentity,
)
    ensures
        preparation_mismatch(result, args, config, source) is None <==> {
            &&& result.task == args.task
            &&& result.golden_id@ == args.golden@
            &&& result.source.slate_commit@ == source.slate_commit@
            &&& same_configuration(result.configuration, *config)
        },
{
}

/// An existing workload result is taken over exactly where task, golden dataset, session, both
/// revisions and the configuration are the same, and it started from the golden checkpoint.
pub proof fn workloads_match_field_by_field(
    result: &WorkloadResult,
    args: &ExecutionArgs,
    config: &ResolvedConfig,
    source: &SourceIdentity,
    golden: Option<CheckpointReference>,
)
    ensures
        workload_mismatch(result, args, config, source, golden) is None <==> {
            &&& result.task == args.task
            &&& result.golden_id@ == args.golden@
            &&& args.session matches Some(session) ==> result.session@ == session@
            &&& args.session is None ==> result.session@.len() == 0
            &&& result.source.runner_commit@ == source.runner_commit@
            &&& result.source.slate_commit@ == source.slate_commit@
            &&& same_configuration(result.configuration, *config)
            &&& golden matches Some(checkpoint) ==> {
                &&& result.initial_state.checkpoint_id is Some
                &&& result.initial_state.checkpoint_id->0@ == checkpoint.checkpoint_id@
                &&& result.initial_state.manifest_id == Some(checkpoint.manifest_id)
                &&& result.initial_state.lsm_digest_sha256@ == checkpoint.lsm_digest_sha256@
            }
        },
{
    if result.session@.len() == 0 {
        assert(result.session@ =~= Seq::<char>::empty());
    }
}

/// Arguments are accepted exactly where the golden dataset is named, and a session is named for a
/// workload and for no preparation.
pub proof fn arguments_are_judged(args: &ExecutionArgs)
    ensures
        argument_fault(args) is None <==> {
            let preparation = args.task == Task::BulkLoad || args.task == Task::Compaction;
            &&& names::is_name(args.golden@)
            &&& preparation ==> args.session is None
            &&& !preparation ==> args.session is Some && names::is_name(args.session->0@)
        },
{
}

/// Two checkpoints are the same exactly where path, identifier, manifest, digest and size are, and
/// a series belongs to its result exactly where file and digest are the recorded ones.
pub proof fn references_match_field_by_field(
    a: CheckpointReference,
    b: CheckpointReference,
    reference: SeriesReference,
    digest: Seq<char>,
)
    ensures
        same_checkpoint(a, b) <==> {
            &&& a.database_path@ == b.database_path@
            &&& a.checkpoint_id@ == b.checkpoint_id@
            &&& a.manifest_id == b.manifest_id
            &&& a.lsm_digest_sha256@ == b.lsm_digest_sha256@
            &&& a.live_sst_bytes == b.live_sst_bytes
        },
        series_fault(reference, digest) is None <==> reference.file@ == "series.json"@ && digest
            == reference.sha256@,
{
}

/// Results are kept apart by golden dataset or session, and by task.
pub proof fn results_are_kept_by_task(golden: Seq<char>, session: Seq<char>, task: Task)
    ensures
        golden_components(golden, task) == seq!["goldens"@, golden, task.label()],
        session_components(session, task) == seq!["sessions"@, session, task.label()],
{
}

} // verus!
