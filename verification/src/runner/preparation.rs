//! The course of a preparation phase, from stored results to the new checkpoint.

use crate::config::{ResolvedConfig, Task};
use crate::count;
use crate::model::{
    CheckpointReference, Environment, GoldenDatasetMetadata, PreparationResult,
    ResultConfiguration, SourceIdentity,
};
use crate::runner::checkpoint::{
    dataset_metadata, validate_uncompacted_checkpoint, CheckpointFault, LevelShape,
};
use crate::runner::checkpoint;
use crate::runner::matching;
use crate::runner::matching::{
    checkpoints_agree, ensure_preparation_matches, ensure_shared_configuration, ExecutionArgs,
    Mismatch, SharedFault,
};
use crate::runner::workload::Measured;
use crate::suite::golden::LoadSettings;
use crate::text::same_text;
use crate::validation;
use crate::validation::{validate_preparation_result, AverageVerdicts, Fault};
use vstd::prelude::*;

verus! {

/// Why a preparation phase fails.
#[derive(Debug, Clone, Copy, PartialEq, Eq, Structural)]
pub enum PreparationError {
    BulkLoadMissing,
    BulkLoadInvalid(Fault),
    BulkLoadDoesNotFit(SharedFault),
    BulkLoadFromOtherBuild,
    BulkLoadCheckpoint(CheckpointFault),
    ExistingInvalid(Fault),
    ExistingBelongsElsewhere(Mismatch),
    ExistingCheckpoint(CheckpointFault),
    MeasurementFailed,
    CloseFailed,
    ApplicationErrors(u64),
    Checkpoint(CheckpointFault),
    ResultInvalid(Fault),
}

/// Returns the settings under which a dataset is loaded: without compaction, and without a limit
/// on tables that were not compacted. The log and the flush interval stay as they are.
pub fn bulk_load_config(settings: &LoadSettings) -> (r: LoadSettings)
    ensures
        r == (LoadSettings {
            flush_interval_ms: settings.flush_interval_ms,
            wal_enabled: settings.wal_enabled,
            compactor: false,
            l0_max_ssts: u32::MAX as u64,
            l0_max_ssts_per_key: u32::MAX as u64,
        }),
{
    LoadSettings {
        flush_interval_ms: settings.flush_interval_ms,
        wal_enabled: settings.wal_enabled,
        compactor: false,
        l0_max_ssts: u32::MAX as u64,
        l0_max_ssts_per_key: u32::MAX as u64,
    }
}

/// What is to be done next.
#[derive(Debug, Clone, Copy, PartialEq, Eq, Structural)]
pub enum PreparationAction {
    /// Load the result of the bulk load.
    LoadBulkLoad,
    /// Compare the bulk load's checkpoint with its database, and look at its levels.
    VerifyBulkLoad,
    /// Load the result that an earlier run stored.
    LoadExisting,
    /// Compare the stored result's checkpoint with its database.
    VerifyExisting,
    /// Write the stored result out, and end.
    Reuse,
    /// Delete what an earlier run left behind.
    Clear,
    /// Load the dataset into a new database, then close it.
    LoadDataset,
    /// Clone the bulk load's checkpoint, wait for compaction to settle, then close the clone.
    Compact,
    /// Make a checkpoint of the database.
    MakeCheckpoint,
    /// Store the result.
    Store,
    /// Fail.
    Fail(PreparationError),
}

/// Where a phase stands.
#[derive(Debug, Clone, Copy, PartialEq, Eq, Structural)]
pub enum PreparationStage {
    LoadingBulkLoad,
    VerifyingBulkLoad,
    LoadingExisting,
    VerifyingExisting,
    Clearing,
    Measuring,
    Checkpointing,
    Storing,
    Ended,
}

/// What is wrong with a bulk load that compaction is to start from.
pub open spec fn bulk_load_fault(
    bulk: Option<PreparationResult>,
    config: &ResolvedConfig,
    source: &SourceIdentity,
    verdicts: &AverageVerdicts,
) -> Option<PreparationError> {
    match bulk {
        None => Some(PreparationError::BulkLoadMissing),
        Some(result) => {
            let fault = validation::preparation_fault(
                &result,
                verdicts,
                validation::preparation_readings(&result),
            );
            if fault is Some {
                Some(PreparationError::BulkLoadInvalid(fault->0))
            } else if matching::shared_fault(result.configuration, *config) is Some {
                Some(
                    PreparationError::BulkLoadDoesNotFit(
                        matching::shared_fault(result.configuration, *config)->0,
                    ),
                )
            } else if result.source.slate_commit@ != source.slate_commit@ {
                Some(PreparationError::BulkLoadFromOtherBuild)
            } else {
                None
            }
        },
    }
}

/// What keeps a stored result from being used again.
pub open spec fn existing_fault(
    existing: PreparationResult,
    args: &ExecutionArgs,
    config: &ResolvedConfig,
    source: &SourceIdentity,
    origin: Option<CheckpointReference>,
    verdicts: &AverageVerdicts,
) -> Option<PreparationError> {
    let fault = validation::preparation_fault(
        &existing,
        verdicts,
        validation::preparation_readings(&existing),
    );
    let mismatch = matching::preparation_mismatch(&existing, args, config, source);
    if fault is Some {
        Some(PreparationError::ExistingInvalid(fault->0))
    } else if mismatch is Some {
        Some(PreparationError::ExistingBelongsElsewhere(mismatch->0))
    } else if origin is Some && !(existing.source_checkpoint is Some && matching::same_checkpoint(
        existing.source_checkpoint->0,
        origin->0,
    )) {
        Some(PreparationError::ExistingBelongsElsewhere(Mismatch::Checkpoint))
    } else {
        None
    }
}

/// What is wrong with a checkpoint and, where its levels matter, with its levels.
pub open spec fn checkpoint_error(
    verified: Result<(), CheckpointFault>,
    levels_matter: bool,
    levels: Seq<LevelShape>,
) -> Option<CheckpointFault> {
    if verified is Err {
        Some(verified->Err_0)
    } else if !levels_matter {
        None
    } else if !checkpoint::has_l0(levels) {
        Some(CheckpointFault::NoL0Tables)
    } else if checkpoint::has_sorted_runs(levels) {
        Some(CheckpointFault::SortedRuns)
    } else {
        None
    }
}

fn find_checkpoint_error(
    verified: Result<(), CheckpointFault>,
    levels_matter: bool,
    levels: &Vec<LevelShape>,
) -> (r: Option<CheckpointFault>)
    ensures
        r == checkpoint_error(verified, levels_matter, levels@),
{
    match verified {
        Err(fault) => Some(fault),
        Ok(()) => {
            if !levels_matter {
                return None;
            }
            match validate_uncompacted_checkpoint(levels) {
                Err(fault) => Some(fault),
                Ok(()) => None,
            }
        },
    }
}

/// One preparation phase: the bulk load or the compaction.
pub struct PreparationRun {
    args: ExecutionArgs,
    config: ResolvedConfig,
    source: SourceIdentity,
    environment: Environment,
    origin: Option<CheckpointReference>,
    checkpoint: Option<CheckpointReference>,
    stage: PreparationStage,
}

impl PreparationRun {
    /// The configuration's names are in order, and the phase is one of preparation.
    pub closed spec fn wf(&self) -> bool {
        self.config.task.wf() && self.args.task.prepares()
    }

    pub closed spec fn args(&self) -> ExecutionArgs {
        self.args
    }

    pub closed spec fn config(&self) -> ResolvedConfig {
        self.config
    }

    pub closed spec fn source(&self) -> SourceIdentity {
        self.source
    }

    pub closed spec fn environment(&self) -> Environment {
        self.environment
    }

    /// The bulk load's checkpoint, once compaction has it.
    pub closed spec fn origin(&self) -> Option<CheckpointReference> {
        self.origin
    }

    /// The checkpoint that the phase made.
    pub closed spec fn made(&self) -> Option<CheckpointReference> {
        self.checkpoint
    }

    pub closed spec fn stage(&self) -> PreparationStage {
        self.stage
    }

    /// Whether another state belongs to the same phase.
    pub open spec fn continues(&self, before: &Self) -> bool {
        &&& self.wf()
        &&& self.args() == before.args()
        &&& self.config() == before.config()
        &&& self.source() == before.source()
        &&& self.environment() == before.environment()
    }

    /// Starts a phase, and says what is to be done first.
    pub fn start(
        args: ExecutionArgs,
        config: ResolvedConfig,
        source: SourceIdentity,
        environment: Environment,
    ) -> (r: (Self, PreparationAction))
        requires
            args.task.prepares(),
            config.task.wf(),
        ensures
            r.0.wf(),
            r.0.args() == args,
            r.0.config() == config,
            r.0.source() == source,
            r.0.environment() == environment,
            r.0.origin() is None,
            r.0.made() is None,
            (r.0.stage(), r.1) == (if args.task == Task::BulkLoad {
                (PreparationStage::LoadingExisting, PreparationAction::LoadExisting)
            } else {
                (PreparationStage::LoadingBulkLoad, PreparationAction::LoadBulkLoad)
            }),
    {
        let loads = args.task == Task::BulkLoad;
        let (stage, action) = if loads {
            (PreparationStage::LoadingExisting, PreparationAction::LoadExisting)
        } else {
            (PreparationStage::LoadingBulkLoad, PreparationAction::LoadBulkLoad)
        };
        (
            PreparationRun {
                args,
                config,
                source,
                environment,
                origin: None,
                checkpoint: None,
                stage,
            },
            action,
        )
    }

    fn go(&mut self, stage: PreparationStage, action: PreparationAction) -> (r: PreparationAction)
        requires
            old(self).wf(),
        ensures
            final(self).continues(old(self)),
            final(self).origin() == old(self).origin(),
            final(self).made() == old(self).made(),
            (final(self).stage(), r) == (stage, action),
    {
        self.stage = stage;
        action
    }

    fn fail(&mut self, error: PreparationError) -> (r: PreparationAction)
        requires
            old(self).wf(),
        ensures
            final(self).continues(old(self)),
            final(self).stage() == PreparationStage::Ended,
            r == PreparationAction::Fail(error),
    {
        self.stage = PreparationStage::Ended;
        PreparationAction::Fail(error)
    }

    /// The result of the bulk load was looked for.
    pub fn bulk_load_loaded(
        &mut self,
        bulk: Option<PreparationResult>,
        verdicts: &AverageVerdicts,
    ) -> (r: PreparationAction)
        requires
            old(self).wf(),
            old(self).stage() == PreparationStage::LoadingBulkLoad,
            verdicts.wf(),
            bulk matches Some(b) ==> b.application.wf() && b.object_store.wf(),
        ensures
            final(self).continues(old(self)),
            ({
                let fault = bulk_load_fault(
                    bulk,
                    &old(self).config(),
                    &old(self).source(),
                    verdicts,
                );
                &&& fault is Some ==> final(self).stage() == PreparationStage::Ended && r
                    == PreparationAction::Fail(fault->0)
                &&& fault is None ==> final(self).stage() == PreparationStage::VerifyingBulkLoad
                    && r == PreparationAction::VerifyBulkLoad && final(self).origin() == Some(
                    bulk->0.checkpoint,
                )
            }),
    {
        match bulk {
            None => self.fail(PreparationError::BulkLoadMissing),
            Some(result) => {
                if let Err(fault) = validate_preparation_result(&result, verdicts) {
                    return self.fail(PreparationError::BulkLoadInvalid(fault));
                }
                if let Err(fault) = ensure_shared_configuration(
                    &result.configuration,
                    &self.config,
                ) {
                    return self.fail(PreparationError::BulkLoadDoesNotFit(fault));
                }
                if !same_text(
                    result.source.slate_commit.as_str(),
                    self.source.slate_commit.as_str(),
                ) {
                    return self.fail(PreparationError::BulkLoadFromOtherBuild);
                }
                self.origin = Some(result.checkpoint);
                self.go(PreparationStage::VerifyingBulkLoad, PreparationAction::VerifyBulkLoad)
            },
        }
    }

    /// The bulk load's checkpoint was compared with its database.
    pub fn bulk_load_verified(
        &mut self,
        verified: Result<(), CheckpointFault>,
        levels: &Vec<LevelShape>,
    ) -> (r: PreparationAction)
        requires
            old(self).wf(),
            old(self).stage() == PreparationStage::VerifyingBulkLoad,
        ensures
            final(self).continues(old(self)),
            ({
                let fault = checkpoint_error(verified, true, levels@);
                &&& fault is Some ==> final(self).stage() == PreparationStage::Ended && r
                    == PreparationAction::Fail(PreparationError::BulkLoadCheckpoint(fault->0))
                &&& fault is None ==> final(self).stage() == PreparationStage::LoadingExisting && r
                    == PreparationAction::LoadExisting && final(self).origin() == old(
                    self,
                ).origin()
            }),
    {
        match find_checkpoint_error(verified, true, levels) {
            Some(fault) => self.fail(PreparationError::BulkLoadCheckpoint(fault)),
            None => self.go(PreparationStage::LoadingExisting, PreparationAction::LoadExisting),
        }
    }

    /// A stored result was looked for.
    ///
    /// A stored result that recorded nothing is built again.
    pub fn existing_loaded(
        &mut self,
        existing: &Option<PreparationResult>,
        verdicts: &AverageVerdicts,
    ) -> (r: PreparationAction)
        requires
            old(self).wf(),
            old(self).stage() == PreparationStage::LoadingExisting,
            verdicts.wf(),
            existing matches Some(e) ==> e.application.wf() && e.object_store.wf()
                && e.configuration.task.wf(),
        ensures
            final(self).continues(old(self)),
            existing is None || existing->0.recorded_interval_ns == 0 ==> final(self).stage()
                == PreparationStage::Clearing && r == PreparationAction::Clear
                && final(self).origin() == old(self).origin(),
            existing is Some && existing->0.recorded_interval_ns > 0 ==> {
                let fault = existing_fault(
                    existing->0,
                    &old(self).args(),
                    &old(self).config(),
                    &old(self).source(),
                    old(self).origin(),
                    verdicts,
                );
                &&& fault is Some ==> final(self).stage() == PreparationStage::Ended && r
                    == PreparationAction::Fail(fault->0)
                &&& fault is None ==> final(self).stage() == PreparationStage::VerifyingExisting
                    && r == PreparationAction::VerifyExisting
            },
    {
        let result = match existing {
            None => {
                return self.go(PreparationStage::Clearing, PreparationAction::Clear);
            },
            Some(result) => result,
        };
        if result.recorded_interval_ns == 0 {
            return self.go(PreparationStage::Clearing, PreparationAction::Clear);
        }
        if let Err(fault) = validate_preparation_result(result, verdicts) {
            return self.fail(PreparationError::ExistingInvalid(fault));
        }
        if let Err(mismatch) = ensure_preparation_matches(
            result,
            &self.args,
            &self.config,
            &self.source,
        ) {
            return self.fail(PreparationError::ExistingBelongsElsewhere(mismatch));
        }
        let same_origin = match &self.origin {
            None => true,
            Some(origin) => match &result.source_checkpoint {
                Some(source) => checkpoints_agree(source, origin),
                None => false,
            },
        };
        if !same_origin {
            return self.fail(PreparationError::ExistingBelongsElsewhere(Mismatch::Checkpoint));
        }
        self.go(PreparationStage::VerifyingExisting, PreparationAction::VerifyExisting)
    }

    /// The stored result's checkpoint was compared with its database.
    ///
    /// The levels of a bulk load's checkpoint matter too.
    pub fn existing_verified(
        &mut self,
        verified: Result<(), CheckpointFault>,
        levels: &Vec<LevelShape>,
    ) -> (r: PreparationAction)
        requires
            old(self).wf(),
            old(self).stage() == PreparationStage::VerifyingExisting,
        ensures
            final(self).continues(old(self)),
            final(self).stage() == PreparationStage::Ended,
            r == (match checkpoint_error(
                verified,
                old(self).args().task == Task::BulkLoad,
                levels@,
            ) {
                Some(fault) => PreparationAction::Fail(PreparationError::ExistingCheckpoint(fault)),
                None => PreparationAction::Reuse,
            }),
    {
        let loads = self.args.task == Task::BulkLoad;
        match find_checkpoint_error(verified, loads, levels) {
            Some(fault) => self.fail(PreparationError::ExistingCheckpoint(fault)),
            None => self.go(PreparationStage::Ended, PreparationAction::Reuse),
        }
    }

    /// What an earlier run left behind was deleted.
    pub fn cleared(&mut self) -> (r: PreparationAction)
        requires
            old(self).wf(),
            old(self).stage() == PreparationStage::Clearing,
        ensures
            final(self).continues(old(self)),
            final(self).origin() == old(self).origin(),
            final(self).stage() == PreparationStage::Measuring,
            r == (if old(self).args().task == Task::BulkLoad {
                PreparationAction::LoadDataset
            } else {
                PreparationAction::Compact
            }),
    {
        if self.args.task == Task::BulkLoad {
            self.go(PreparationStage::Measuring, PreparationAction::LoadDataset)
        } else {
            self.go(PreparationStage::Measuring, PreparationAction::Compact)
        }
    }

    /// The phase was measured, and its database closed.
    ///
    /// A failed measurement is reported before a failed close, and that before failed calls.
    pub fn measured(
        &mut self,
        completed: bool,
        closed: bool,
        application_errors: u64,
    ) -> (r: PreparationAction)
        requires
            old(self).wf(),
            old(self).stage() == PreparationStage::Measuring,
        ensures
            final(self).continues(old(self)),
            !completed ==> final(self).stage() == PreparationStage::Ended && r
                == PreparationAction::Fail(PreparationError::MeasurementFailed),
            completed && !closed ==> final(self).stage() == PreparationStage::Ended && r
                == PreparationAction::Fail(PreparationError::CloseFailed),
            completed && closed && application_errors > 0 ==> final(self).stage()
                == PreparationStage::Ended && r == PreparationAction::Fail(
                PreparationError::ApplicationErrors(application_errors),
            ),
            completed && closed && application_errors == 0 ==> final(self).stage()
                == PreparationStage::Checkpointing && r == PreparationAction::MakeCheckpoint
                && final(self).origin() == old(self).origin(),
    {
        if !completed {
            self.fail(PreparationError::MeasurementFailed)
        } else if !closed {
            self.fail(PreparationError::CloseFailed)
        } else if application_errors > 0 {
            self.fail(PreparationError::ApplicationErrors(application_errors))
        } else {
            self.go(PreparationStage::Checkpointing, PreparationAction::MakeCheckpoint)
        }
    }

    /// A checkpoint of the database was made.
    ///
    /// That of a bulk load holds tables, none of them compacted.
    pub fn checkpointed(
        &mut self,
        checkpoint: CheckpointReference,
        levels: &Vec<LevelShape>,
    ) -> (r: PreparationAction)
        requires
            old(self).wf(),
            old(self).stage() == PreparationStage::Checkpointing,
        ensures
            final(self).continues(old(self)),
            ({
                let fault = checkpoint_error(
                    Ok(()),
                    old(self).args().task == Task::BulkLoad,
                    levels@,
                );
                &&& fault is Some ==> final(self).stage() == PreparationStage::Ended && r
                    == PreparationAction::Fail(PreparationError::Checkpoint(fault->0))
                &&& fault is None ==> final(self).stage() == PreparationStage::Storing && r
                    == PreparationAction::Store && final(self).made() == Some(checkpoint)
                    && final(self).origin() == old(self).origin()
            }),
    {
        let loads = self.args.task == Task::BulkLoad;
        if let Some(fault) = find_checkpoint_error(Ok(()), loads, levels) {
            return self.fail(PreparationError::Checkpoint(fault));
        }
        self.checkpoint = Some(checkpoint);
        self.go(PreparationStage::Storing, PreparationAction::Store)
    }

    /// Puts the result together, and checks it.
    pub fn result(self, measured: Measured, verdicts: &AverageVerdicts) -> (r: Result<
        PreparationResult,
        PreparationError,
    >)
        requires
            self.wf(),
            self.stage() == PreparationStage::Storing,
            self.made() is Some,
            verdicts.wf(),
            measured.application.wf(),
            measured.object_store.wf(),
        ensures
            r matches Ok(result) ==> assembled(&self, measured)(result)
                && validation::preparation_fault(
                &result,
                verdicts,
                validation::preparation_readings(&result),
            ) is None,
            r matches Err(e) ==> exists|result: PreparationResult| #[trigger]
                assembled(&self, measured)(result) && ({
                    let fault = validation::preparation_fault(
                        &result,
                        verdicts,
                        validation::preparation_readings(&result),
                    );
                    fault is Some && e == PreparationError::ResultInvalid(fault->0)
                }),
    {
        let ghost run = self;
        let checkpoint = match self.checkpoint {
            Some(checkpoint) => checkpoint,
            None => {
                return Err(PreparationError::MeasurementFailed);
            },
        };
        let dataset = dataset_metadata(&self.config, &checkpoint);
        let result = PreparationResult {
            status: "ok".to_string(),
            task: self.args.task,
            golden_id: self.args.golden,
            timestamp: measured.timestamp,
            source: self.source,
            environment: self.environment,
            configuration: ResultConfiguration::from_resolved(self.config),
            source_checkpoint: self.origin,
            checkpoint,
            dataset,
            recorded_interval_ns: measured.recorded_interval_ns,
            application: measured.application,
            object_store: measured.object_store,
            process: measured.process,
            machine: measured.machine,
        };
        assert(assembled(&run, measured)(result));
        if let Err(fault) = validate_preparation_result(&result, verdicts) {
            return Err(PreparationError::ResultInvalid(fault));
        }
        Ok(result)
    }
}

/// What the result of a phase holds.
pub open spec fn assembled(run: &PreparationRun, measured: Measured) -> spec_fn(
    PreparationResult,
) -> bool {
    |result: PreparationResult|
        {
            &&& result.status@ == "ok"@
            &&& result.task == run.args().task
            &&& result.golden_id == run.args().golden
            &&& result.timestamp == measured.timestamp
            &&& result.source == run.source()
            &&& result.environment == run.environment()
            &&& matching::same_resolved(result.configuration, run.config())
            &&& result.source_checkpoint == run.origin()
            &&& Some(result.checkpoint) == run.made()
            &&& result.dataset == (GoldenDatasetMetadata {
                record_count: run.config().dataset.record_count,
                key_bytes: run.config().dataset.key_bytes,
                value_bytes: run.config().dataset.value_bytes,
                logical_bytes: count::capped_product(
                    run.config().dataset.record_count,
                    run.config().dataset.record_bytes(),
                ),
                live_sst_bytes: result.checkpoint.live_sst_bytes,
            })
            &&& result.recorded_interval_ns == measured.recorded_interval_ns
            &&& result.application == measured.application
            &&& result.object_store == measured.object_store
            &&& result.process == measured.process
            &&& result.machine == measured.machine
        }
}

/// A stored result belongs to a later run of the phase with the same arguments, configuration and
/// builds.
pub proof fn stored_results_belong_to_their_phase(
    run: &PreparationRun,
    measured: Measured,
    result: PreparationResult,
)
    requires
        assembled(run, measured)(result),
        matching::numbers_are_numbers(run.config()),
    ensures
        matching::preparation_mismatch(&result, &run.args(), &run.config(), &run.source()) is None,
        run.origin() is Some ==> matching::same_checkpoint(
            result.source_checkpoint->0,
            run.origin()->0,
        ),
{
    matching::resolved_configurations_agree(result.configuration, run.config());
}

/// A result that was put together with a valid checkpoint has a consistent dataset.
pub proof fn assembled_datasets_are_consistent(
    run: &PreparationRun,
    measured: Measured,
    result: PreparationResult,
)
    requires
        assembled(run, measured)(result),
    ensures
        validation::same_shape(result.configuration.dataset, result.dataset),
        result.dataset.live_sst_bytes == result.checkpoint.live_sst_bytes,
        result.dataset.logical_bytes == count::capped_product(
            result.dataset.record_count,
            crate::workloads::closed::pair_bytes(
                result.dataset.key_bytes,
                result.dataset.value_bytes,
            ),
        ),
{
}

/// A bulk load is compacted only where it exists, is valid, fits the configuration and was made by
/// the same revision of the database.
pub proof fn bulk_loads_are_judged(
    bulk: Option<PreparationResult>,
    config: &ResolvedConfig,
    source: &SourceIdentity,
    verdicts: &AverageVerdicts,
)
    ensures
        bulk_load_fault(bulk, config, source, verdicts) is None <==> {
            &&& bulk is Some
            &&& validation::preparation_fault(
                &bulk->0,
                verdicts,
                validation::preparation_readings(&bulk->0),
            ) is None
            &&& matching::shared_fault(bulk->0.configuration, *config) is None
            &&& bulk->0.source.slate_commit@ == source.slate_commit@
        },
{
}

/// An existing result is taken over only where it is valid, belongs to the phase, and comes of the
/// same checkpoint.
pub proof fn existing_preparations_are_judged(
    existing: PreparationResult,
    args: &ExecutionArgs,
    config: &ResolvedConfig,
    source: &SourceIdentity,
    origin: Option<CheckpointReference>,
    verdicts: &AverageVerdicts,
)
    ensures
        existing_fault(existing, args, config, source, origin, verdicts) is None <==> {
            &&& validation::preparation_fault(
                &existing,
                verdicts,
                validation::preparation_readings(&existing),
            ) is None
            &&& matching::preparation_mismatch(&existing, args, config, source) is None
            &&& origin is Some ==> existing.source_checkpoint is Some && matching::same_checkpoint(
                existing.source_checkpoint->0,
                origin->0,
            )
        },
{
}

/// A bulk load has tables in its first level and no sorted run; otherwise only the checkpoint
/// itself is verified.
pub proof fn bulk_loads_are_uncompacted(
    verified: Result<(), CheckpointFault>,
    levels_matter: bool,
    levels: Seq<LevelShape>,
)
    ensures
        checkpoint_error(verified, levels_matter, levels) is None <==> {
            &&& verified is Ok
            &&& levels_matter ==> (exists|i: int|
                0 <= i < levels.len() && (#[trigger] levels[i]).l0 > 0) && (forall|i: int|
                0 <= i < levels.len() ==> (#[trigger] levels[i]).sorted_runs == 0)
        },
{
    if checkpoint::has_sorted_runs(levels) {
        let i = choose|i: int| 0 <= i < levels.len() && (#[trigger] levels[i]).sorted_runs > 0;
        assert(levels[i].sorted_runs != 0);
    } else {
        assert forall|i: int| 0 <= i < levels.len() implies (#[trigger] levels[i]).sorted_runs
            == 0 by {}
    }
}

} // verus!
