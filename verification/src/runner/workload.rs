//! The course of one workload run, from the golden dataset to the stored result.
//!
//! A run tells what is to be done next, and is told what came of it.

use crate::bits;
use crate::bits::equal;
use crate::config::{ResolvedConfig, ONE};
use crate::digest;
use crate::digest::sha256_bytes;
use crate::host::{verify_environment, EnvironmentFault};
use crate::manifest;
use crate::manifest::{validate_workload_series, SidecarFault};
use crate::model::{
    ApplicationMetrics, CheckpointReference, Environment, InitialState, MachineStatistics,
    ObjectStoreMetrics, PreparationResult, ProcessStatistics, ResultConfiguration,
    SeriesReference, SourceIdentity, WorkloadResult, WorkloadSeries,
};
use crate::runner::checkpoint::CheckpointFault;
use crate::runner::matching;
use crate::runner::matching::{
    ensure_shared_configuration, ensure_workload_matches, validate_series_digest, ExecutionArgs,
    Mismatch, SeriesFault, SharedFault,
};
use crate::text::same_text;
use crate::validation;
use crate::validation::{
    validate_preparation_result, validate_workload_result, AverageVerdicts, Fault,
};
use crate::workloads::execution::{ExecutionError, ExecutionTimes};
use vstd::prelude::*;

verus! {

/// Why a run fails.
#[derive(Debug, Clone, Copy, PartialEq, Eq, Structural)]
pub enum RunError {
    MissingSession,
    GoldenMissing,
    GoldenInvalid(Fault),
    GoldenDoesNotFit(SharedFault),
    GoldenCheckpoint(CheckpointFault),
    ScaledPublication,
    UnfitEnvironment(EnvironmentFault),
    ExistingInvalid(Fault),
    ExistingBelongsElsewhere(Mismatch),
    ExistingSeries(SeriesFault),
    ExistingSeriesInvalid,
    DigestUnavailable,
    CloneDiffers,
    Execution(ExecutionError),
    CloseFailed,
    CompactionFailed,
    ResultInvalid(Fault),
    SeriesInvalid(SidecarFault),
}

/// What is to be done next.
#[derive(Debug, Clone, Copy, PartialEq, Eq, Structural)]
pub enum RunAction {
    /// Load the result of the compaction phase.
    LoadGolden,
    /// Compare the golden checkpoint with its database.
    VerifyGolden,
    /// Load the result that an earlier run stored.
    LoadExisting,
    /// Load the sidecar of the stored result.
    LoadExistingSeries,
    /// Write the stored result and its sidecar out, and end.
    Reuse,
    /// Delete what an earlier run left behind.
    Clear,
    /// Clone the golden checkpoint, then open the clone.
    CloneAndOpen,
    /// Open an empty database.
    OpenEmpty,
    /// Run the workload, close the database and read the compactor's state.
    Execute,
    /// Close the database, then fail.
    CloseThenFail(RunError),
    /// Store the sidecar and the result.
    Store,
    /// Fail.
    Fail(RunError),
}

/// Where a run stands.
#[derive(Debug, Clone, Copy, PartialEq, Eq, Structural)]
pub enum RunStage {
    LoadingGolden,
    VerifyingGolden,
    LoadingExisting,
    LoadingSeries,
    Clearing,
    Opening,
    Executing,
    Storing,
    Ended,
}

/// The checkpoint of a golden dataset.
pub open spec fn golden_checkpoint(golden: Option<PreparationResult>) -> Option<
    CheckpointReference,
> {
    match golden {
        Some(result) => Some(result.checkpoint),
        None => None,
    }
}

/// What keeps a run from publishing.
pub open spec fn publication_fault(
    published: bool,
    config: &ResolvedConfig,
    environment: &Environment,
) -> Option<RunError> {
    if !published {
        None
    } else if !bits::same_number(config.scale, ONE) {
        Some(RunError::ScaledPublication)
    } else {
        match crate::host::environment_fault(*environment) {
            Some(fault) => Some(RunError::UnfitEnvironment(fault)),
            None => None,
        }
    }
}

/// What is wrong with a golden dataset that was loaded.
pub open spec fn golden_load_fault(
    golden: Option<PreparationResult>,
    config: &ResolvedConfig,
    verdicts: &AverageVerdicts,
) -> Option<RunError> {
    match golden {
        None => Some(RunError::GoldenMissing),
        Some(result) => {
            let fault = validation::preparation_fault(
                &result,
                verdicts,
                validation::preparation_readings(&result),
            );
            if fault is Some {
                Some(RunError::GoldenInvalid(fault->0))
            } else if matching::shared_fault(result.configuration, *config) is Some {
                Some(
                    RunError::GoldenDoesNotFit(
                        matching::shared_fault(result.configuration, *config)->0,
                    ),
                )
            } else {
                None
            }
        },
    }
}

/// The state of a run's database before it is opened.
pub open spec fn is_initial_state(
    state: InitialState,
    golden: Option<CheckpointReference>,
    digest: Seq<char>,
) -> bool {
    match golden {
        Some(checkpoint) => {
            &&& state.kind@ == "golden"@
            &&& matching::started_from(state, checkpoint)
        },
        None => {
            &&& state.kind@ == "empty"@
            &&& state.checkpoint_id is None
            &&& state.manifest_id is None
            &&& state.lsm_digest_sha256@ == digest
        },
    }
}

/// What was measured of a workload, in published form.
pub struct Measured {
    pub timestamp: String,
    pub actions_log_url: Option<String>,
    pub recorded_interval_ns: u64,
    pub application: ApplicationMetrics,
    pub object_store: ObjectStoreMetrics,
    pub process: ProcessStatistics,
    pub machine: MachineStatistics,
}

/// One run of a workload.
pub struct WorkloadRun {
    args: ExecutionArgs,
    config: ResolvedConfig,
    source: SourceIdentity,
    environment: Environment,
    published: bool,
    checkpoint: Option<CheckpointReference>,
    existing: Option<WorkloadResult>,
    initial: Option<InitialState>,
    times: Option<ExecutionTimes>,
    stage: RunStage,
}

impl WorkloadRun {
    /// The configuration's names are in order.
    pub closed spec fn wf(&self) -> bool {
        self.config.task.wf()
    }

    pub closed spec fn args(&self) -> ExecutionArgs {
        self.args
    }

    pub closed spec fn config(&self) -> ResolvedConfig {
        self.config
    }

    pub closed spec fn source(&self) -> SourceIdentity {
        self.source
    }

    pub closed spec fn environment(&self) -> Environment {
        self.environment
    }

    pub closed spec fn published(&self) -> bool {
        self.published
    }

    /// The golden checkpoint that the run uses, once it is loaded.
    pub closed spec fn checkpoint(&self) -> Option<CheckpointReference> {
        self.checkpoint
    }

    /// The stored result that was found.
    pub closed spec fn existing(&self) -> Option<WorkloadResult> {
        self.existing
    }

    /// The state of the database at the start, once it is open.
    pub closed spec fn initial(&self) -> Option<InitialState> {
        self.initial
    }

    /// How long the execution took, once it is over.
    pub closed spec fn times(&self) -> Option<ExecutionTimes> {
        self.times
    }

    pub closed spec fn stage(&self) -> RunStage {
        self.stage
    }

    /// Whether another state belongs to the same run.
    pub open spec fn continues(&self, before: &Self) -> bool {
        &&& self.wf()
        &&& self.args() == before.args()
        &&& self.config() == before.config()
        &&& self.source() == before.source()
        &&& self.environment() == before.environment()
        &&& self.published() == before.published()
    }

    /// The stage and action once the golden dataset, if any, is settled.
    pub open spec fn after_golden(&self) -> (RunStage, RunAction) {
        match publication_fault(self.published(), &self.config(), &self.environment()) {
            Some(error) => (RunStage::Ended, RunAction::Fail(error)),
            None => (RunStage::LoadingExisting, RunAction::LoadExisting),
        }
    }

    fn publication_error(&self) -> (r: Option<RunError>)
        ensures
            r == publication_fault(self.published(), &self.config(), &self.environment()),
    {
        if !self.published {
            return None;
        }
        if !equal(self.config.scale, ONE) {
            return Some(RunError::ScaledPublication);
        }
        match verify_environment(&self.environment) {
            Ok(()) => None,
            Err(fault) => Some(RunError::UnfitEnvironment(fault)),
        }
    }

    fn go_on_to_existing(&mut self) -> (r: RunAction)
        requires
            old(self).wf(),
        ensures
            final(self).continues(old(self)),
            final(self).checkpoint() == old(self).checkpoint(),
            (final(self).stage(), r) == old(self).after_golden(),
    {
        match self.publication_error() {
            Some(error) => {
                self.stage = RunStage::Ended;
                RunAction::Fail(error)
            },
            None => {
                self.stage = RunStage::LoadingExisting;
                RunAction::LoadExisting
            },
        }
    }

    /// Starts a run, and says what is to be done first.
    pub fn start(
        args: ExecutionArgs,
        config: ResolvedConfig,
        source: SourceIdentity,
        environment: Environment,
        published: bool,
    ) -> (r: (Self, RunAction))
        requires
            config.task.wf(),
        ensures
            r.0.wf(),
            r.0.args() == args,
            r.0.config() == config,
            r.0.source() == source,
            r.0.environment() == environment,
            r.0.published() == published,
            r.0.checkpoint() is None,
            (r.0.stage(), r.1) == (if args.session is None {
                (RunStage::Ended, RunAction::Fail(RunError::MissingSession))
            } else if args.task.golden() {
                (RunStage::LoadingGolden, RunAction::LoadGolden)
            } else {
                r.0.after_golden()
            }),
    {
        let uses_golden = args.task.uses_golden();
        let named = args.session.is_some();
        let mut run = WorkloadRun {
            args,
            config,
            source,
            environment,
            published,
            checkpoint: None,
            existing: None,
            initial: None,
            times: None,
            stage: RunStage::Ended,
        };
        if !named {
            return (run, RunAction::Fail(RunError::MissingSession));
        }
        if uses_golden {
            run.stage = RunStage::LoadingGolden;
            return (run, RunAction::LoadGolden);
        }
        let action = run.go_on_to_existing();
        (run, action)
    }

    fn fail(&mut self, error: RunError) -> (r: RunAction)
        requires
            old(self).wf(),
        ensures
            final(self).continues(old(self)),
            final(self).stage() == RunStage::Ended,
            r == RunAction::Fail(error),
    {
        self.stage = RunStage::Ended;
        RunAction::Fail(error)
    }

    /// The golden dataset was looked for.
    pub fn golden_loaded(
        &mut self,
        golden: Option<PreparationResult>,
        verdicts: &AverageVerdicts,
    ) -> (r: RunAction)
        requires
            old(self).wf(),
            old(self).stage() == RunStage::LoadingGolden,
            verdicts.wf(),
            golden matches Some(g) ==> g.application.wf() && g.object_store.wf(),
        ensures
            final(self).continues(old(self)),
            ({
                let fault = golden_load_fault(golden, &old(self).config(), verdicts);
                &&& fault is Some ==> final(self).stage() == RunStage::Ended && r
                    == RunAction::Fail(fault->0)
                &&& fault is None ==> final(self).stage() == RunStage::VerifyingGolden && r
                    == RunAction::VerifyGolden && final(self).checkpoint() == golden_checkpoint(
                    golden,
                )
            }),
    {
        match golden {
            None => self.fail(RunError::GoldenMissing),
            Some(result) => {
                if let Err(fault) = validate_preparation_result(&result, verdicts) {
                    return self.fail(RunError::GoldenInvalid(fault));
                }
                if let Err(fault) = ensure_shared_configuration(
                    &result.configuration,
                    &self.config,
                ) {
                    return self.fail(RunError::GoldenDoesNotFit(fault));
                }
                self.checkpoint = Some(result.checkpoint);
                self.stage = RunStage::VerifyingGolden;
                RunAction::VerifyGolden
            },
        }
    }

    /// The golden checkpoint was compared with its database.
    pub fn golden_verified(&mut self, verified: Result<(), CheckpointFault>) -> (r: RunAction)
        requires
            old(self).wf(),
            old(self).stage() == RunStage::VerifyingGolden,
        ensures
            final(self).continues(old(self)),
            verified matches Err(fault) ==> final(self).stage() == RunStage::Ended && r
                == RunAction::Fail(RunError::GoldenCheckpoint(fault)),
            verified is Ok ==> (final(self).stage(), r) == old(self).after_golden()
                && final(self).checkpoint() == old(self).checkpoint(),
    {
        match verified {
            Err(fault) => self.fail(RunError::GoldenCheckpoint(fault)),
            Ok(()) => self.go_on_to_existing(),
        }
    }

    /// A stored result was looked for.
    pub fn existing_loaded(
        &mut self,
        existing: Option<WorkloadResult>,
        verdicts: &AverageVerdicts,
    ) -> (r: RunAction)
        requires
            old(self).wf(),
            old(self).stage() == RunStage::LoadingExisting,
            verdicts.wf(),
            existing matches Some(e) ==> e.application.wf() && e.object_store.wf()
                && e.configuration.task.wf(),
        ensures
            final(self).continues(old(self)),
            existing is None ==> final(self).stage() == RunStage::Clearing && r == RunAction::Clear
                && final(self).checkpoint() == old(self).checkpoint(),
            existing matches Some(e) ==> {
                let fault = validation::workload_fault(
                    &e,
                    verdicts,
                    validation::is_rfc3339(e.timestamp@),
                );
                let mismatch = matching::workload_mismatch(
                    &e,
                    &old(self).args(),
                    &old(self).config(),
                    &old(self).source(),
                    old(self).checkpoint(),
                );
                &&& fault is Some ==> final(self).stage() == RunStage::Ended && r
                    == RunAction::Fail(RunError::ExistingInvalid(fault->0))
                &&& fault is None && mismatch is Some ==> final(self).stage() == RunStage::Ended
                    && r == RunAction::Fail(RunError::ExistingBelongsElsewhere(mismatch->0))
                &&& fault is None && mismatch is None ==> final(self).stage()
                    == RunStage::LoadingSeries && r == RunAction::LoadExistingSeries
                    && final(self).existing() == Some(e)
            },
    {
        match existing {
            None => {
                self.stage = RunStage::Clearing;
                RunAction::Clear
            },
            Some(result) => {
                if let Err(fault) = validate_workload_result(&result, verdicts) {
                    return self.fail(RunError::ExistingInvalid(fault));
                }
                if let Err(mismatch) = ensure_workload_matches(
                    &result,
                    &self.args,
                    &self.config,
                    &self.source,
                    &self.checkpoint,
                ) {
                    return self.fail(RunError::ExistingBelongsElsewhere(mismatch));
                }
                self.existing = Some(result);
                self.stage = RunStage::LoadingSeries;
                RunAction::LoadExistingSeries
            },
        }
    }

    /// The sidecar of the stored result was loaded and, where its digest agrees, read.
    pub fn series_loaded(&mut self, bytes: &[u8], readable_and_valid: bool) -> (r: RunAction)
        requires
            old(self).wf(),
            old(self).stage() == RunStage::LoadingSeries,
            old(self).existing() is Some,
        ensures
            final(self).continues(old(self)),
            final(self).stage() == RunStage::Ended,
            ({
                let fault = matching::series_fault(
                    old(self).existing()->0.series,
                    digest::sha256(bytes@),
                );
                &&& fault is Some ==> r == RunAction::Fail(RunError::ExistingSeries(fault->0))
                &&& fault is None && !readable_and_valid ==> r == RunAction::Fail(
                    RunError::ExistingSeriesInvalid,
                )
                &&& fault is None && readable_and_valid ==> r == RunAction::Reuse
            }),
    {
        let checked = match &self.existing {
            Some(result) => validate_series_digest(&result.series, bytes),
            None => Err(SeriesFault::WrongFile),
        };
        match checked {
            Err(fault) => self.fail(RunError::ExistingSeries(fault)),
            Ok(()) => {
                if readable_and_valid {
                    self.stage = RunStage::Ended;
                    RunAction::Reuse
                } else {
                    self.fail(RunError::ExistingSeriesInvalid)
                }
            },
        }
    }

    /// What an earlier run left behind was deleted.
    pub fn cleared(&mut self) -> (r: RunAction)
        requires
            old(self).wf(),
            old(self).stage() == RunStage::Clearing,
        ensures
            final(self).continues(old(self)),
            final(self).checkpoint() == old(self).checkpoint(),
            final(self).stage() == RunStage::Opening,
            r == (if old(self).checkpoint() is Some {
                RunAction::CloneAndOpen
            } else {
                RunAction::OpenEmpty
            }),
    {
        self.stage = RunStage::Opening;
        if self.checkpoint.is_some() {
            RunAction::CloneAndOpen
        } else {
            RunAction::OpenEmpty
        }
    }

    /// The database was opened, and its layout digested.
    ///
    /// A clone must have the layout of the golden checkpoint.
    pub fn opened(&mut self, actual_digest: Option<String>) -> (r: RunAction)
        requires
            old(self).wf(),
            old(self).stage() == RunStage::Opening,
        ensures
            final(self).continues(old(self)),
            final(self).checkpoint() == old(self).checkpoint(),
            actual_digest is None ==> final(self).stage() == RunStage::Ended && r
                == RunAction::CloseThenFail(RunError::DigestUnavailable),
            actual_digest matches Some(actual) ==> {
                let differs = old(self).checkpoint() is Some && actual@ != old(
                    self,
                ).checkpoint()->0.lsm_digest_sha256@;
                &&& differs ==> final(self).stage() == RunStage::Ended && r
                    == RunAction::CloseThenFail(RunError::CloneDiffers)
                &&& !differs ==> {
                    &&& final(self).stage() == RunStage::Executing
                    &&& r == RunAction::Execute
                    &&& final(self).initial() is Some
                    &&& is_initial_state(
                        final(self).initial()->0,
                        old(self).checkpoint(),
                        actual@,
                    )
                }
            },
    {
        let actual = match actual_digest {
            Some(digest) => digest,
            None => {
                self.stage = RunStage::Ended;
                return RunAction::CloseThenFail(RunError::DigestUnavailable);
            },
        };
        match &self.checkpoint {
            Some(checkpoint) => {
                if !same_text(actual.as_str(), checkpoint.lsm_digest_sha256.as_str()) {
                    self.stage = RunStage::Ended;
                    return RunAction::CloseThenFail(RunError::CloneDiffers);
                }
                self.initial = Some(
                    InitialState {
                        kind: "golden".to_string(),
                        checkpoint_id: Some(checkpoint.checkpoint_id.clone()),
                        manifest_id: Some(checkpoint.manifest_id),
                        lsm_digest_sha256: actual,
                    },
                );
            },
            None => {
                self.initial = Some(
                    InitialState {
                        kind: "empty".to_string(),
                        checkpoint_id: None,
                        manifest_id: None,
                        lsm_digest_sha256: actual,
                    },
                );
            },
        }
        self.stage = RunStage::Executing;
        RunAction::Execute
    }

    /// The workload was executed, the database closed, and the compactor's state read.
    ///
    /// A failed execution is reported before a failed close, and that before a failed compaction.
    pub fn executed(
        &mut self,
        execution: Result<ExecutionTimes, ExecutionError>,
        closed: bool,
        compactions_succeeded: bool,
    ) -> (r: RunAction)
        requires
            old(self).wf(),
            old(self).stage() == RunStage::Executing,
        ensures
            final(self).continues(old(self)),
            final(self).checkpoint() == old(self).checkpoint(),
            final(self).initial() == old(self).initial(),
            execution matches Err(e) ==> final(self).stage() == RunStage::Ended && r
                == RunAction::Fail(RunError::Execution(e)),
            execution is Ok && !closed ==> final(self).stage() == RunStage::Ended && r
                == RunAction::Fail(RunError::CloseFailed),
            execution is Ok && closed && !compactions_succeeded ==> final(self).stage()
                == RunStage::Ended && r == RunAction::Fail(RunError::CompactionFailed),
            execution matches Ok(times) ==> closed && compactions_succeeded ==> final(self).stage()
                == RunStage::Storing && r == RunAction::Store && final(self).times() == Some(times),
    {
        match execution {
            Err(e) => {
                self.stage = RunStage::Ended;
                RunAction::Fail(RunError::Execution(e))
            },
            Ok(times) => {
                if !closed {
                    self.stage = RunStage::Ended;
                    RunAction::Fail(RunError::CloseFailed)
                } else if !compactions_succeeded {
                    self.stage = RunStage::Ended;
                    RunAction::Fail(RunError::CompactionFailed)
                } else {
                    self.times = Some(times);
                    self.stage = RunStage::Storing;
                    RunAction::Store
                }
            },
        }
    }

    /// Puts the result together, and checks it.
    pub fn result(
        self,
        measured: Measured,
        series: &WorkloadSeries,
        series_bytes: &[u8],
        verdicts: &AverageVerdicts,
    ) -> (r: Result<WorkloadResult, RunError>)
        requires
            self.wf(),
            self.stage() == RunStage::Storing,
            self.initial() is Some,
            self.times() is Some,
            self.args().session is Some,
            verdicts.wf(),
            measured.application.wf(),
            measured.object_store.wf(),
            series.application.wf(),
            series.object_store.wf(),
        ensures
            ({
                let assembled = assembled(&self, measured, digest::sha256(series_bytes@));
                &&& r matches Ok(result) ==> assembled(result) && validation::workload_fault(
                    &result,
                    verdicts,
                    validation::is_rfc3339(result.timestamp@),
                ) is None && manifest::sidecar_fault(&result, series) is None
                &&& r matches Err(e) ==> exists|result: WorkloadResult| #[trigger]
                    assembled(result) && ({
                        let fault = validation::workload_fault(
                            &result,
                            verdicts,
                            validation::is_rfc3339(result.timestamp@),
                        );
                        if fault is Some {
                            e == RunError::ResultInvalid(fault->0)
                        } else {
                            Some(e) == (match manifest::sidecar_fault(&result, series) {
                                Some(fault) => Some(RunError::SeriesInvalid(fault)),
                                None => None,
                            })
                        }
                    })
            }),
    {
        let ghost run = self;
        let times = match self.times {
            Some(times) => times,
            None => ExecutionTimes { client_measurement_ns: 0, durability_drain_ns: 0 },
        };
        let initial_state = match self.initial {
            Some(state) => state,
            None => {
                return Err(RunError::DigestUnavailable);
            },
        };
        let session = match self.args.session {
            Some(session) => session,
            None => {
                return Err(RunError::MissingSession);
            },
        };
        let sha256 = sha256_bytes(series_bytes);
        let result = WorkloadResult {
            status: "ok".to_string(),
            task: self.args.task,
            golden_id: self.args.golden,
            session,
            timestamp: measured.timestamp,
            actions_log_url: measured.actions_log_url,
            source: self.source,
            environment: self.environment,
            configuration: ResultConfiguration::from_resolved(self.config),
            initial_state,
            client_measurement_ns: times.client_measurement_ns,
            durability_drain_ns: times.durability_drain_ns,
            recorded_interval_ns: measured.recorded_interval_ns,
            application: measured.application,
            object_store: measured.object_store,
            process: measured.process,
            machine: measured.machine,
            series: SeriesReference { file: "series.json".to_string(), sha256 },
        };
        assert(assembled(&run, measured, digest::sha256(series_bytes@))(result));
        if let Err(fault) = validate_workload_result(&result, verdicts) {
            return Err(RunError::ResultInvalid(fault));
        }
        if let Err(fault) = validate_workload_series(&result, series) {
            return Err(RunError::SeriesInvalid(fault));
        }
        Ok(result)
    }
}

/// What the result of a run holds.
pub open spec fn assembled(run: &WorkloadRun, measured: Measured, digest: Seq<char>) -> spec_fn(
    WorkloadResult,
) -> bool {
    |result: WorkloadResult|
        {
            &&& result.status@ == "ok"@
            &&& result.task == run.args().task
            &&& result.golden_id == run.args().golden
            &&& Some(result.session) == run.args().session
            &&& result.timestamp == measured.timestamp
            &&& result.actions_log_url == measured.actions_log_url
            &&& result.source == run.source()
            &&& result.environment == run.environment()
            &&& matching::same_resolved(result.configuration, run.config())
            &&& Some(result.initial_state) == run.initial()
            &&& result.client_measurement_ns == run.times()->0.client_measurement_ns
            &&& result.durability_drain_ns == run.times()->0.durability_drain_ns
            &&& result.recorded_interval_ns == measured.recorded_interval_ns
            &&& result.application == measured.application
            &&& result.object_store == measured.object_store
            &&& result.process == measured.process
            &&& result.machine == measured.machine
            &&& result.series.file@ == "series.json"@
            &&& result.series.sha256@ == digest
        }
}

/// The sidecar of a stored result is accepted when the result is found again.
pub proof fn stored_series_are_accepted(
    run: &WorkloadRun,
    measured: Measured,
    bytes: Seq<u8>,
    result: WorkloadResult,
)
    requires
        assembled(run, measured, digest::sha256(bytes))(result),
    ensures
        matching::series_fault(result.series, digest::sha256(bytes)) is None,
{
}

/// A stored result belongs to a later run with the same arguments, configuration, builds and golden
/// checkpoint.
pub proof fn stored_results_belong_to_their_run(
    run: &WorkloadRun,
    measured: Measured,
    bytes: Seq<u8>,
    result: WorkloadResult,
    layout: Seq<char>,
)
    requires
        assembled(run, measured, digest::sha256(bytes))(result),
        run.initial() is Some,
        is_initial_state(run.initial()->0, run.checkpoint(), layout),
        matching::numbers_are_numbers(run.config()),
    ensures
        matching::workload_mismatch(
            &result,
            &run.args(),
            &run.config(),
            &run.source(),
            run.checkpoint(),
        ) is None,
{
    matching::resolved_configurations_agree(result.configuration, run.config());
}

/// Only a run at full scale in the published environment may be published.
pub proof fn publications_are_judged(
    published: bool,
    config: &ResolvedConfig,
    environment: &Environment,
)
    ensures
        publication_fault(published, config, environment) is None <==> {
            published ==> bits::same_number(config.scale, 0x3ff0_0000_0000_0000)
                && crate::host::environment_fault(*environment) is None
        },
{
}

/// A workload starts from golden data only where it exists, is valid, and fits the configuration.
pub proof fn golden_data_is_judged(
    golden: Option<PreparationResult>,
    config: &ResolvedConfig,
    verdicts: &AverageVerdicts,
)
    ensures
        golden_load_fault(golden, config, verdicts) is None <==> {
            &&& golden is Some
            &&& validation::preparation_fault(
                &golden->0,
                verdicts,
                validation::preparation_readings(&golden->0),
            ) is None
            &&& matching::shared_fault(golden->0.configuration, *config) is None
        },
{
}

/// A workload that starts from golden data records the checkpoint, the manifest and the digest that
/// it started from, and one that starts empty records none but the digest.
pub proof fn initial_states_are_recorded(
    state: InitialState,
    golden: Option<CheckpointReference>,
    digest: Seq<char>,
)
    requires
        is_initial_state(state, golden, digest),
    ensures
        golden matches Some(checkpoint) ==> {
            &&& state.kind@ == "golden"@
            &&& state.checkpoint_id is Some && state.checkpoint_id->0@ == checkpoint.checkpoint_id@
            &&& state.manifest_id == Some(checkpoint.manifest_id)
            &&& state.lsm_digest_sha256@ == checkpoint.lsm_digest_sha256@
        },
        golden is None ==> {
            &&& state.kind@ == "empty"@
            &&& state.checkpoint_id is None && state.manifest_id is None
            &&& state.lsm_digest_sha256@ == digest
        },
{
}

} // verus!
