//! Suites that are resumed: what is kept of them, and what they do next.

use crate::digest;
use crate::digest::sha256_joined;
use crate::faults;
use crate::faults::fault_unless;
use crate::model::{Environment, SourceIdentity};
use crate::named::Named;
use crate::names;
use crate::names::validate_name;
use crate::paths;
use crate::paths::append_path;
use crate::suite::config::{ProfileConfig, ProfileExecution, WorkloadConfig, WorkloadKind};
use crate::suite::encoding::EncodedHistogram;
use crate::suite::golden::GoldenDatabase;
use crate::suite::records::ObjectStoreBaseline;
use crate::text;
use crate::text::{padded_decimal, same_text};
use vstd::prelude::*;

verus! {

/// A workload of a session that is done, with the paths of its results.
pub struct CompletedWorkload {
    pub name: String,
    pub results: Vec<String>,
}

/// What is kept of a session.
pub struct SessionState {
    pub session: String,
    pub suite: String,
    pub started_at: String,
    pub slate_version: String,
    pub slate_commit: String,
    pub runner_commit: String,
    pub lockfile_sha256: String,
    pub configuration_sha256: String,
    pub environment: Environment,
    pub object_store_baseline: ObjectStoreBaseline,
    pub baseline_histograms: Named<EncodedHistogram>,
    pub completed: Vec<CompletedWorkload>,
    /// The database after each workload, where they run one after another.
    pub sequential_databases: Vec<GoldenDatabase>,
    /// The database that each dataset starts from, where workloads start from clones.
    pub goldens: Named<GoldenDatabase>,
    pub measurement_complete: bool,
}

/// Why a session cannot go on.
#[derive(Debug, Clone, Copy, PartialEq, Eq, Structural)]
pub enum SessionFault {
    NoSession,
    InvalidName,
    NoSuite,
    SingleVariant,
    SeveralWorkloads,
    OtherSession,
    OtherSuite,
    OtherDatabaseBuild,
    OtherRunnerBuild,
    OtherConfiguration,
    OtherEnvironment,
    TooManyWorkloads,
    OtherResults,
    WrongMarker,
    GoldensInSequence,
    CheckpointsMissing,
    CheckpointsInIsolation,
    NotRequested,
    AllDone,
    OtherWorkload,
    MisplacedLoad,
    NoCheckpoint,
    StateDiffers,
    NothingCompleted,
    OtherOutput,
    OutputNotEmpty,
    NoParent,
    NotRelative,
}

/// Whether two environments are the same machine and store, whatever the host and its kernel are
/// called.
pub open spec fn compatible(a: Environment, b: Environment) -> bool {
    &&& a.runner_type@ == b.runner_type@
    &&& a.cpu_model@ == b.cpu_model@
    &&& a.cpu_cores == b.cpu_cores
    &&& a.ram_bytes == b.ram_bytes
    &&& a.local_disk@ == b.local_disk@
    &&& a.os@ == b.os@
    &&& a.object_store@ == b.object_store@
    &&& a.endpoint@ == b.endpoint@
    &&& a.region@ == b.region@
}

/// Tells whether two environments are the same machine and store.
pub fn compatible_environment(left: &Environment, right: &Environment) -> (r: bool)
    ensures
        r == compatible(*left, *right),
{
    same_text(left.runner_type.as_str(), right.runner_type.as_str()) && same_text(
        left.cpu_model.as_str(),
        right.cpu_model.as_str(),
    ) && left.cpu_cores == right.cpu_cores && left.ram_bytes == right.ram_bytes && same_text(
        left.local_disk.as_str(),
        right.local_disk.as_str(),
    ) && same_text(left.os.as_str(), right.os.as_str()) && same_text(
        left.object_store.as_str(),
        right.object_store.as_str(),
    ) && same_text(left.endpoint.as_str(), right.endpoint.as_str()) && same_text(
        left.region.as_str(),
        right.region.as_str(),
    )
}

/// Being the same machine and store does not depend on which is asked.
pub proof fn compatibility_is_an_equivalence(a: Environment, b: Environment, c: Environment)
    ensures
        compatible(a, a),
        compatible(a, b) == compatible(b, a),
        compatible(a, b) && compatible(b, c) ==> compatible(a, c),
{
}

/// What was asked for when a session was started or resumed.
pub struct SessionRequest {
    pub session: Option<String>,
    pub suite: Option<String>,
    pub workload: Option<String>,
    pub variant: Option<String>,
    /// The workload of each variant that was selected.
    pub requested: Vec<String>,
}

/// Whether every variant that was selected belongs to the workload that was asked for.
pub open spec fn one_workload(request: SessionRequest) -> bool {
    request.workload matches Some(name) ==> forall|i: int|
        0 <= i < request.requested.len() ==> (#[trigger] request.requested@[i])@ == name@
}

/// What is wrong with a request.
pub open spec fn request_fault(request: SessionRequest) -> Option<SessionFault> {
    faults::first_of(
        seq![
            faults::unless(request.session is Some, SessionFault::NoSession),
            faults::unless(
                request.session is None || names::is_name(request.session->0@),
                SessionFault::InvalidName,
            ),
            faults::unless(request.suite is Some, SessionFault::NoSuite),
            faults::unless(request.variant is None, SessionFault::SingleVariant),
            faults::unless(one_workload(request), SessionFault::SeveralWorkloads),
        ],
    )
}

/// Accepts the name of a session.
pub fn validate_session_name(session: &str) -> (r: Result<(), SessionFault>)
    ensures
        r is Ok <==> names::is_name(session@),
        r matches Err(e) ==> e == SessionFault::InvalidName,
{
    match validate_name(session, "session") {
        Ok(_) => Ok(()),
        Err(_) => Err(SessionFault::InvalidName),
    }
}

/// Checks a request: sessions run complete workloads of one suite.
pub fn check_request(request: &SessionRequest) -> (r: Result<(), SessionFault>)
    ensures
        r is Ok <==> request_fault(*request) is None,
        r matches Err(e) ==> request_fault(*request) == Some(e),
{
    let named = match &request.session {
        Some(session) => validate_session_name(session.as_str()).is_ok(),
        None => true,
    };
    let mut single = true;
    if let Some(name) = &request.workload {
        let mut i: usize = 0;
        while i < request.requested.len()
            invariant
                i <= request.requested.len(),
                single <==> forall|k: int|
                    0 <= k < i ==> (#[trigger] request.requested@[k])@ == name@,
            decreases request.requested.len() - i,
        {
            if !same_text(request.requested[i].as_str(), name.as_str()) {
                assert(request.requested@[i as int]@ != name@);
                single = false;
            }
            i += 1;
        }
    }
    let found = vec![
        fault_unless(request.session.is_some(), SessionFault::NoSession),
        fault_unless(named, SessionFault::InvalidName),
        fault_unless(request.suite.is_some(), SessionFault::NoSuite),
        fault_unless(request.variant.is_none(), SessionFault::SingleVariant),
        fault_unless(single, SessionFault::SeveralWorkloads),
    ];
    proof {
        assert(single == one_workload(*request));
        assert(found@ =~= seq![
            faults::unless(request.session is Some, SessionFault::NoSession),
            faults::unless(
                request.session is None || names::is_name(request.session->0@),
                SessionFault::InvalidName,
            ),
            faults::unless(request.suite is Some, SessionFault::NoSuite),
            faults::unless(request.variant is None, SessionFault::SingleVariant),
            faults::unless(one_workload(*request), SessionFault::SeveralWorkloads),
        ]);
    }
    match faults::first_listed(&found) {
        Some(fault) => Err(fault),
        None => Ok(()),
    }
}

/// Whether a workload that is done is the configured one, with a result for each variant.
pub open spec fn matches_workload(completed: CompletedWorkload, workload: WorkloadConfig) -> bool {
    completed.name@ == workload.name@ && completed.results@.len() == workload.variants@.len()
}

/// Whether the workloads that are done are the first ones of a suite.
pub open spec fn follows(
    completed: Seq<CompletedWorkload>,
    workloads: Seq<WorkloadConfig>,
) -> bool {
    forall|i: int|
        0 <= i < completed.len() && i < workloads.len() ==> matches_workload(
            #[trigger] completed[i],
            workloads[i],
        )
}

/// What is wrong with the databases of a session.
pub open spec fn databases_fault(state: SessionState, execution: ProfileExecution) -> Option<
    SessionFault,
> {
    if execution == ProfileExecution::Sequential {
        faults::first(
            faults::unless(state.goldens.names().len() == 0, SessionFault::GoldensInSequence),
            faults::unless(
                (state.measurement_complete && state.sequential_databases@.len() == 0)
                    || state.sequential_databases@.len() == state.completed@.len(),
                SessionFault::CheckpointsMissing,
            ),
        )
    } else {
        faults::unless(
            state.sequential_databases@.len() == 0,
            SessionFault::CheckpointsInIsolation,
        )
    }
}

/// What keeps a session from being resumed, check by check.
pub open spec fn state_checks(
    state: SessionState,
    session: Seq<char>,
    profile: ProfileConfig,
    source: SourceIdentity,
    configuration: Seq<char>,
    environment: Environment,
) -> Seq<Option<SessionFault>> {
    seq![
        faults::unless(state.session@ == session, SessionFault::OtherSession),
        faults::unless(state.suite@ == profile.name@, SessionFault::OtherSuite),
        faults::unless(
            state.slate_version@ == source@.slate_version && state.slate_commit@
                == source@.slate_commit,
            SessionFault::OtherDatabaseBuild,
        ),
        faults::unless(
            state.runner_commit@ == source@.runner_commit && state.lockfile_sha256@
                == source@.lockfile_sha256,
            SessionFault::OtherRunnerBuild,
        ),
        faults::unless(
            state.configuration_sha256@ == configuration,
            SessionFault::OtherConfiguration,
        ),
        faults::unless(
            compatible(state.environment, environment),
            SessionFault::OtherEnvironment,
        ),
        faults::unless(
            state.completed@.len() <= profile.workloads@.len(),
            SessionFault::TooManyWorkloads,
        ),
        faults::unless(follows(state.completed@, profile.workloads@), SessionFault::OtherResults),
        faults::unless(
            state.measurement_complete == (state.completed@.len() == profile.workloads@.len()),
            SessionFault::WrongMarker,
        ),
        databases_fault(state, profile.execution),
    ]
}

/// What keeps a session from being resumed, the first of it.
pub open spec fn state_fault(
    state: SessionState,
    session: Seq<char>,
    profile: ProfileConfig,
    source: SourceIdentity,
    configuration: Seq<char>,
    environment: Environment,
) -> Option<SessionFault> {
    faults::first_of(state_checks(state, session, profile, source, configuration, environment))
}

fn in_order(completed: &Vec<CompletedWorkload>, workloads: &Vec<WorkloadConfig>) -> (r: bool)
    ensures
        r == follows(completed@, workloads@),
{
    let mut i: usize = 0;
    while i < completed.len() && i < workloads.len()
        invariant
            i <= completed.len(),
            i <= workloads.len(),
            forall|k: int|
                0 <= k < i ==> matches_workload(#[trigger] completed@[k], workloads@[k]),
        decreases completed.len() - i,
    {
        if !same_text(completed[i].name.as_str(), workloads[i].name.as_str())
            || completed[i].results.len() != workloads[i].variants.len() {
            assert(!matches_workload(completed@[i as int], workloads@[i as int]));
            return false;
        }
        i += 1;
    }
    true
}

fn judge_databases(state: &SessionState, execution: ProfileExecution) -> (r: Option<SessionFault>)
    ensures
        r == databases_fault(*state, execution),
{
    let databases: usize = state.sequential_databases.len();
    match execution {
        ProfileExecution::Sequential => {
            if state.goldens.len() != 0 {
                return Some(SessionFault::GoldensInSequence);
            }
            fault_unless(
                (state.measurement_complete && databases == 0) || databases
                    == state.completed.len(),
                SessionFault::CheckpointsMissing,
            )
        },
        ProfileExecution::Isolated => fault_unless(
            databases == 0,
            SessionFault::CheckpointsInIsolation,
        ),
    }
}

/// Checks that a session can be resumed: it belongs to the same suite, builds, configuration and
/// machine, and what it holds fits together.
pub fn validate_state(
    state: &SessionState,
    session: &str,
    profile: &ProfileConfig,
    source: &SourceIdentity,
    configuration_sha256: &str,
    environment: &Environment,
) -> (r: Result<(), SessionFault>)
    ensures
        r is Ok <==> state_fault(
            *state,
            session@,
            *profile,
            *source,
            configuration_sha256@,
            *environment,
        ) is None,
        r matches Err(e) ==> state_fault(
            *state,
            session@,
            *profile,
            *source,
            configuration_sha256@,
            *environment,
        ) == Some(e),
{
    let found = vec![
        fault_unless(same_text(state.session.as_str(), session), SessionFault::OtherSession),
        fault_unless(
            same_text(state.suite.as_str(), profile.name.as_str()),
            SessionFault::OtherSuite,
        ),
        fault_unless(
            same_text(state.slate_version.as_str(), source.slate_version.as_str()) && same_text(
                state.slate_commit.as_str(),
                source.slate_commit.as_str(),
            ),
            SessionFault::OtherDatabaseBuild,
        ),
        fault_unless(
            same_text(state.runner_commit.as_str(), source.runner_commit.as_str()) && same_text(
                state.lockfile_sha256.as_str(),
                source.lockfile_sha256.as_str(),
            ),
            SessionFault::OtherRunnerBuild,
        ),
        fault_unless(
            same_text(state.configuration_sha256.as_str(), configuration_sha256),
            SessionFault::OtherConfiguration,
        ),
        fault_unless(
            compatible_environment(&state.environment, environment),
            SessionFault::OtherEnvironment,
        ),
        fault_unless(
            state.completed.len() <= profile.workloads.len(),
            SessionFault::TooManyWorkloads,
        ),
        fault_unless(
            in_order(&state.completed, &profile.workloads),
            SessionFault::OtherResults,
        ),
        fault_unless(
            state.measurement_complete == (state.completed.len() == profile.workloads.len()),
            SessionFault::WrongMarker,
        ),
        judge_databases(state, profile.execution),
    ];
    assert(found@ =~= state_checks(
        *state,
        session@,
        *profile,
        *source,
        configuration_sha256@,
        *environment,
    ));
    match faults::first_listed(&found) {
        Some(fault) => Err(fault),
        None => Ok(()),
    }
}

/// Returns the digest of a configuration: that of its profile and its settings, in JSON.
pub fn configuration_digest(profile: &Vec<u8>, settings: &Vec<u8>) -> (r: String)
    ensures
        r@ == digest::sha256(profile@ + settings@),
{
    sha256_joined(profile, settings)
}

/// What a session does about a workload.
#[derive(Debug, Clone, Copy, PartialEq, Eq, Structural)]
pub enum SessionStep {
    /// Nothing: another workload was asked for.
    Skip,
    /// Nothing: it is done.
    Restored,
    /// It is run.
    Run,
}

/// Whether a workload is done.
pub open spec fn is_completed(completed: Seq<CompletedWorkload>, name: Seq<char>) -> bool {
    exists|i: int| 0 <= i < completed.len() && (#[trigger] completed[i]).name@ == name
}

/// What a session does about a workload of its profile.
pub open spec fn step_for(
    state: SessionState,
    profile: ProfileConfig,
    w: int,
    selected: Option<Seq<char>>,
    requested: usize,
) -> Result<SessionStep, SessionFault> {
    let name = profile.workloads@[w].name@;
    if selected is Some && selected->0 != name {
        Ok(SessionStep::Skip)
    } else if is_completed(state.completed@, name) {
        Ok(SessionStep::Restored)
    } else if requested == 0 {
        Err(SessionFault::NotRequested)
    } else if state.completed@.len() >= profile.workloads@.len() {
        Err(SessionFault::AllDone)
    } else if profile.workloads@[state.completed@.len() as int].name@ != name {
        Err(SessionFault::OtherWorkload)
    } else {
        Ok(SessionStep::Run)
    }
}

/// Decides what a session does about a workload: the workloads of a profile are run in their order.
///
/// `requested` is the number of variants of the workload that were selected.
pub fn next_step(
    state: &SessionState,
    profile: &ProfileConfig,
    w: usize,
    selected: Option<&str>,
    requested: usize,
) -> (r: Result<SessionStep, SessionFault>)
    requires
        w < profile.workloads.len(),
    ensures
        r == step_for(
            *state,
            *profile,
            w as int,
            match selected {
                Some(name) => Some(name@),
                None => None,
            },
            requested,
        ),
{
    let name: &str = profile.workloads[w].name.as_str();
    if let Some(wanted) = selected {
        if !same_text(wanted, name) {
            return Ok(SessionStep::Skip);
        }
    }
    let mut i: usize = 0;
    while i < state.completed.len()
        invariant
            i <= state.completed.len(),
            forall|k: int| 0 <= k < i ==> (#[trigger] state.completed@[k]).name@ != name@,
            w < profile.workloads.len(),
            name@ == profile.workloads@[w as int].name@,
            selected is Some ==> selected->0@ == name@,
        decreases state.completed.len() - i,
    {
        if same_text(state.completed[i].name.as_str(), name) {
            assert(state.completed@[i as int].name@ == name@);
            return Ok(SessionStep::Restored);
        }
        i += 1;
    }
    if requested == 0 {
        return Err(SessionFault::NotRequested);
    }
    if state.completed.len() >= profile.workloads.len() {
        return Err(SessionFault::AllDone);
    }
    if !same_text(profile.workloads[state.completed.len()].name.as_str(), name) {
        return Err(SessionFault::OtherWorkload);
    }
    Ok(SessionStep::Run)
}

/// Returns the name of the place where a workload runs.
pub fn stage_name(completed: usize, workload: &str) -> (r: String)
    ensures
        r@ == text::three_digits(completed as nat) + "-"@ + workload@,
{
    padded_decimal(completed as u64).concat("-").concat(workload)
}

/// What a workload that follows others starts from.
#[derive(Debug, Clone, Copy, PartialEq, Eq, Structural)]
pub enum SequentialStart {
    /// An empty database.
    Empty,
    /// A clone of the database after the workload before.
    Clone(usize),
}

/// Decides what a workload that follows others starts from: the load comes first.
pub fn sequential_start(kind: WorkloadKind, variants: usize, databases: usize) -> (r: Result<
    SequentialStart,
    SessionFault,
>)
    ensures
        kind == WorkloadKind::BulkLoad ==> r == (if variants == 1 && databases == 0 {
            Ok::<SequentialStart, SessionFault>(SequentialStart::Empty)
        } else {
            Err::<SequentialStart, SessionFault>(SessionFault::MisplacedLoad)
        }),
        kind != WorkloadKind::BulkLoad ==> r == (if databases > 0 {
            Ok::<SequentialStart, SessionFault>(SequentialStart::Clone((databases - 1) as usize))
        } else {
            Err::<SequentialStart, SessionFault>(SessionFault::NoCheckpoint)
        }),
{
    if let WorkloadKind::BulkLoad = kind {
        if variants == 1 && databases == 0 {
            Ok(SequentialStart::Empty)
        } else {
            Err(SessionFault::MisplacedLoad)
        }
    } else if databases > 0 {
        Ok(SequentialStart::Clone(databases - 1))
    } else {
        Err(SessionFault::NoCheckpoint)
    }
}

/// Checks the state that a variant of a resumed session started from, and returns the checkpoint
/// that its result names: only the first variant starts from one.
pub fn resumed_from(index: usize, state: &str, head: &GoldenDatabase) -> (r: Result<
    Option<String>,
    SessionFault,
>)
    ensures
        r is Err <==> index == 0 && state@ != head.lsm_digest@,
        r matches Err(e) ==> e == SessionFault::StateDiffers,
        r matches Ok(checkpoint) ==> (checkpoint is Some <==> index == 0),
        r matches Ok(Some(checkpoint)) ==> checkpoint@ == head.checkpoint_id@,
{
    if index > 0 {
        return Ok(None);
    }
    if !same_text(state, head.lsm_digest.as_str()) {
        return Err(SessionFault::StateDiffers);
    }
    Ok(Some(head.checkpoint_id.clone()))
}

/// Whether a state is another after a workload is done.
pub open spec fn completed_with(
    before: SessionState,
    after: SessionState,
    name: Seq<char>,
    results: Vec<String>,
    checkpoint: Option<GoldenDatabase>,
    workloads: nat,
) -> bool {
    &&& after.session == before.session
    &&& after.suite == before.suite
    &&& after.started_at == before.started_at
    &&& after.slate_version == before.slate_version
    &&& after.slate_commit == before.slate_commit
    &&& after.runner_commit == before.runner_commit
    &&& after.lockfile_sha256 == before.lockfile_sha256
    &&& after.configuration_sha256 == before.configuration_sha256
    &&& after.environment == before.environment
    &&& after.object_store_baseline == before.object_store_baseline
    &&& after.baseline_histograms == before.baseline_histograms
    &&& after.goldens == before.goldens
    &&& after.completed@.len() == before.completed@.len() + 1
    &&& after.completed@.drop_last() == before.completed@
    &&& after.completed@.last().name@ == name
    &&& after.completed@.last().results == results
    &&& after.sequential_databases@ == (match checkpoint {
        Some(database) => before.sequential_databases@.push(database),
        None => before.sequential_databases@,
    })
    &&& after.measurement_complete == (after.completed@.len() == workloads)
}

impl SessionState {
    /// A workload is done.
    pub fn complete(
        &mut self,
        name: String,
        results: Vec<String>,
        checkpoint: Option<GoldenDatabase>,
        workloads: usize,
    )
        ensures
            completed_with(
                *old(self),
                *final(self),
                name@,
                results,
                checkpoint,
                workloads as nat,
            ),
    {
        let ghost before = *self;
        self.completed.push(CompletedWorkload { name, results });
        if let Some(database) = checkpoint {
            self.sequential_databases.push(database);
        }
        self.measurement_complete = self.completed.len() == workloads;
        assert(self.completed@.drop_last() =~= before.completed@);
    }

    /// Returns the database that a dataset starts from, if it was built.
    pub fn golden(&self, key: &str) -> (r: Option<&GoldenDatabase>)
        requires
            self.goldens.wf(),
        ensures
            r is Some <==> self.goldens.map().dom().contains(key@),
            r matches Some(golden) ==> *golden == self.goldens.map()[key@],
    {
        self.goldens.get(key)
    }

    /// Keeps the database that a dataset starts from.
    pub fn keep_golden(&mut self, key: String, golden: GoldenDatabase)
        requires
            old(self).goldens.wf(),
        ensures
            final(self).goldens.wf(),
            final(self).goldens.map() == old(self).goldens.map().insert(key@, golden),
            final(self).completed == old(self).completed,
            final(self).sequential_databases == old(self).sequential_databases,
            final(self).measurement_complete == old(self).measurement_complete,
            final(self).session == old(self).session,
            final(self).suite == old(self).suite,
            final(self).started_at == old(self).started_at,
            final(self).slate_version == old(self).slate_version,
            final(self).slate_commit == old(self).slate_commit,
            final(self).runner_commit == old(self).runner_commit,
            final(self).lockfile_sha256 == old(self).lockfile_sha256,
            final(self).configuration_sha256 == old(self).configuration_sha256,
            final(self).environment == old(self).environment,
            final(self).object_store_baseline == old(self).object_store_baseline,
            final(self).baseline_histograms == old(self).baseline_histograms,
    {
        self.goldens.put(key, golden);
    }

    /// Tells whether databases are left that are not needed any more.
    pub fn needs_cleanup(&self) -> (r: bool)
        ensures
            r == (self.measurement_complete && (self.sequential_databases@.len() > 0
                || self.goldens.names().len() > 0)),
    {
        self.measurement_complete && (self.sequential_databases.len() > 0 || self.goldens.len()
            > 0)
    }

    /// The databases were removed.
    pub fn cleaned(&mut self)
        ensures
            final(self).sequential_databases@.len() == 0,
            final(self).goldens.wf(),
            final(self).goldens.names().len() == 0,
            final(self).session == old(self).session,
            final(self).suite == old(self).suite,
            final(self).started_at == old(self).started_at,
            final(self).slate_version == old(self).slate_version,
            final(self).slate_commit == old(self).slate_commit,
            final(self).runner_commit == old(self).runner_commit,
            final(self).lockfile_sha256 == old(self).lockfile_sha256,
            final(self).configuration_sha256 == old(self).configuration_sha256,
            final(self).environment == old(self).environment,
            final(self).object_store_baseline == old(self).object_store_baseline,
            final(self).baseline_histograms == old(self).baseline_histograms,
            final(self).completed == old(self).completed,
            final(self).measurement_complete == old(self).measurement_complete,
    {
        self.sequential_databases = Vec::new();
        self.goldens = Named::new();
    }

    /// Returns the paths of all results, in the order in which they were written.
    pub fn results(&self) -> (r: Result<Vec<String>, SessionFault>)
        ensures
            r is Ok <==> self.completed@.len() > 0,
            r matches Err(e) ==> e == SessionFault::NothingCompleted,
            r matches Ok(paths) ==> text::texts(paths@) == all_results(
                self.completed@,
                self.completed@.len() as int,
            ),
    {
        if self.completed.len() == 0 {
            return Err(SessionFault::NothingCompleted);
        }
        let mut paths: Vec<String> = Vec::new();
        let mut i: usize = 0;
        assert(text::texts(paths@) =~= all_results(self.completed@, 0));
        while i < self.completed.len()
            invariant
                i <= self.completed.len(),
                text::texts(paths@) == all_results(self.completed@, i as int),
            decreases self.completed.len() - i,
        {
            let results = &self.completed[i].results;
            let mut k: usize = 0;
            assert(text::texts(results@).take(0) =~= Seq::<Seq<char>>::empty());
            assert(all_results(self.completed@, i as int) + text::texts(results@).take(0)
                =~= all_results(self.completed@, i as int));
            while k < results.len()
                invariant
                    k <= results.len(),
                    i < self.completed.len(),
                    *results == self.completed@[i as int].results,
                    text::texts(paths@) == all_results(self.completed@, i as int) + text::texts(
                        results@,
                    ).take(k as int),
                decreases results.len() - k,
            {
                let ghost before = text::texts(paths@);
                paths.push(results[k].clone());
                proof {
                    assert(text::texts(paths@) =~= before.push(text::texts(results@)[k as int]));
                    assert(text::texts(results@).take(k + 1) =~= text::texts(results@).take(
                        k as int,
                    ).push(text::texts(results@)[k as int]));
                    assert(text::texts(paths@) =~= all_results(self.completed@, i as int)
                        + text::texts(results@).take(k + 1));
                }
                k += 1;
            }
            assert(text::texts(results@).take(results.len() as int) =~= text::texts(results@));
            i += 1;
        }
        Ok(paths)
    }
}

/// The results of the first workloads that are done.
pub open spec fn all_results(completed: Seq<CompletedWorkload>, n: int) -> Seq<Seq<char>>
    decreases n,
{
    if n <= 0 {
        Seq::empty()
    } else {
        all_results(completed, n - 1) + text::texts(completed[n - 1].results@)
    }
}

/// A session that could be resumed can still be resumed after its next workload, with a result for
/// each variant, and a database where workloads follow each other.
pub proof fn completing_keeps_sessions_valid(
    before: SessionState,
    after: SessionState,
    session: Seq<char>,
    profile: ProfileConfig,
    source: SourceIdentity,
    configuration: Seq<char>,
    environment: Environment,
    results: Vec<String>,
    checkpoint: Option<GoldenDatabase>,
)
    requires
        state_fault(before, session, profile, source, configuration, environment) is None,
        before.completed@.len() < profile.workloads@.len(),
        completed_with(
            before,
            after,
            profile.workloads@[before.completed@.len() as int].name@,
            results,
            checkpoint,
            profile.workloads@.len(),
        ),
        results@.len() == profile.workloads@[before.completed@.len() as int].variants@.len(),
        checkpoint is Some <==> profile.execution == ProfileExecution::Sequential,
    ensures
        state_fault(after, session, profile, source, configuration, environment) is None,
{
    let a = state_checks(before, session, profile, source, configuration, environment);
    let b = state_checks(after, session, profile, source, configuration, environment);
    faults::none_found(a, 0);
    faults::none_found(a, 1);
    faults::none_found(a, 2);
    faults::none_found(a, 3);
    faults::none_found(a, 4);
    faults::none_found(a, 5);
    faults::none_found(a, 6);
    faults::none_found(a, 7);
    faults::none_found(a, 8);
    faults::none_found(a, 9);
    let n = before.completed@.len() as int;
    assert forall|i: int|
        0 <= i < after.completed@.len() && i < profile.workloads@.len() implies matches_workload(
        #[trigger] after.completed@[i],
        profile.workloads@[i],
    ) by {
        if i < n {
            assert(after.completed@.drop_last()[i] == after.completed@[i]);
            assert(matches_workload(before.completed@[i], profile.workloads@[i]));
        }
    }
    no_fault(b, 10);
}

/// A session that is done can still be resumed when its databases are removed.
pub proof fn cleaning_keeps_sessions_valid(
    before: SessionState,
    after: SessionState,
    session: Seq<char>,
    profile: ProfileConfig,
    source: SourceIdentity,
    configuration: Seq<char>,
    environment: Environment,
)
    requires
        state_fault(before, session, profile, source, configuration, environment) is None,
        before.measurement_complete,
        after.sequential_databases@.len() == 0,
        after.goldens.names().len() == 0,
        after.session == before.session,
        after.suite == before.suite,
        after.slate_version == before.slate_version,
        after.slate_commit == before.slate_commit,
        after.runner_commit == before.runner_commit,
        after.lockfile_sha256 == before.lockfile_sha256,
        after.configuration_sha256 == before.configuration_sha256,
        after.environment == before.environment,
        after.completed == before.completed,
        after.measurement_complete == before.measurement_complete,
    ensures
        state_fault(after, session, profile, source, configuration, environment) is None,
{
    let a = state_checks(before, session, profile, source, configuration, environment);
    let b = state_checks(after, session, profile, source, configuration, environment);
    faults::none_found(a, 0);
    faults::none_found(a, 1);
    faults::none_found(a, 2);
    faults::none_found(a, 3);
    faults::none_found(a, 4);
    faults::none_found(a, 5);
    faults::none_found(a, 6);
    faults::none_found(a, 7);
    faults::none_found(a, 8);
    no_fault(b, 10);
}

proof fn no_fault(checks: Seq<Option<SessionFault>>, n: int)
    requires
        0 <= n <= checks.len(),
        forall|i: int| 0 <= i < n ==> #[trigger] checks[i] is None,
    ensures
        faults::first_of(checks.take(n)) is None,
        n == checks.len() ==> faults::first_of(checks) is None,
    decreases n,
{
    if n > 0 {
        no_fault(checks, n - 1);
        assert(checks.take(n).drop_last() =~= checks.take(n - 1));
    }
    if n == checks.len() {
        assert(checks.take(n) =~= checks);
    }
}

/// Workloads of a valid session are run in the order of their profile: the one that runs is the
/// first that is not done.
pub proof fn workloads_run_in_order(
    state: SessionState,
    profile: ProfileConfig,
    w: int,
    selected: Option<Seq<char>>,
    requested: usize,
)
    requires
        0 <= w < profile.workloads@.len(),
        step_for(state, profile, w, selected, requested) == Ok::<SessionStep, SessionFault>(
            SessionStep::Run,
        ),
    ensures
        state.completed@.len() < profile.workloads@.len(),
        profile.workloads@[w].name@ == profile.workloads@[state.completed@.len() as int].name@,
        !is_completed(state.completed@, profile.workloads@[w].name@),
{
}

/// The text that marks the directory of a session.
pub open spec fn marker_of(session: Seq<char>, suite: Seq<char>) -> Seq<char> {
    session + "\n"@ + suite + "\n"@
}

/// What is found in the directory of a session.
pub enum OutputState {
    /// It has a marker with a text.
    Marked(String),
    /// It has no marker, and nothing else.
    Empty,
    /// It has no marker, and something else.
    Occupied,
}

/// Decides whether a directory can be used for a session, and returns the marker to write.
pub fn ensure_output_directory(found: &OutputState, session: &str, suite: &str) -> (r: Result<
    Option<String>,
    SessionFault,
>)
    ensures
        match found {
            OutputState::Marked(marker) => if marker@ == marker_of(session@, suite@) {
                r == Ok::<Option<String>, SessionFault>(None)
            } else {
                r == Err::<Option<String>, SessionFault>(SessionFault::OtherOutput)
            },
            OutputState::Empty => r is Ok && r->Ok_0 is Some && r->Ok_0->0@ == marker_of(
                session@,
                suite@,
            ),
            OutputState::Occupied => r == Err::<Option<String>, SessionFault>(
                SessionFault::OutputNotEmpty,
            ),
        },
{
    let expected = session.to_string().concat("\n").concat(suite).concat("\n");
    match found {
        OutputState::Marked(marker) => if same_text(marker.as_str(), expected.as_str()) {
            Ok(None)
        } else {
            Err(SessionFault::OtherOutput)
        },
        OutputState::Empty => Ok(Some(expected)),
        OutputState::Occupied => Err(SessionFault::OutputNotEmpty),
    }
}

/// The components of the directory of a result.
pub open spec fn directory_of(result: Seq<char>) -> Seq<Seq<char>> {
    paths::appended(Seq::empty(), result).drop_last()
}

/// Returns the path of a file beside a result, by its components.
pub fn artifact_path(result: &str, file: &str) -> (r: Result<Vec<String>, SessionFault>)
    ensures
        r is Ok <==> paths::stays_below(result@) && paths::appended(Seq::empty(), result@).len()
            > 0,
        r matches Err(e) ==> e == (if paths::stays_below(result@) {
            SessionFault::NoParent
        } else {
            SessionFault::NotRelative
        }),
        r matches Ok(path) ==> text::texts(path@) == directory_of(result@).push(file@),
{
    let none: Vec<String> = Vec::new();
    assert(text::texts(none@) =~= Seq::<Seq<char>>::empty());
    let mut path = match append_path(none, result) {
        Ok(path) => path,
        Err(_) => {
            return Err(SessionFault::NotRelative);
        },
    };
    let ghost all = text::texts(path@);
    if path.len() == 0 {
        return Err(SessionFault::NoParent);
    }
    let last: usize = path.len() - 1;
    path.truncate(last);
    path.push(file.to_string());
    assert(text::texts(path@) =~= all.drop_last().push(file@));
    Ok(path)
}

/// A session is resumed only under its own name and suite, with the same revisions, lock file and
/// configuration, in a compatible environment, with the results of the first workloads in order and
/// a marker that says whether all are done.
pub proof fn resumed_sessions_are_their_own(
    state: SessionState,
    session: Seq<char>,
    profile: ProfileConfig,
    source: SourceIdentity,
    configuration: Seq<char>,
    environment: Environment,
    i: int,
)
    requires
        state_fault(state, session, profile, source, configuration, environment) is None,
    ensures
        state.session@ == session,
        state.suite@ == profile.name@,
        state.slate_version@ == source.slate_version@,
        state.slate_commit@ == source.slate_commit@,
        state.runner_commit@ == source.runner_commit@,
        state.lockfile_sha256@ == source.lockfile_sha256@,
        state.configuration_sha256@ == configuration,
        state.environment.runner_type@ == environment.runner_type@,
        state.environment.cpu_model@ == environment.cpu_model@,
        state.environment.cpu_cores == environment.cpu_cores,
        state.environment.ram_bytes == environment.ram_bytes,
        state.environment.local_disk@ == environment.local_disk@,
        state.environment.os@ == environment.os@,
        state.environment.object_store@ == environment.object_store@,
        state.environment.endpoint@ == environment.endpoint@,
        state.environment.region@ == environment.region@,
        state.completed@.len() <= profile.workloads@.len(),
        0 <= i < state.completed@.len() ==> state.completed@[i].name@ == profile.workloads@[i].name@
            && state.completed@[i].results@.len() == profile.workloads@[i].variants@.len(),
        state.measurement_complete <==> state.completed@.len() == profile.workloads@.len(),
        profile.execution == ProfileExecution::Sequential ==> state.goldens.names().len() == 0 && (
        state.sequential_databases@.len() == state.completed@.len() || (state.measurement_complete
            && state.sequential_databases@.len() == 0)),
        profile.execution != ProfileExecution::Sequential ==> state.sequential_databases@.len()
            == 0,
{
    let checks = state_checks(state, session, profile, source, configuration, environment);
    faults::rows_pass_where_every_check_does(checks);
    assert(checks[0] is None && checks[1] is None && checks[2] is None && checks[3] is None
        && checks[4] is None && checks[5] is None && checks[6] is None && checks[7] is None
        && checks[8] is None && checks[9] is None);
    if 0 <= i < state.completed@.len() {
        assert(matches_workload(state.completed@[i], profile.workloads@[i]));
    }
}

/// A workload is skipped where another was selected, restored where it is completed, and run where
/// it is requested and the next in order.
pub proof fn workloads_are_taken_in_turn(
    state: SessionState,
    profile: ProfileConfig,
    w: int,
    selected: Option<Seq<char>>,
    requested: usize,
)
    requires
        0 <= w < profile.workloads@.len(),
    ensures
        ({
            let name = profile.workloads@[w].name@;
            let step = step_for(state, profile, w, selected, requested);
            let chosen = selected is None || selected->0 == name;
            let done = exists|i: int|
                0 <= i < state.completed@.len() && (#[trigger] state.completed@[i]).name@ == name;
            &&& step == Ok::<SessionStep, SessionFault>(SessionStep::Skip) <==> !chosen
            &&& step == Ok::<SessionStep, SessionFault>(SessionStep::Restored) <==> chosen && done
            &&& step == Ok::<SessionStep, SessionFault>(SessionStep::Run) <==> chosen && !done
                && requested > 0 && state.completed@.len() < profile.workloads@.len()
                && profile.workloads@[state.completed@.len() as int].name@ == name
        }),
{
}

/// A request for a session names it and its suite, asks for no single variant, and for one workload
/// where it names one.
pub proof fn requests_name_their_session(request: SessionRequest, i: int)
    requires
        request_fault(request) is None,
    ensures
        request.session is Some && names::is_name(request.session->0@),
        request.suite is Some,
        request.variant is None,
        request.workload is Some && 0 <= i < request.requested@.len() ==> request.requested@[i]@
            == request.workload->0@,
{
    let checks = seq![
        faults::unless(request.session is Some, SessionFault::NoSession),
        faults::unless(
            request.session is None || names::is_name(request.session->0@),
            SessionFault::InvalidName,
        ),
        faults::unless(request.suite is Some, SessionFault::NoSuite),
        faults::unless(request.variant is None, SessionFault::SingleVariant),
        faults::unless(one_workload(request), SessionFault::SeveralWorkloads),
    ];
    assert(request_fault(request) == faults::first_of(checks));
    faults::rows_pass_where_every_check_does(checks);
    assert(checks[0] is None && checks[1] is None && checks[2] is None && checks[3] is None
        && checks[4] is None);
}

/// The results of a session are those of every completed workload, in order.
pub proof fn every_result_is_listed(completed: Seq<CompletedWorkload>, n: int, i: int, k: int)
    requires
        0 <= i < n <= completed.len(),
        0 <= k < completed[i].results@.len(),
    ensures
        all_results(completed, n).contains(completed[i].results@[k]@),
    decreases n,
{
    let before = all_results(completed, n - 1);
    let last = text::texts(completed[n - 1].results@);
    if i == n - 1 {
        assert(last[k] == completed[i].results@[k]@);
        assert((before + last)[before.len() + k] == last[k]);
    } else {
        every_result_is_listed(completed, n - 1, i, k);
        let p = choose|p: int| 0 <= p < before.len() && before[p] == completed[i].results@[k]@;
        assert((before + last)[p] == before[p]);
    }
}

} // verus!
