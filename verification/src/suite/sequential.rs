//! Suites whose variants run one after another on one database.

use crate::suite::config::{ProfileConfig, WorkloadKind};
use crate::suite::isolated::SuiteError;
use crate::text;
use crate::text::same_text;
use vstd::prelude::*;

verus! {

/// Whether a workload loads the database of its profile.
pub open spec fn loads(profile: ProfileConfig, w: int) -> bool {
    0 <= w < profile.workloads@.len() && profile.workloads@[w].kind == WorkloadKind::BulkLoad
}

/// The first workload that loads the database of a profile.
pub open spec fn is_loader(profile: ProfileConfig, w: int) -> bool {
    loads(profile, w) && forall|k: int| 0 <= k < w ==> !loads(profile, k)
}

/// Why a profile cannot be run in sequence.
#[derive(Debug, Clone, Copy, PartialEq, Eq, Structural)]
pub enum LoaderFault {
    /// No workload loads the database.
    NoBulkLoad,
    /// The workload that does has no variants.
    NoVariants,
}

/// Finds the workload whose first variant loads the database.
pub fn find_loader(profile: &ProfileConfig) -> (r: Result<usize, LoaderFault>)
    ensures
        r matches Ok(w) ==> is_loader(*profile, w as int) && profile.workloads@[w as int].variants.len()
            > 0,
        r matches Err(LoaderFault::NoBulkLoad) ==> forall|w: int| !loads(*profile, w),
        r matches Err(LoaderFault::NoVariants) ==> exists|w: int|
            #[trigger] is_loader(*profile, w) && profile.workloads@[w].variants.len() == 0,
{
    let mut w: usize = 0;
    while w < profile.workloads.len()
        invariant
            w <= profile.workloads.len(),
            forall|k: int| 0 <= k < w ==> !loads(*profile, k),
        decreases profile.workloads.len() - w,
    {
        if let WorkloadKind::BulkLoad = profile.workloads[w].kind {
            assert(is_loader(*profile, w as int));
            if profile.workloads[w].variants.len() == 0 {
                return Err(LoaderFault::NoVariants);
            }
            return Ok(w);
        }
        w += 1;
    }
    Err(LoaderFault::NoBulkLoad)
}

/// What a suite does next.
#[derive(Debug, Clone, Copy, PartialEq, Eq, Structural)]
pub enum SequentialAction {
    /// Open the empty database with the settings of a load.
    OpenLoader,
    /// Load it, and measure the load where its result is wanted.
    Load { measured: bool },
    /// Close it.
    CloseLoader,
    /// Open it with the settings of the suite, and wait until it is compacted.
    Compact,
    /// Add the compaction to what the load came to.
    ExtendLoad,
    /// Close it.
    CloseCompacted,
    /// Find the size of the loaded database.
    MeasureLoaded,
    /// Write the result of the load down.
    WriteLoad { database_bytes: u64 },
    /// Find the size of the database before a variant.
    MeasureBefore(usize),
    /// Read the state of the database before a variant.
    ReadState(usize),
    /// Open the database for a variant in this process, and look at its state.
    Open(usize),
    /// Run a variant, in a process of its own or in this one.
    Run { variant: usize, fresh_process: bool },
    /// Find the size of the database after a variant.
    MeasureAfter(usize),
    /// Write the result of a variant down.
    Write { variant: usize, database_bytes: u64, initial_bytes: u64 },
    /// Remove the database.
    Remove,
    /// Nothing.
    Finish,
}

/// What came of it.
pub enum SequentialEvent {
    /// It was done.
    Done,
    /// The database has a size.
    Measured { bytes: u64 },
    /// The database has a state.
    State { lsm_digest: String },
    /// The result has a path.
    Written { path: String },
    Failed,
}

/// The state of a suite, as values.
#[verifier::ext_equal]
pub struct SequentialView {
    /// For each variant that was selected, whether it loads the database.
    pub loaders: Seq<bool>,
    pub fresh_process: bool,
    pub action: SequentialAction,
    pub state: Seq<char>,
    pub initial_bytes: u64,
    pub results: Seq<Seq<char>>,
    pub failure: Option<SuiteError>,
}

/// Whether the load is one of the variants that were selected.
pub open spec fn load_selected(loaders: Seq<bool>) -> bool {
    loaders.contains(true)
}

/// What follows when every variant before one is done.
pub open spec fn variant_from(loaders: Seq<bool>, i: int) -> SequentialAction
    decreases loaders.len() - i,
{
    if i < 0 || i >= loaders.len() {
        SequentialAction::Remove
    } else if loaders[i] {
        variant_from(loaders, i + 1)
    } else {
        SequentialAction::MeasureBefore(i as usize)
    }
}

/// The state after something went wrong.
pub open spec fn failed(v: SequentialView, error: SuiteError) -> SequentialView {
    SequentialView { action: SequentialAction::Finish, failure: Some(error), ..v }
}

/// The state with another thing to do.
pub open spec fn doing(v: SequentialView, action: SequentialAction) -> SequentialView {
    SequentialView { action, ..v }
}

/// The state after an event.
pub open spec fn stepped(v: SequentialView, event: SequentialEvent) -> SequentialView {
    match (v.action, event) {
        (_, SequentialEvent::Failed) => failed(v, SuiteError::Failed),
        (SequentialAction::OpenLoader, SequentialEvent::Done) => doing(
            v,
            SequentialAction::Load { measured: load_selected(v.loaders) },
        ),
        (SequentialAction::Load { .. }, SequentialEvent::Done) => doing(
            v,
            SequentialAction::CloseLoader,
        ),
        (SequentialAction::CloseLoader, SequentialEvent::Done) => doing(
            v,
            SequentialAction::Compact,
        ),
        (SequentialAction::Compact, SequentialEvent::Done) => doing(
            v,
            if load_selected(v.loaders) {
                SequentialAction::ExtendLoad
            } else {
                SequentialAction::CloseCompacted
            },
        ),
        (SequentialAction::ExtendLoad, SequentialEvent::Done) => doing(
            v,
            SequentialAction::CloseCompacted,
        ),
        (SequentialAction::CloseCompacted, SequentialEvent::Done) => doing(
            v,
            SequentialAction::MeasureLoaded,
        ),
        (SequentialAction::MeasureLoaded, SequentialEvent::Measured { bytes }) => doing(
            v,
            if load_selected(v.loaders) {
                SequentialAction::WriteLoad { database_bytes: bytes }
            } else {
                variant_from(v.loaders, 0)
            },
        ),
        (SequentialAction::WriteLoad { .. }, SequentialEvent::Written { path }) => SequentialView {
            results: v.results.push(path@),
            action: variant_from(v.loaders, 0),
            ..v
        },
        (SequentialAction::MeasureBefore(i), SequentialEvent::Measured { bytes }) => {
            SequentialView {
                initial_bytes: bytes,
                action: SequentialAction::ReadState(i),
                ..v
            }
        },
        (SequentialAction::ReadState(i), SequentialEvent::State { lsm_digest }) => SequentialView {
            state: lsm_digest@,
            action: if v.fresh_process {
                SequentialAction::Run { variant: i, fresh_process: true }
            } else {
                SequentialAction::Open(i)
            },
            ..v
        },
        (SequentialAction::Open(i), SequentialEvent::State { lsm_digest }) => if lsm_digest@
            != v.state {
            failed(v, SuiteError::CloneDiffers)
        } else {
            doing(v, SequentialAction::Run { variant: i, fresh_process: false })
        },
        (SequentialAction::Run { variant, .. }, SequentialEvent::Done) => doing(
            v,
            SequentialAction::MeasureAfter(variant),
        ),
        (SequentialAction::MeasureAfter(i), SequentialEvent::Measured { bytes }) => doing(
            v,
            SequentialAction::Write {
                variant: i,
                database_bytes: bytes,
                initial_bytes: v.initial_bytes,
            },
        ),
        (
            SequentialAction::Write { variant, .. },
            SequentialEvent::Written { path },
        ) => SequentialView {
            results: v.results.push(path@),
            action: variant_from(v.loaders, variant + 1),
            ..v
        },
        (SequentialAction::Remove, SequentialEvent::Done) => doing(v, SequentialAction::Finish),
        _ => failed(v, SuiteError::OutOfOrder),
    }
}

/// How many of the first variants do not load the database.
pub open spec fn plain_before(loaders: Seq<bool>, i: int) -> int
    decreases i,
{
    if i <= 0 {
        0
    } else {
        plain_before(loaders, i - 1) + (if loaders[i - 1] {
            0int
        } else {
            1int
        })
    }
}

/// The results that a suite has written when every variant before one is done.
pub open spec fn written_before(loaders: Seq<bool>, i: int) -> int {
    plain_before(loaders, i) + (if load_selected(loaders) {
        1int
    } else {
        0int
    })
}

/// Whether a variant is the next that runs, and what came before it is written.
pub open spec fn at_variant(v: SequentialView, i: usize) -> bool {
    &&& v.failure is None
    &&& i < v.loaders.len()
    &&& !v.loaders[i as int]
    &&& v.results.len() == written_before(v.loaders, i as int)
}

/// Whether a suite has written what it should have by now.
pub open spec fn on_track(v: SequentialView) -> bool {
    match v.action {
        SequentialAction::MeasureBefore(i) => at_variant(v, i),
        SequentialAction::ReadState(i) => at_variant(v, i),
        SequentialAction::Open(i) => at_variant(v, i),
        SequentialAction::Run { variant, .. } => at_variant(v, variant),
        SequentialAction::MeasureAfter(i) => at_variant(v, i),
        SequentialAction::Write { variant, .. } => at_variant(v, variant),
        SequentialAction::WriteLoad { .. } => v.failure is None && v.results.len() == 0
            && load_selected(v.loaders),
        SequentialAction::Remove => v.failure is None && v.results.len() == written_before(
            v.loaders,
            v.loaders.len() as int,
        ),
        SequentialAction::Finish => v.failure is None ==> v.results.len() == written_before(
            v.loaders,
            v.loaders.len() as int,
        ),
        _ => v.failure is None && v.results.len() == 0,
    }
}

proof fn next_variant(loaders: Seq<bool>, i: int)
    requires
        0 <= i <= loaders.len(),
        loaders.len() <= usize::MAX,
    ensures
        variant_from(loaders, i) is Remove || variant_from(loaders, i) is MeasureBefore,
        variant_from(loaders, i) is Remove ==> plain_before(loaders, loaders.len() as int)
            == plain_before(loaders, i),
        variant_from(loaders, i) matches SequentialAction::MeasureBefore(n) ==> {
            &&& i <= n < loaders.len()
            &&& !loaders[n as int]
            &&& plain_before(loaders, n as int) == plain_before(loaders, i)
        },
    decreases loaders.len() - i,
{
    if i < loaders.len() && loaders[i] {
        next_variant(loaders, i + 1);
    }
}

/// A suite whose variants run one after another on one database.
pub struct SequentialSuite {
    loaders: Vec<bool>,
    fresh_process: bool,
    action: SequentialAction,
    state: String,
    initial_bytes: u64,
    results: Vec<String>,
    failure: Option<SuiteError>,
}

impl View for SequentialSuite {
    type V = SequentialView;

    closed spec fn view(&self) -> SequentialView {
        SequentialView {
            loaders: self.loaders@,
            fresh_process: self.fresh_process,
            action: self.action,
            state: self.state@,
            initial_bytes: self.initial_bytes,
            results: text::texts(self.results@),
            failure: self.failure,
        }
    }
}

impl SequentialSuite {
    /// The suite has written what it should have by now.
    pub open spec fn wf(&self) -> bool {
        on_track(self@)
    }

    /// Starts a suite of some variants, of which some may load the database.
    pub fn start(loaders: Vec<bool>, fresh_process: bool) -> (r: Result<Self, SuiteError>)
        ensures
            r is Ok <==> loaders.len() > 0,
            r matches Err(e) ==> e == SuiteError::EmptySelection,
            r matches Ok(suite) ==> suite.wf() && suite@ == (SequentialView {
                loaders: loaders@,
                fresh_process,
                action: SequentialAction::OpenLoader,
                state: Seq::empty(),
                initial_bytes: 0,
                results: Seq::empty(),
                failure: None,
            }),
    {
        if loaders.len() == 0 {
            return Err(SuiteError::EmptySelection);
        }
        let suite = SequentialSuite {
            loaders,
            fresh_process,
            action: SequentialAction::OpenLoader,
            state: String::new(),
            initial_bytes: 0,
            results: Vec::new(),
            failure: None,
        };
        proof {
            assert(suite@.results =~= Seq::<Seq<char>>::empty());
            assert(suite@.state =~= Seq::<char>::empty());
        }
        Ok(suite)
    }

    /// Returns what to do next.
    pub fn action(&self) -> (r: SequentialAction)
        ensures
            r == self@.action,
    {
        self.action
    }

    fn fail(&mut self, error: SuiteError)
        ensures
            final(self)@ == failed(old(self)@, error),
    {
        self.action = SequentialAction::Finish;
        self.failure = Some(error);
    }

    fn loads(&self) -> (r: bool)
        ensures
            r == load_selected(self@.loaders),
    {
        let mut i: usize = 0;
        while i < self.loaders.len()
            invariant
                i <= self.loaders.len(),
                forall|k: int| 0 <= k < i ==> !self.loaders@[k],
            decreases self.loaders.len() - i,
        {
            if self.loaders[i] {
                assert(self.loaders@[i as int] == true);
                return true;
            }
            i += 1;
        }
        false
    }

    fn from(&self, start: usize) -> (r: SequentialAction)
        requires
            start <= self@.loaders.len(),
        ensures
            r == variant_from(self@.loaders, start as int),
    {
        let mut i: usize = start;
        while i < self.loaders.len()
            invariant
                i <= self.loaders.len(),
                variant_from(self@.loaders, start as int) == variant_from(
                    self@.loaders,
                    i as int,
                ),
            decreases self.loaders.len() - i,
        {
            if !self.loaders[i] {
                return SequentialAction::MeasureBefore(i);
            }
            i += 1;
        }
        SequentialAction::Remove
    }

    /// Takes note of an event.
    pub fn advance(&mut self, event: SequentialEvent)
        requires
            old(self).wf(),
        ensures
            final(self).wf(),
            final(self)@ == stepped(old(self)@, event),
    {
        let ghost before = self@;
        let count: usize = self.loaders.len();
        proof {
            assert(before.loaders.len() == count);
            next_variant(before.loaders, 0);
        }
        match (self.action, event) {
            (_, SequentialEvent::Failed) => {
                self.fail(SuiteError::Failed);
            },
            (SequentialAction::OpenLoader, SequentialEvent::Done) => {
                self.action = SequentialAction::Load { measured: self.loads() };
            },
            (SequentialAction::Load { .. }, SequentialEvent::Done) => {
                self.action = SequentialAction::CloseLoader;
            },
            (SequentialAction::CloseLoader, SequentialEvent::Done) => {
                self.action = SequentialAction::Compact;
            },
            (SequentialAction::Compact, SequentialEvent::Done) => {
                self.action = if self.loads() {
                    SequentialAction::ExtendLoad
                } else {
                    SequentialAction::CloseCompacted
                };
            },
            (SequentialAction::ExtendLoad, SequentialEvent::Done) => {
                self.action = SequentialAction::CloseCompacted;
            },
            (SequentialAction::CloseCompacted, SequentialEvent::Done) => {
                self.action = SequentialAction::MeasureLoaded;
            },
            (SequentialAction::MeasureLoaded, SequentialEvent::Measured { bytes }) => {
                self.action = if self.loads() {
                    SequentialAction::WriteLoad { database_bytes: bytes }
                } else {
                    self.from(0)
                };
            },
            (SequentialAction::WriteLoad { .. }, SequentialEvent::Written { path }) => {
                self.results.push(path);
                self.action = self.from(0);
                assert(self@.results =~= before.results.push(path@));
            },
            (SequentialAction::MeasureBefore(i), SequentialEvent::Measured { bytes }) => {
                self.initial_bytes = bytes;
                self.action = SequentialAction::ReadState(i);
            },
            (SequentialAction::ReadState(i), SequentialEvent::State { lsm_digest }) => {
                self.state = lsm_digest;
                self.action = if self.fresh_process {
                    SequentialAction::Run { variant: i, fresh_process: true }
                } else {
                    SequentialAction::Open(i)
                };
            },
            (SequentialAction::Open(i), SequentialEvent::State { lsm_digest }) => {
                if same_text(lsm_digest.as_str(), self.state.as_str()) {
                    self.action = SequentialAction::Run { variant: i, fresh_process: false };
                } else {
                    self.fail(SuiteError::CloneDiffers);
                }
            },
            (SequentialAction::Run { variant, .. }, SequentialEvent::Done) => {
                self.action = SequentialAction::MeasureAfter(variant);
            },
            (SequentialAction::MeasureAfter(i), SequentialEvent::Measured { bytes }) => {
                self.action =
                SequentialAction::Write {
                    variant: i,
                    database_bytes: bytes,
                    initial_bytes: self.initial_bytes,
                };
            },
            (SequentialAction::Write { variant, .. }, SequentialEvent::Written { path }) => {
                proof {
                    next_variant(before.loaders, variant + 1);
                }
                self.results.push(path);
                self.action = self.from(variant + 1);
                assert(self@.results =~= before.results.push(path@));
            },
            (SequentialAction::Remove, SequentialEvent::Done) => {
                self.action = SequentialAction::Finish;
            },
            _ => {
                self.fail(SuiteError::OutOfOrder);
            },
        }
    }

    /// Ends the suite.
    pub fn finish(self) -> (r: Result<Vec<String>, SuiteError>)
        requires
            self.wf(),
            self@.action == SequentialAction::Finish,
        ensures
            r is Ok <==> self@.failure is None,
            r matches Ok(paths) ==> text::texts(paths@) == self@.results && paths.len()
                == written_before(self@.loaders, self@.loaders.len() as int),
            r matches Err(e) ==> Some(e) == self@.failure,
    {
        proof {
            assert(self@.results.len() == self.results.len());
        }
        match self.failure {
            Some(error) => Err(error),
            None => Ok(self.results),
        }
    }
}

/// Each step of a suite keeps it on track: the load comes first, every other variant follows in
/// its turn, and what was written stays.
pub proof fn variants_run_in_turn(v: SequentialView, event: SequentialEvent)
    requires
        on_track(v),
        v.loaders.len() <= usize::MAX,
    ensures
        on_track(stepped(v, event)),
        stepped(v, event).results.take(v.results.len() as int) == v.results,
{
    next_variant(v.loaders, 0);
    if let SequentialAction::Write { variant, .. } = v.action {
        next_variant(v.loaders, variant + 1);
    }
    assert(stepped(v, event).results.take(v.results.len() as int) =~= v.results);
}

/// A variant that runs in this process runs on the state that its result names.
pub proof fn variants_run_on_the_state_they_name(v: SequentialView, event: SequentialEvent)
    requires
        on_track(v),
        v.loaders.len() <= usize::MAX,
        stepped(v, event).action matches SequentialAction::Run { fresh_process, .. }
            && !fresh_process,
        !(v.action is Run),
    ensures
        v.action is Open,
        event is State,
        event->State_lsm_digest@ == v.state,
{
    next_variant(v.loaders, 0);
    if let SequentialAction::Write { variant, .. } = v.action {
        next_variant(v.loaders, variant + 1);
    }
}

/// The database is loaded and compacted once, and a load that was selected is reported with the
/// size of what it left.
pub proof fn loads_go_step_by_step(v: SequentialView, bytes: u64, path: String)
    ensures
        ({
            let selected = v.loaders.contains(true);
            let done = stepped(v, SequentialEvent::Done).action;
            &&& v.action is OpenLoader ==> done == (SequentialAction::Load { measured: selected })
            &&& v.action is Load ==> done == SequentialAction::CloseLoader
            &&& v.action is CloseLoader ==> done == SequentialAction::Compact
            &&& v.action is Compact ==> done == (if selected {
                SequentialAction::ExtendLoad
            } else {
                SequentialAction::CloseCompacted
            })
            &&& v.action is ExtendLoad ==> done == SequentialAction::CloseCompacted
            &&& v.action is CloseCompacted ==> done == SequentialAction::MeasureLoaded
            &&& v.action is MeasureLoaded && selected ==> stepped(
                v,
                SequentialEvent::Measured { bytes },
            ).action == (SequentialAction::WriteLoad { database_bytes: bytes })
            &&& v.action is WriteLoad ==> stepped(v, SequentialEvent::Written { path }).results
                == v.results.push(path@)
            &&& v.action is Remove ==> done == SequentialAction::Finish
        }),
{
}

/// A variant is measured, read, run, measured again and written, with its size before and after.
pub proof fn runs_go_step_by_step(
    v: SequentialView,
    i: usize,
    bytes: u64,
    digest: String,
    path: String,
)
    ensures
        v.action == SequentialAction::MeasureBefore(i) ==> {
            let n = stepped(v, SequentialEvent::Measured { bytes });
            n.action == SequentialAction::ReadState(i) && n.initial_bytes == bytes
        },
        v.action == SequentialAction::ReadState(i) ==> {
            let n = stepped(v, SequentialEvent::State { lsm_digest: digest });
            &&& n.state == digest@
            &&& v.fresh_process ==> n.action == (SequentialAction::Run {
                variant: i,
                fresh_process: true,
            })
            &&& !v.fresh_process ==> n.action == SequentialAction::Open(i)
        },
        v.action == SequentialAction::Open(i) && digest@ == v.state ==> stepped(
            v,
            SequentialEvent::State { lsm_digest: digest },
        ).action == (SequentialAction::Run { variant: i, fresh_process: false }),
        v.action == SequentialAction::Open(i) && digest@ != v.state ==> stepped(
            v,
            SequentialEvent::State { lsm_digest: digest },
        ).failure == Some(SuiteError::CloneDiffers),
        v.action is Run && v.action->Run_variant == i ==> stepped(v, SequentialEvent::Done).action
            == SequentialAction::MeasureAfter(i),
        v.action == SequentialAction::MeasureAfter(i) ==> stepped(
            v,
            SequentialEvent::Measured { bytes },
        ).action == (SequentialAction::Write {
            variant: i,
            database_bytes: bytes,
            initial_bytes: v.initial_bytes,
        }),
        v.action is Write ==> stepped(v, SequentialEvent::Written { path }).results
            == v.results.push(path@),
        stepped(v, SequentialEvent::Failed).failure == Some(SuiteError::Failed) && stepped(
            v,
            SequentialEvent::Failed,
        ).action == SequentialAction::Finish,
{
}

/// The next variant is the first that is not the load, and the database is removed after the last.
pub proof fn the_next_variant_is_the_first_left(loaders: Seq<bool>, i: int, k: int)
    requires
        0 <= i <= k < loaders.len() <= usize::MAX,
        !loaders[k],
        forall|j: int| i <= j < k ==> #[trigger] loaders[j],
    ensures
        variant_from(loaders, i) == SequentialAction::MeasureBefore(k as usize),
    decreases k - i,
{
    if i < k {
        assert(loaders[i]);
        the_next_variant_is_the_first_left(loaders, i + 1, k);
    }
}

} // verus!
