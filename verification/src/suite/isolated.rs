//! Suites whose variants each start from a clone of a golden database.

use crate::count;
use crate::count::plus;
use crate::text;
use crate::text::same_text;
use vstd::prelude::*;

verus! {

/// Why a suite does not come to its end.
#[derive(Debug, Clone, Copy, PartialEq, Eq, Structural)]
pub enum SuiteError {
    /// Nothing was selected.
    EmptySelection,
    /// The database, the store or the machine failed.
    Failed,
    /// A clone is not what it was cloned from.
    CloneDiffers,
    /// Something happened that was not asked for.
    OutOfOrder,
    /// The golden databases could not be removed.
    GoldenCleanup,
    /// What the suite left in the store could not be removed.
    RootCleanup,
}

/// What a suite does next.
#[derive(Debug, Clone, Copy, PartialEq, Eq, Structural)]
pub enum IsolatedAction {
    /// Find or build the golden database of a variant.
    Prepare(usize),
    /// Clone it.
    Clone(usize),
    /// Open the clone, and look at its state.
    Open(usize),
    /// Run the variant on the clone, in a process of its own or in this one.
    Run { variant: usize, fresh_process: bool, shared_bytes: u64 },
    /// Find how much the clone added to the store.
    Measure(usize),
    /// Write the result down.
    Write { variant: usize, database_bytes: u64, initial_bytes: u64 },
    /// Remove the clone.
    Remove(usize),
    /// Remove everything else.
    CleanUp,
}

/// What came of it.
pub enum IsolatedEvent {
    /// The golden database has a state and a size.
    Golden { lsm_digest: String, size_bytes: u64 },
    Cloned,
    /// The clone has a state.
    Opened { lsm_digest: String },
    Ran,
    /// The clone has a size.
    Measured { clone_bytes: u64 },
    /// The result has a path.
    Written { path: String },
    Removed,
    Failed,
}

/// The state of a suite, as values.
#[verifier::ext_equal]
pub struct IsolatedView {
    pub variants: usize,
    pub fresh_process: bool,
    pub action: IsolatedAction,
    pub golden_digest: Seq<char>,
    pub golden_bytes: u64,
    pub results: Seq<Seq<char>>,
    pub failure: Option<SuiteError>,
}

/// The state after something went wrong.
pub open spec fn failed(v: IsolatedView, error: SuiteError) -> IsolatedView {
    IsolatedView { action: IsolatedAction::CleanUp, failure: Some(error), ..v }
}

/// The state after an event.
pub open spec fn stepped(v: IsolatedView, event: IsolatedEvent) -> IsolatedView {
    match (v.action, event) {
        (_, IsolatedEvent::Failed) => failed(v, SuiteError::Failed),
        (IsolatedAction::Prepare(i), IsolatedEvent::Golden { lsm_digest, size_bytes }) => {
            IsolatedView {
                golden_digest: lsm_digest@,
                golden_bytes: size_bytes,
                action: IsolatedAction::Clone(i),
                ..v
            }
        },
        (IsolatedAction::Clone(i), IsolatedEvent::Cloned) => IsolatedView {
            action: IsolatedAction::Open(i),
            ..v
        },
        (IsolatedAction::Open(i), IsolatedEvent::Opened { lsm_digest }) => if lsm_digest@
            != v.golden_digest {
            failed(v, SuiteError::CloneDiffers)
        } else {
            IsolatedView {
                action: IsolatedAction::Run {
                    variant: i,
                    fresh_process: v.fresh_process,
                    shared_bytes: v.golden_bytes,
                },
                ..v
            }
        },
        (IsolatedAction::Run { variant, .. }, IsolatedEvent::Ran) => IsolatedView {
            action: IsolatedAction::Measure(variant),
            ..v
        },
        (IsolatedAction::Measure(i), IsolatedEvent::Measured { clone_bytes }) => IsolatedView {
            action: IsolatedAction::Write {
                variant: i,
                database_bytes: count::capped_sum(v.golden_bytes, clone_bytes),
                initial_bytes: v.golden_bytes,
            },
            ..v
        },
        (IsolatedAction::Write { variant, .. }, IsolatedEvent::Written { path }) => IsolatedView {
            results: v.results.push(path@),
            action: IsolatedAction::Remove(variant),
            ..v
        },
        (IsolatedAction::Remove(i), IsolatedEvent::Removed) => IsolatedView {
            action: if i + 1 < v.variants {
                IsolatedAction::Prepare((i + 1) as usize)
            } else {
                IsolatedAction::CleanUp
            },
            ..v
        },
        _ => failed(v, SuiteError::OutOfOrder),
    }
}

/// Whether a suite has written what it should have by now.
pub open spec fn on_track(v: IsolatedView) -> bool {
    match v.action {
        IsolatedAction::Prepare(i) => i < v.variants && v.results.len() == i && v.failure is None,
        IsolatedAction::Clone(i) => i < v.variants && v.results.len() == i && v.failure is None,
        IsolatedAction::Open(i) => i < v.variants && v.results.len() == i && v.failure is None,
        IsolatedAction::Run { variant, .. } => variant < v.variants && v.results.len() == variant
            && v.failure is None,
        IsolatedAction::Measure(i) => i < v.variants && v.results.len() == i && v.failure is None,
        IsolatedAction::Write { variant, .. } => variant < v.variants && v.results.len() == variant
            && v.failure is None,
        IsolatedAction::Remove(i) => i < v.variants && v.results.len() == i + 1
            && v.failure is None,
        IsolatedAction::CleanUp => v.failure is None ==> v.results.len() == v.variants,
    }
}

/// A suite whose variants each start from a clone.
pub struct IsolatedSuite {
    variants: usize,
    fresh_process: bool,
    action: IsolatedAction,
    golden_digest: String,
    golden_bytes: u64,
    results: Vec<String>,
    failure: Option<SuiteError>,
}

impl View for IsolatedSuite {
    type V = IsolatedView;

    closed spec fn view(&self) -> IsolatedView {
        IsolatedView {
            variants: self.variants,
            fresh_process: self.fresh_process,
            action: self.action,
            golden_digest: self.golden_digest@,
            golden_bytes: self.golden_bytes,
            results: text::texts(self.results@),
            failure: self.failure,
        }
    }
}

impl IsolatedSuite {
    /// The suite has written what it should have by now.
    pub open spec fn wf(&self) -> bool {
        on_track(self@)
    }

    /// Starts a suite of some variants. They run in this process where the store is only there.
    pub fn start(variants: usize, in_memory: bool) -> (r: Result<Self, SuiteError>)
        ensures
            r is Ok <==> variants > 0,
            r matches Err(e) ==> e == SuiteError::EmptySelection,
            r matches Ok(suite) ==> suite.wf() && suite@ == (IsolatedView {
                variants,
                fresh_process: !in_memory,
                action: IsolatedAction::Prepare(0),
                golden_digest: Seq::empty(),
                golden_bytes: 0,
                results: Seq::empty(),
                failure: None,
            }),
    {
        if variants == 0 {
            return Err(SuiteError::EmptySelection);
        }
        let suite = IsolatedSuite {
            variants,
            fresh_process: !in_memory,
            action: IsolatedAction::Prepare(0),
            golden_digest: String::new(),
            golden_bytes: 0,
            results: Vec::new(),
            failure: None,
        };
        proof {
            assert(suite@.results =~= Seq::<Seq<char>>::empty());
            assert(suite@.golden_digest =~= Seq::<char>::empty());
        }
        Ok(suite)
    }

    /// Returns what to do next.
    pub fn action(&self) -> (r: IsolatedAction)
        ensures
            r == self@.action,
    {
        self.action
    }

    fn fail(&mut self, error: SuiteError)
        ensures
            final(self)@ == failed(old(self)@, error),
    {
        self.action = IsolatedAction::CleanUp;
        self.failure = Some(error);
    }

    /// Takes note of an event.
    pub fn advance(&mut self, event: IsolatedEvent)
        requires
            old(self).wf(),
        ensures
            final(self).wf(),
            final(self)@ == stepped(old(self)@, event),
    {
        let ghost before = self@;
        match (self.action, event) {
            (_, IsolatedEvent::Failed) => {
                self.fail(SuiteError::Failed);
            },
            (IsolatedAction::Prepare(i), IsolatedEvent::Golden { lsm_digest, size_bytes }) => {
                self.golden_digest = lsm_digest;
                self.golden_bytes = size_bytes;
                self.action = IsolatedAction::Clone(i);
            },
            (IsolatedAction::Clone(i), IsolatedEvent::Cloned) => {
                self.action = IsolatedAction::Open(i);
            },
            (IsolatedAction::Open(i), IsolatedEvent::Opened { lsm_digest }) => {
                if same_text(lsm_digest.as_str(), self.golden_digest.as_str()) {
                    self.action =
                    IsolatedAction::Run {
                        variant: i,
                        fresh_process: self.fresh_process,
                        shared_bytes: self.golden_bytes,
                    };
                } else {
                    self.fail(SuiteError::CloneDiffers);
                }
            },
            (IsolatedAction::Run { variant, .. }, IsolatedEvent::Ran) => {
                self.action = IsolatedAction::Measure(variant);
            },
            (IsolatedAction::Measure(i), IsolatedEvent::Measured { clone_bytes }) => {
                self.action =
                IsolatedAction::Write {
                    variant: i,
                    database_bytes: plus(self.golden_bytes, clone_bytes),
                    initial_bytes: self.golden_bytes,
                };
            },
            (IsolatedAction::Write { variant, .. }, IsolatedEvent::Written { path }) => {
                self.results.push(path);
                self.action = IsolatedAction::Remove(variant);
                assert(self@.results =~= before.results.push(path@));
            },
            (IsolatedAction::Remove(i), IsolatedEvent::Removed) => {
                self.action = if i + 1 < self.variants {
                    IsolatedAction::Prepare(i + 1)
                } else {
                    IsolatedAction::CleanUp
                };
            },
            _ => {
                self.fail(SuiteError::OutOfOrder);
            },
        }
    }

    /// Ends the suite. What went wrong in it counts more than what went wrong in its cleanup.
    pub fn finish(self, goldens_removed: bool, root_removed: bool) -> (r: Result<
        Vec<String>,
        SuiteError,
    >)
        requires
            self.wf(),
            self@.action == IsolatedAction::CleanUp,
        ensures
            r is Ok <==> self@.failure is None && goldens_removed && root_removed,
            r matches Ok(paths) ==> text::texts(paths@) == self@.results && paths.len()
                == self@.variants,
            r matches Err(e) ==> e == (if self@.failure is Some {
                self@.failure->0
            } else if !goldens_removed {
                SuiteError::GoldenCleanup
            } else {
                SuiteError::RootCleanup
            }),
    {
        proof {
            assert(self@.results.len() == self.results.len());
        }
        match self.failure {
            Some(error) => Err(error),
            None => if !goldens_removed {
                Err(SuiteError::GoldenCleanup)
            } else if !root_removed {
                Err(SuiteError::RootCleanup)
            } else {
                Ok(self.results)
            },
        }
    }
}

/// A variant runs only on a clone that is what it was cloned from.
pub proof fn variants_run_on_faithful_clones(v: IsolatedView, event: IsolatedEvent)
    requires
        !(v.action is Run),
        stepped(v, event).action is Run,
    ensures
        event is Opened,
        event->Opened_lsm_digest@ == v.golden_digest,
        v.action is Open,
{
}

/// Every result that was written stays, and none is written twice for a variant.
pub proof fn results_accumulate(v: IsolatedView, event: IsolatedEvent)
    requires
        on_track(v),
    ensures
        on_track(stepped(v, event)),
        stepped(v, event).results.len() <= v.results.len() + 1,
        stepped(v, event).results.take(v.results.len() as int) == v.results,
{
    assert(stepped(v, event).results.take(v.results.len() as int) =~= v.results);
}

/// A variant is prepared, cloned, opened, run, measured, written and removed in turn, on a clone of
/// its golden database, and its size counts what it shares with that.
pub proof fn variants_go_step_by_step(
    v: IsolatedView,
    i: usize,
    digest: String,
    bytes: u64,
    path: String,
)
    requires
        v.golden_bytes + bytes <= u64::MAX,
        i < usize::MAX,
    ensures
        v.action == IsolatedAction::Prepare(i) ==> {
            let n = stepped(v, IsolatedEvent::Golden { lsm_digest: digest, size_bytes: bytes });
            &&& n.action == IsolatedAction::Clone(i)
            &&& n.golden_digest == digest@
            &&& n.golden_bytes == bytes
        },
        v.action == IsolatedAction::Clone(i) ==> stepped(v, IsolatedEvent::Cloned).action
            == IsolatedAction::Open(i),
        v.action == IsolatedAction::Open(i) && digest@ == v.golden_digest ==> stepped(
            v,
            IsolatedEvent::Opened { lsm_digest: digest },
        ).action == (IsolatedAction::Run {
            variant: i,
            fresh_process: v.fresh_process,
            shared_bytes: v.golden_bytes,
        }),
        v.action == IsolatedAction::Open(i) && digest@ != v.golden_digest ==> stepped(
            v,
            IsolatedEvent::Opened { lsm_digest: digest },
        ).failure == Some(SuiteError::CloneDiffers),
        v.action is Run && v.action->Run_variant == i ==> stepped(v, IsolatedEvent::Ran).action
            == IsolatedAction::Measure(i),
        v.action == IsolatedAction::Measure(i) ==> stepped(
            v,
            IsolatedEvent::Measured { clone_bytes: bytes },
        ).action == (IsolatedAction::Write {
            variant: i,
            database_bytes: (v.golden_bytes + bytes) as u64,
            initial_bytes: v.golden_bytes,
        }),
        v.action is Write && v.action->Write_variant == i ==> {
            let n = stepped(v, IsolatedEvent::Written { path });
            &&& n.action == IsolatedAction::Remove(i)
            &&& n.results == v.results.push(path@)
        },
        v.action == IsolatedAction::Remove(i) ==> stepped(v, IsolatedEvent::Removed).action == (if i
            + 1 < v.variants {
            IsolatedAction::Prepare((i + 1) as usize)
        } else {
            IsolatedAction::CleanUp
        }),
        stepped(v, IsolatedEvent::Failed).action == IsolatedAction::CleanUp && stepped(
            v,
            IsolatedEvent::Failed,
        ).failure == Some(SuiteError::Failed),
{
}

} // verus!
