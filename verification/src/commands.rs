//! What the commands of the benchmark ask for.

use crate::config::Task;
use crate::named;
use crate::text;
use crate::text::{precedence, Precedence};
use vstd::prelude::*;

verus! {

/// Golden-dataset preparation phases.
#[derive(Debug, Clone, Copy, PartialEq, Eq, Structural)]
pub enum PreparationPhase {
    /// Load the source records into an uncompacted database.
    BulkLoad,
    /// Compact the bulk-loaded database and publish its checkpoint.
    Compaction,
}

/// The task of a preparation phase.
pub open spec fn task_of(phase: PreparationPhase) -> Task {
    match phase {
        PreparationPhase::BulkLoad => Task::BulkLoad,
        PreparationPhase::Compaction => Task::Compaction,
    }
}

impl From<PreparationPhase> for Task {
    fn from(value: PreparationPhase) -> (r: Self) {
        match value {
            PreparationPhase::BulkLoad => Task::BulkLoad,
            PreparationPhase::Compaction => Task::Compaction,
        }
    }
}

impl vstd::std_specs::convert::FromSpecImpl<PreparationPhase> for Task {
    open spec fn obeys_from_spec() -> bool {
        true
    }

    open spec fn from_spec(value: PreparationPhase) -> Self {
        task_of(value)
    }
}

/// A phase prepares a golden dataset.
pub proof fn phases_prepare(phase: PreparationPhase)
    ensures
        task_of(phase).prepares(),
{
}

/// A task that is to be run is no workload.
#[derive(Debug, Clone, Copy, PartialEq, Eq, Structural)]
pub struct NotAWorkload;

/// Accepts a task that is to be run: preparation has a command of its own.
pub fn workload_to_run(task: Task) -> (r: Result<Task, NotAWorkload>)
    ensures
        r is Err <==> task.prepares(),
        r matches Ok(t) ==> t == task,
{
    if task.is_preparation() {
        Err(NotAWorkload)
    } else {
        Ok(task)
    }
}

/// Artifact type accepted by the validation command.
#[derive(Debug, Clone, Copy, PartialEq, Eq, Structural)]
pub enum Artifact {
    /// A compacted golden-dataset manifest.
    Golden,
    /// A summarized workload result.
    Result,
    /// A workload time-series sidecar.
    Series,
    /// A bundled-run manifest.
    Run,
}

/// A series was to be validated without its result.
#[derive(Debug, Clone, Copy, PartialEq, Eq, Structural)]
pub struct ResultRequired;

/// Tells whether a result has to be read beside an artifact: a series is validated with its result.
pub fn needs_result(artifact: Artifact, given: bool) -> (r: Result<bool, ResultRequired>)
    ensures
        r is Err <==> artifact == Artifact::Series && !given,
        r matches Ok(needed) ==> needed == (artifact == Artifact::Series),
{
    match artifact {
        Artifact::Series => if given {
            Ok(true)
        } else {
            Err(ResultRequired)
        },
        _ => Ok(false),
    }
}

/// How the features of the database were declared.
#[derive(Debug, Clone, Copy, PartialEq, Eq, Structural)]
pub enum FeatureFault {
    /// Default features are not switched off, so that the list would not be complete.
    DefaultFeatures,
    /// There is no list.
    Missing,
}

/// Whether a list has the names of another, in order and each once.
pub open spec fn sorted_names(sorted: Seq<Seq<char>>, given: Seq<Seq<char>>) -> bool {
    &&& named::names_increase(sorted)
    &&& forall|n: Seq<char>| sorted.contains(n) <==> given.contains(n)
}

fn insert_name(sorted: &mut Vec<String>, name: String)
    requires
        named::names_increase(text::texts(old(sorted)@)),
    ensures
        named::names_increase(text::texts(final(sorted)@)),
        forall|n: Seq<char>|
            text::texts(final(sorted)@).contains(n) <==> n == name@ || text::texts(
                old(sorted)@,
            ).contains(n),
{
    let ghost before = text::texts(sorted@);
    let mut i: usize = 0;
    let mut placed = false;
    while !placed && i < sorted.len()
        invariant
            placed ==> i < sorted.len() && text::text_lt(name@, before[i as int]),
            before == text::texts(sorted@),
            i <= sorted.len(),
            *sorted == *old(sorted),
            named::names_increase(before),
            forall|k: int| 0 <= k < i ==> text::text_lt(#[trigger] before[k], name@),
        decreases sorted.len() - i + (if placed { 0int } else { 1int }),
    {
        match precedence(sorted[i].as_str(), name.as_str()) {
            Precedence::Same => {
                assert(before[i as int] == name@);
                return;
            },
            Precedence::After => {
                placed = true;
            },
            Precedence::Before => {
                i += 1;
            },
        }
    }
    proof {
        assert forall|k: int| i <= k < before.len() implies text::text_lt(
            name@,
            #[trigger] before[k],
        ) by {
            if k > i {
                text::text_lt_transitive(name@, before[i as int], before[k]);
            }
        }
    }
    sorted.insert(i, name);
    proof {
        let after = text::texts(sorted@);
        assert(after =~= before.insert(i as int, name@));
        assert forall|a: int, b: int| 0 <= a < b < after.len() implies text::text_lt(
            #[trigger] after[a],
            #[trigger] after[b],
        ) by {
            let a2 = if a < i { a } else { a - 1 };
            let b2 = if b < i { b } else { b - 1 };
            if a != i {
                assert(after[a] == before[a2]);
            }
            if b != i {
                assert(after[b] == before[b2]);
            }
        }
        assert forall|n: Seq<char>| after.contains(n) <==> n == name@ || before.contains(n) by {
            if after.contains(n) {
                let k = choose|k: int| 0 <= k < after.len() && after[k] == n;
                if k != i {
                    let k2 = if k < i { k } else { k - 1 };
                    assert(before[k2] == n);
                }
            }
            if before.contains(n) {
                let k = choose|k: int| 0 <= k < before.len() && before[k] == n;
                let k2 = if k < i { k } else { k + 1 };
                assert(after[k2] == n);
            }
            assert(after[i as int] == name@);
        }
    }
}

/// Returns the features that the database was declared with, in order and each once.
pub fn declared_features(default_features: Option<bool>, listed: Option<Vec<String>>) -> (r: Result<
    Vec<String>,
    FeatureFault,
>)
    ensures
        r is Ok <==> default_features == Some(false) && listed is Some,
        r matches Err(e) ==> e == (if default_features != Some(false) {
            FeatureFault::DefaultFeatures
        } else {
            FeatureFault::Missing
        }),
        r matches Ok(sorted) ==> sorted_names(text::texts(sorted@), text::texts(listed->0@)),
{
    match default_features {
        Some(false) => {},
        _ => {
            return Err(FeatureFault::DefaultFeatures);
        },
    }
    let listed = match listed {
        Some(listed) => listed,
        None => {
            return Err(FeatureFault::Missing);
        },
    };
    let mut sorted: Vec<String> = Vec::new();
    let mut i: usize = 0;
    while i < listed.len()
        invariant
            i <= listed.len(),
            named::names_increase(text::texts(sorted@)),
            forall|n: Seq<char>|
                text::texts(sorted@).contains(n) <==> (exists|k: int|
                    0 <= k < i && #[trigger] text::texts(listed@)[k] == n),
        decreases listed.len() - i,
    {
        let ghost before = text::texts(sorted@);
        insert_name(&mut sorted, listed[i].clone());
        proof {
            assert forall|n: Seq<char>|
                text::texts(sorted@).contains(n) <==> (exists|k: int|
                    0 <= k < i + 1 && #[trigger] text::texts(listed@)[k] == n) by {
                if before.contains(n) {
                    let k = choose|k: int| 0 <= k < i && #[trigger] text::texts(listed@)[k] == n;
                    assert(0 <= k < i + 1 && text::texts(listed@)[k] == n);
                }
                if n == text::texts(listed@)[i as int] {
                    assert(0 <= i < i + 1 && text::texts(listed@)[i as int] == n);
                }
            }
        }
        i += 1;
    }
    proof {
        let given = text::texts(listed@);
        assert forall|n: Seq<char>| text::texts(sorted@).contains(n) <==> given.contains(n) by {
            if given.contains(n) {
                let k = choose|k: int| 0 <= k < given.len() && given[k] == n;
                assert(0 <= k < i && given[k] == n);
            }
        }
    }
    Ok(sorted)
}

} // verus!
