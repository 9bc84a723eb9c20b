//! Runs of several suites.

use crate::model::SourceIdentity;
use crate::named::Named;
use crate::suite::config::VariantConfig;
use crate::suite::records::{ObjectStoreBaseline, SuiteManifest};
use crate::text;
use crate::text::same_text;
use vstd::prelude::*;

verus! {

/// Why a run cannot be started.
#[derive(Debug, Clone, Copy, PartialEq, Eq, Structural)]
pub enum RunFault {
    EmptySelection,
    /// Some profiles are published and some are not.
    MixedModes,
}

/// Whether all variants run in one mode.
pub open spec fn one_mode(selected: Seq<VariantConfig>) -> bool {
    forall|i: int|
        0 <= i < selected.len() ==> (#[trigger] selected[i]).profile.release
            == selected[0].profile.release
}

/// Returns the mode that the selected variants run in.
pub fn run_mode(selected: &Vec<VariantConfig>) -> (r: Result<&'static str, RunFault>)
    ensures
        r is Ok <==> selected.len() > 0 && one_mode(selected@),
        r matches Err(e) ==> e == (if selected.len() == 0 {
            RunFault::EmptySelection
        } else {
            RunFault::MixedModes
        }),
        r matches Ok(mode) ==> mode@ == (if selected@[0].profile.release {
            "published"@
        } else {
            "smoke"@
        }),
{
    if selected.len() == 0 {
        return Err(RunFault::EmptySelection);
    }
    let mut i: usize = 0;
    while i < selected.len()
        invariant
            i <= selected.len(),
            selected.len() > 0,
            forall|k: int|
                0 <= k < i ==> (#[trigger] selected@[k]).profile.release
                    == selected@[0].profile.release,
        decreases selected.len() - i,
    {
        if selected[i].profile.release != selected[0].profile.release {
            assert(selected@[i as int].profile.release != selected@[0].profile.release);
            return Err(RunFault::MixedModes);
        }
        i += 1;
    }
    Ok(selected[0].profile.mode())
}

/// The positions of the first variants that belong to a profile, in their order.
pub open spec fn positions_of(selected: Seq<VariantConfig>, name: Seq<char>, n: int) -> Seq<usize>
    decreases n,
{
    if n <= 0 {
        Seq::empty()
    } else if selected[n - 1].profile.name@ == name {
        positions_of(selected, name, n - 1).push((n - 1) as usize)
    } else {
        positions_of(selected, name, n - 1)
    }
}

/// Whether a profile has a variant among the first ones.
pub open spec fn occurs(selected: Seq<VariantConfig>, name: Seq<char>, n: int) -> bool {
    exists|i: int| 0 <= i < n && (#[trigger] selected[i]).profile.name@ == name
}

/// Groups the selected variants by their profiles, in the order of the profiles' names.
pub fn group_by_profile(selected: &Vec<VariantConfig>) -> (r: Named<Vec<usize>>)
    ensures
        r.wf(),
        forall|name: Seq<char>|
            r.map().dom().contains(name) <==> occurs(selected@, name, selected.len() as int),
        forall|name: Seq<char>| #[trigger]
            r.map().dom().contains(name) ==> r.map()[name]@ == positions_of(
                selected@,
                name,
                selected.len() as int,
            ),
{
    let mut groups: Named<Vec<usize>> = Named::new();
    let mut i: usize = 0;
    while i < selected.len()
        invariant
            i <= selected.len(),
            groups.wf(),
            forall|name: Seq<char>|
                groups.map().dom().contains(name) <==> occurs(selected@, name, i as int),
            forall|name: Seq<char>| #[trigger]
                groups.map().dom().contains(name) ==> groups.map()[name]@ == positions_of(
                    selected@,
                    name,
                    i as int,
                ),
        decreases selected.len() - i,
    {
        let ghost before = groups.map();
        let name: &str = selected[i].profile.name.as_str();
        let mut group: Vec<usize> = match groups.remove(name) {
            Some(group) => group,
            None => Vec::new(),
        };
        proof {
            if !before.dom().contains(name@) {
                no_positions(selected@, name@, i as int);
                assert(group@ =~= positions_of(selected@, name@, i as int));
            }
        }
        group.push(i);
        groups.put(name.to_string(), group);
        proof {
            assert forall|n: Seq<char>|
                groups.map().dom().contains(n) <==> occurs(selected@, n, i + 1) by {
                if n == name@ {
                    assert(selected@[i as int].profile.name@ == n);
                } else if before.dom().contains(n) {
                    let k = choose|k: int|
                        0 <= k < i && (#[trigger] selected@[k]).profile.name@ == n;
                    assert(0 <= k < i + 1 && selected@[k].profile.name@ == n);
                }
            }
        }
        i += 1;
    }
    groups
}

proof fn no_positions(selected: Seq<VariantConfig>, name: Seq<char>, n: int)
    requires
        0 <= n <= selected.len(),
        !occurs(selected, name, n),
    ensures
        positions_of(selected, name, n) == Seq::<usize>::empty(),
    decreases n,
{
    if n > 0 {
        assert(selected[n - 1].profile.name@ != name);
        assert(!occurs(selected, name, n - 1)) by {
            if occurs(selected, name, n - 1) {
                let k = choose|k: int|
                    0 <= k < n - 1 && (#[trigger] selected[k]).profile.name@ == name;
                assert(0 <= k < n && selected[k].profile.name@ == name);
            }
        }
        no_positions(selected, name, n - 1);
    }
}

/// Each variant that was selected is in the group of its profile, and in no other.
pub proof fn groups_hold_each_variant_once(selected: Seq<VariantConfig>, i: int, n: int)
    requires
        0 <= i < n <= selected.len(),
        n <= usize::MAX,
    ensures
        positions_of(selected, selected[i].profile.name@, n).contains(i as usize),
        forall|name: Seq<char>|
            name != selected[i].profile.name@ ==> !(#[trigger] positions_of(
                selected,
                name,
                n,
            )).contains(i as usize),
    decreases n,
{
    let own = selected[i].profile.name@;
    if n - 1 == i {
        let p = positions_of(selected, own, n);
        assert(p[p.len() - 1] == i as usize);
    } else {
        groups_hold_each_variant_once(selected, i, n - 1);
        let p = positions_of(selected, own, n - 1);
        let k = choose|k: int| 0 <= k < p.len() && p[k] == i as usize;
        assert(positions_of(selected, own, n)[k] == i as usize);
    }
    assert forall|name: Seq<char>| name != own implies !(#[trigger] positions_of(
        selected,
        name,
        n,
    )).contains(i as usize) by {
        positions_are_right(selected, name, n);
        let q = positions_of(selected, name, n);
        if q.contains(i as usize) {
            let k = choose|k: int| 0 <= k < q.len() && q[k] == i as usize;
            assert(selected[q[k] as int].profile.name@ == name);
        }
    }
}

proof fn positions_are_right(selected: Seq<VariantConfig>, name: Seq<char>, n: int)
    requires
        0 <= n <= selected.len(),
        n <= usize::MAX,
    ensures
        forall|k: int|
            0 <= k < positions_of(selected, name, n).len() ==> {
                &&& (#[trigger] positions_of(selected, name, n)[k]) < n
                &&& selected[positions_of(selected, name, n)[k] as int].profile.name@ == name
            },
    decreases n,
{
    if n > 0 {
        positions_are_right(selected, name, n - 1);
        let before = positions_of(selected, name, n - 1);
        let after = positions_of(selected, name, n);
        assert forall|k: int| 0 <= k < after.len() implies {
            &&& (#[trigger] after[k]) < n
            &&& selected[after[k] as int].profile.name@ == name
        } by {
            if k < before.len() {
                assert(after[k] == before[k]);
            }
        }
    }
}

/// Returns the name of the file with the baseline of a profile.
pub fn baseline_file(profiles: usize, name: &str) -> (r: String)
    ensures
        r@ == (if profiles == 1 {
            "object-store.json"@
        } else {
            "object-store-"@ + name@ + ".json"@
        }),
{
    if profiles == 1 {
        "object-store.json".to_string()
    } else {
        "object-store-".to_string().concat(name).concat(".json")
    }
}

/// What a run came to.
pub struct RunFacts {
    pub started_at: String,
    pub finished_at: String,
    pub mode: String,
    pub source: SourceIdentity,
    /// The configuration, in JSON.
    pub resolved_configuration: String,
    pub object_store_baselines: Named<ObjectStoreBaseline>,
    pub results: Vec<String>,
}

/// Puts the manifest of a run together.
pub fn assemble_run(facts: RunFacts) -> (r: SuiteManifest)
    ensures
        r.schema_version == 1,
        r.status@ == "ok"@,
        r.started_at == facts.started_at,
        r.finished_at == facts.finished_at,
        r.mode == facts.mode,
        r.slate_version == facts.source.slate_version,
        r.slate_commit == facts.source.slate_commit,
        r.runner_version == facts.source.runner_version,
        r.runner_commit == facts.source.runner_commit,
        r.lockfile_sha256 == facts.source.lockfile_sha256,
        r.resolved_configuration == facts.resolved_configuration,
        r.object_store_baselines == facts.object_store_baselines,
        r.results == facts.results,
{
    SuiteManifest {
        schema_version: 1,
        status: "ok".to_string(),
        started_at: facts.started_at,
        finished_at: facts.finished_at,
        mode: facts.mode,
        slate_version: facts.source.slate_version,
        slate_commit: facts.source.slate_commit,
        runner_version: facts.source.runner_version,
        runner_commit: facts.source.runner_commit,
        lockfile_sha256: facts.source.lockfile_sha256,
        resolved_configuration: facts.resolved_configuration,
        object_store_baselines: facts.object_store_baselines,
        results: facts.results,
    }
}

/// A process opened a database in another state than it was told.
#[derive(Debug, Clone, Copy, PartialEq, Eq, Structural)]
pub struct UnexpectedState;

/// Checks the state of the database that a process of its own opened.
pub fn check_worker_state(expected: &str, opened: &str) -> (r: Result<(), UnexpectedState>)
    ensures
        r is Ok <==> expected@ == opened@,
{
    if same_text(expected, opened) {
        Ok(())
    } else {
        Err(UnexpectedState)
    }
}

} // verus!
