//! Publication of validated run bundles.

use crate::bits;
use crate::bits::equal;
use crate::config::ONE;
use crate::manifest;
use crate::manifest::{validate_run_manifest, ManifestFault};
use crate::model::{ResultConfiguration, RunManifest};
use crate::named::Named;
use crate::names;
use crate::names::validate_identifier;
use crate::paths;
use crate::paths::{is_named, is_of_kind};
use crate::text;
use crate::text::same_text;
use crate::validation;
use vstd::prelude::*;

verus! {

/// How often publication is tried while others publish too.
pub const PUBLICATION_ATTEMPTS: u64 = 5;

/// Why a bundle is not published.
#[derive(Debug, Clone, Copy, PartialEq, Eq, Structural)]
pub enum PublishError {
    NotOneManifest,
    InvalidManifest(ManifestFault),
    InvalidVersion,
    InvalidRunId,
    Scaled,
    WrongRunDirectory,
    WrongVersionDirectory,
    FilesDiffer,
    DigestDiffers,
    CommandFailed,
    AlwaysOvertaken,
}

/// The positions of paths that end in a file name.
pub open spec fn positions_named(found: Seq<Seq<char>>, name: Seq<char>) -> Seq<int>
    decreases found.len(),
{
    if found.len() == 0 {
        Seq::empty()
    } else {
        let rest = positions_named(found.drop_last(), name);
        if paths::file_name(found.last()) == name {
            rest.push(found.len() - 1)
        } else {
            rest
        }
    }
}

/// Finds the only run manifest among the files below a directory.
pub fn find_manifest(found: &Vec<String>) -> (r: Result<usize, PublishError>)
    ensures
        ({
            let positions = positions_named(text::texts(found@), "run.json"@);
            &&& positions.len() == 1 ==> r is Ok && r->Ok_0 == positions[0]
            &&& positions.len() != 1 ==> r == Err::<usize, PublishError>(
                PublishError::NotOneManifest,
            )
        }),
{
    let ghost all = text::texts(found@);
    let mut manifests: Vec<usize> = Vec::new();
    let mut i: usize = 0;
    assert(all.take(0).len() == 0);
    while i < found.len()
        invariant
            i <= found.len(),
            all == text::texts(found@),
            manifests.len() == positions_named(all.take(i as int), "run.json"@).len(),
            forall|k: int|
                0 <= k < manifests.len() ==> #[trigger] manifests@[k] == positions_named(
                    all.take(i as int),
                    "run.json"@,
                )[k],
        decreases found.len() - i,
    {
        proof {
            assert(all.take(i + 1).drop_last() =~= all.take(i as int));
            assert(all.take(i + 1).last() == all[i as int]);
        }
        if is_named(found[i].as_str(), "run.json") {
            manifests.push(i);
        }
        i += 1;
    }
    assert(all.take(all.len() as int) =~= all);
    if manifests.len() == 1 {
        Ok(manifests[0])
    } else {
        Err(PublishError::NotOneManifest)
    }
}

/// Whether no configuration is scaled.
pub open spec fn unscaled(configurations: &Named<ResultConfiguration>) -> bool {
    forall|i: int|
        0 <= i < configurations.names().len() ==> bits::same_number(
            (#[trigger] configurations.values()[i]).scale,
            ONE,
        )
}

fn is_unscaled(configurations: &Named<ResultConfiguration>) -> (r: bool)
    requires
        configurations.wf(),
    ensures
        r == unscaled(configurations),
{
    let mut i: usize = 0;
    while i < configurations.len()
        invariant
            configurations.wf(),
            i <= configurations.names().len(),
            forall|k: int|
                0 <= k < i ==> bits::same_number(
                    (#[trigger] configurations.values()[k]).scale,
                    ONE,
                ),
        decreases configurations.names().len() - i,
    {
        if !equal(configurations.value_at(i).scale, ONE) {
            assert(!bits::same_number(configurations.values()[i as int].scale, ONE));
            return false;
        }
        i += 1;
    }
    true
}

/// What keeps a bundle from publication, given the names of the directories that hold it.
pub open spec fn publication_error(
    m: &RunManifest,
    run_directory: Seq<char>,
    version_directory: Seq<char>,
) -> Option<PublishError> {
    let fault = manifest::manifest_fault(
        m,
        validation::is_rfc3339(m.started_at@),
        validation::is_rfc3339(m.finished_at@),
    );
    if fault is Some {
        Some(PublishError::InvalidManifest(fault->0))
    } else if !names::is_name(m.source.slate_version@) {
        Some(PublishError::InvalidVersion)
    } else if !names::is_name(m.run_id@) {
        Some(PublishError::InvalidRunId)
    } else if !unscaled(&m.resolved_configuration) {
        Some(PublishError::Scaled)
    } else if run_directory != m.run_id@ {
        Some(PublishError::WrongRunDirectory)
    } else if version_directory != m.source.slate_version@ {
        Some(PublishError::WrongVersionDirectory)
    } else {
        None
    }
}

/// Checks a bundle before publication.
pub fn check_publication(m: &RunManifest, run_directory: &str, version_directory: &str) -> (r:
    Result<(), PublishError>)
    requires
        m.results.wf(),
        m.resolved_configuration.wf(),
    ensures
        publication_error(m, run_directory@, version_directory@) matches Some(e) ==> r == Err::<
            (),
            PublishError,
        >(e),
        publication_error(m, run_directory@, version_directory@) is None ==> r == Ok::<
            (),
            PublishError,
        >(()),
{
    if let Err(fault) = validate_run_manifest(m) {
        return Err(PublishError::InvalidManifest(fault));
    }
    if validate_identifier(m.source.slate_version.as_str(), "SlateDB version").is_err() {
        return Err(PublishError::InvalidVersion);
    }
    if validate_identifier(m.run_id.as_str(), "run ID").is_err() {
        return Err(PublishError::InvalidRunId);
    }
    if !is_unscaled(&m.resolved_configuration) {
        return Err(PublishError::Scaled);
    }
    if !same_text(run_directory, m.run_id.as_str()) {
        return Err(PublishError::WrongRunDirectory);
    }
    if !same_text(version_directory, m.source.slate_version.as_str()) {
        return Err(PublishError::WrongVersionDirectory);
    }
    Ok(())
}

/// Whether a file of a bundle must be listed in its manifest.
pub open spec fn must_be_listed(path: Seq<char>) -> bool {
    paths::has_extension(paths::file_name(path), ".json"@) && paths::file_name(path)
        != "run.json"@
}

/// Whether a manifest lists exactly the files that must be listed.
pub open spec fn lists_files(results: &Named<String>, found: Seq<Seq<char>>) -> bool {
    &&& forall|i: int|
        0 <= i < found.len() && must_be_listed(#[trigger] found[i]) ==> results.has(found[i])
    &&& forall|k: int|
        0 <= k < results.names().len() ==> found.contains(#[trigger] results.names()[k])
            && must_be_listed(results.names()[k])
}

/// Whether every listed file has its digest.
pub open spec fn digests_agree(results: &Named<String>, digests: &Named<String>) -> bool {
    forall|k: int|
        0 <= k < results.names().len() ==> digests.has(#[trigger] results.names()[k])
            && digests.at(results.names()[k])@ == results.values()[k]@
}

fn is_found(found: &Vec<String>, name: &str) -> (r: bool)
    ensures
        r == text::texts(found@).contains(name@),
{
    let ghost all = text::texts(found@);
    let mut i: usize = 0;
    while i < found.len()
        invariant
            i <= found.len(),
            all == text::texts(found@),
            forall|k: int| 0 <= k < i ==> #[trigger] all[k] != name@,
        decreases found.len() - i,
    {
        if same_text(found[i].as_str(), name) {
            assert(all[i as int] == name@);
            return true;
        }
        i += 1;
    }
    assert(!all.contains(name@));
    false
}

fn is_to_be_listed(path: &str) -> (r: bool)
    ensures
        r == must_be_listed(path@),
{
    is_of_kind(path, ".json") && !is_named(path, "run.json")
}

/// Checks that a bundle holds exactly the listed files, each with its digest.
///
/// `found` holds the paths of all files relative to the bundle, and `digests` those of the listed
/// ones.
pub fn validate_bundle_files(
    results: &Named<String>,
    found: &Vec<String>,
    digests: &Named<String>,
) -> (r: Result<(), PublishError>)
    requires
        results.wf(),
        digests.wf(),
    ensures
        !lists_files(results, text::texts(found@)) ==> r == Err::<(), PublishError>(
            PublishError::FilesDiffer,
        ),
        lists_files(results, text::texts(found@)) && !digests_agree(results, digests) ==> r
            == Err::<(), PublishError>(PublishError::DigestDiffers),
        lists_files(results, text::texts(found@)) && digests_agree(results, digests) ==> r
            == Ok::<(), PublishError>(()),
{
    let ghost all = text::texts(found@);
    let mut i: usize = 0;
    while i < found.len()
        invariant
            results.wf(),
            i <= found.len(),
            all == text::texts(found@),
            forall|k: int|
                0 <= k < i && must_be_listed(#[trigger] all[k]) ==> results.has(all[k]),
        decreases found.len() - i,
    {
        if is_to_be_listed(found[i].as_str()) && results.get(found[i].as_str()).is_none() {
            assert(must_be_listed(all[i as int]) && !results.has(all[i as int]));
            return Err(PublishError::FilesDiffer);
        }
        i += 1;
    }
    let mut k: usize = 0;
    while k < results.len()
        invariant
            results.wf(),
            k <= results.names().len(),
            all == text::texts(found@),
            forall|a: int|
                0 <= a < all.len() && must_be_listed(#[trigger] all[a]) ==> results.has(all[a]),
            forall|a: int|
                0 <= a < k ==> all.contains(#[trigger] results.names()[a]) && must_be_listed(
                    results.names()[a],
                ),
        decreases results.names().len() - k,
    {
        let name: &str = results.name_at(k).as_str();
        if !is_found(found, name) || !is_to_be_listed(name) {
            assert(!(all.contains(results.names()[k as int]) && must_be_listed(
                results.names()[k as int],
            )));
            return Err(PublishError::FilesDiffer);
        }
        k += 1;
    }
    let mut j: usize = 0;
    while j < results.len()
        invariant
            results.wf(),
            digests.wf(),
            j <= results.names().len(),
            lists_files(results, all),
            all == text::texts(found@),
            forall|a: int|
                0 <= a < j ==> digests.has(#[trigger] results.names()[a]) && digests.at(
                    results.names()[a],
                )@ == results.values()[a]@,
        decreases results.names().len() - j,
    {
        let agrees = match digests.get(results.name_at(j).as_str()) {
            Some(digest) => same_text(digest.as_str(), results.value_at(j).as_str()),
            None => false,
        };
        if !agrees {
            assert(!(digests.has(results.names()[j as int]) && digests.at(
                results.names()[j as int],
            )@ == results.values()[j as int]@));
            return Err(PublishError::DigestDiffers);
        }
        j += 1;
    }
    Ok(())
}

/// Where a bundle is published, below the checkout.
pub fn publication_directory(slate_version: &str, run_id: &str) -> (r: String)
    ensures
        r@ == "results/"@ + slate_version@ + "/"@ + run_id@,
{
    "results/".to_string().concat(slate_version).concat("/").concat(run_id)
}

/// The message of the commit that publishes a bundle.
pub fn commit_message(slate_version: &str, run_id: &str) -> (r: String)
    ensures
        r@ == "Publish SlateDB "@ + slate_version@ + " benchmark run "@ + run_id@,
{
    "Publish SlateDB ".to_string().concat(slate_version).concat(" benchmark run ").concat(run_id)
}

/// A step of publication.
#[derive(Debug, Clone, Copy, PartialEq, Eq, Structural)]
pub enum GitStep {
    /// Stage the published files.
    Add,
    /// Ask whether anything is staged; success means that nothing is.
    AskForChanges,
    SetName,
    SetEmail,
    Commit,
    Fetch,
    Rebase,
    Push,
}

/// What publication comes to, or does next.
#[derive(Debug, Clone, Copy, PartialEq, Eq, Structural)]
pub enum PublishAction {
    Run(GitStep),
    AlreadyPublished,
    Published,
    Fail(PublishError),
}

/// A publication under way.
#[derive(Debug, Clone, Copy, PartialEq, Eq, Structural)]
pub struct Publication {
    pub step: GitStep,
    /// The attempt to push, counted from one.
    pub attempt: u64,
}

impl Publication {
    /// The publication and action after a step succeeded or failed.
    pub open spec fn following(self, succeeded: bool) -> (Self, PublishAction) {
        let next = |step: GitStep|
            (Publication { step, ..self }, PublishAction::Run(step));
        if self.step == GitStep::AskForChanges {
            if succeeded {
                (self, PublishAction::AlreadyPublished)
            } else {
                next(GitStep::SetName)
            }
        } else if self.step == GitStep::Push {
            if succeeded {
                (self, PublishAction::Published)
            } else if self.attempt < PUBLICATION_ATTEMPTS {
                (
                    Publication { step: GitStep::Fetch, attempt: (self.attempt + 1) as u64 },
                    PublishAction::Run(GitStep::Fetch),
                )
            } else {
                (self, PublishAction::Fail(PublishError::AlwaysOvertaken))
            }
        } else if !succeeded {
            (self, PublishAction::Fail(PublishError::CommandFailed))
        } else {
            match self.step {
                GitStep::Add => next(GitStep::AskForChanges),
                GitStep::SetName => next(GitStep::SetEmail),
                GitStep::SetEmail => next(GitStep::Commit),
                GitStep::Commit => next(GitStep::Fetch),
                GitStep::Fetch => next(GitStep::Rebase),
                _ => next(GitStep::Push),
            }
        }
    }

    /// Starts with staging the files.
    pub fn start() -> (r: Self)
        ensures
            r == (Publication { step: GitStep::Add, attempt: 1 }),
    {
        Publication { step: GitStep::Add, attempt: 1 }
    }

    fn go(&mut self, step: GitStep) -> (r: PublishAction)
        ensures
            (*final(self), r) == (Publication { step, ..*old(self) }, PublishAction::Run(step)),
    {
        self.step = step;
        PublishAction::Run(step)
    }

    /// Takes note of how a step ended, and says what is to be done next.
    pub fn advance(&mut self, succeeded: bool) -> (r: PublishAction)
        ensures
            (*final(self), r) == old(self).following(succeeded),
    {
        match self.step {
            GitStep::AskForChanges => {
                if succeeded {
                    return PublishAction::AlreadyPublished;
                }
                return self.go(GitStep::SetName);
            },
            GitStep::Push => {
                if succeeded {
                    return PublishAction::Published;
                }
                if self.attempt < PUBLICATION_ATTEMPTS {
                    self.attempt = self.attempt + 1;
                    return self.go(GitStep::Fetch);
                }
                return PublishAction::Fail(PublishError::AlwaysOvertaken);
            },
            _ => {},
        }
        if !succeeded {
            return PublishAction::Fail(PublishError::CommandFailed);
        }
        match self.step {
            GitStep::Add => self.go(GitStep::AskForChanges),
            GitStep::SetName => self.go(GitStep::SetEmail),
            GitStep::SetEmail => self.go(GitStep::Commit),
            GitStep::Commit => self.go(GitStep::Fetch),
            GitStep::Fetch => self.go(GitStep::Rebase),
            _ => self.go(GitStep::Push),
        }
    }
}

/// The last attempt to push that fails ends publication, and earlier ones start over from a fetch.
pub proof fn pushes_are_bounded(p: Publication)
    requires
        p.step == GitStep::Push,
        1 <= p.attempt <= PUBLICATION_ATTEMPTS,
    ensures
        p.following(false).1 is Fail <==> p.attempt == PUBLICATION_ATTEMPTS,
        p.following(false).1 is Run ==> p.following(false).0.attempt == p.attempt + 1
            && p.following(false).0.step == GitStep::Fetch,
{
}

/// Every push follows a fetch and a rebase of the same attempt.
pub proof fn pushes_follow_a_rebase(p: Publication, succeeded: bool)
    requires
        p.following(succeeded).1 == PublishAction::Run(GitStep::Push),
    ensures
        p.step == GitStep::Rebase,
        succeeded,
        p.following(succeeded).0.attempt == p.attempt,
{
}

/// A bundle is published exactly where its manifest is valid and names its version and its run, it
/// ran at full scale, and it lies in the directories of that version and run.
pub proof fn publications_are_judged(
    m: &RunManifest,
    run_directory: Seq<char>,
    version_directory: Seq<char>,
)
    ensures
        publication_error(m, run_directory, version_directory) is None <==> {
            &&& manifest::manifest_fault(
                m,
                validation::is_rfc3339(m.started_at@),
                validation::is_rfc3339(m.finished_at@),
            ) is None
            &&& names::is_name(m.source.slate_version@)
            &&& names::is_name(m.run_id@)
            &&& forall|i: int|
                0 <= i < m.resolved_configuration.names().len() ==> bits::same_number(
                    (#[trigger] m.resolved_configuration.values()[i]).scale,
                    0x3ff0_0000_0000_0000,
                )
            &&& run_directory == m.run_id@
            &&& version_directory == m.source.slate_version@
        },
{
}

/// The files of a bundle are exactly those that its manifest lists: every other document is listed,
/// and everything listed is there.
pub proof fn bundles_hold_what_they_list(
    results: &Named<String>,
    digests: &Named<String>,
    found: Seq<Seq<char>>,
    i: int,
    k: int,
)
    requires
        lists_files(results, found),
        digests_agree(results, digests),
    ensures
        0 <= i < found.len() && paths::has_extension(paths::file_name(found[i]), ".json"@)
            && paths::file_name(found[i]) != "run.json"@ ==> results.has(found[i]),
        0 <= k < results.names().len() ==> {
            let name = results.names()[k];
            &&& found.contains(name)
            &&& paths::has_extension(paths::file_name(name), ".json"@)
            &&& paths::file_name(name) != "run.json"@
            &&& digests.has(name)
            &&& digests.at(name)@ == results.values()[k]@
        },
{
}

/// Publication stages the files, stops where nothing changed, commits under a name and an address,
/// and pushes after fetching and rebasing; any other step that fails ends it.
pub proof fn publication_goes_step_by_step(p: Publication)
    ensures
        p.step == GitStep::Add ==> p.following(true) == (
            Publication { step: GitStep::AskForChanges, ..p },
            PublishAction::Run(GitStep::AskForChanges),
        ),
        p.step == GitStep::AskForChanges ==> p.following(true).1 == PublishAction::AlreadyPublished
            && p.following(false) == (
            Publication { step: GitStep::SetName, ..p },
            PublishAction::Run(GitStep::SetName),
        ),
        p.step == GitStep::SetName ==> p.following(true) == (
            Publication { step: GitStep::SetEmail, ..p },
            PublishAction::Run(GitStep::SetEmail),
        ),
        p.step == GitStep::SetEmail ==> p.following(true) == (
            Publication { step: GitStep::Commit, ..p },
            PublishAction::Run(GitStep::Commit),
        ),
        p.step == GitStep::Commit ==> p.following(true) == (
            Publication { step: GitStep::Fetch, ..p },
            PublishAction::Run(GitStep::Fetch),
        ),
        p.step == GitStep::Fetch ==> p.following(true) == (
            Publication { step: GitStep::Rebase, ..p },
            PublishAction::Run(GitStep::Rebase),
        ),
        p.step == GitStep::Rebase ==> p.following(true) == (
            Publication { step: GitStep::Push, ..p },
            PublishAction::Run(GitStep::Push),
        ),
        p.step == GitStep::Push ==> p.following(true).1 == PublishAction::Published,
        p.step == GitStep::Push && p.attempt < 5 ==> p.following(false).1 == PublishAction::Run(
            GitStep::Fetch,
        ) && p.following(false).0.attempt == p.attempt + 1,
        p.step == GitStep::Push && p.attempt >= 5 ==> p.following(false).1 == PublishAction::Fail(
            PublishError::AlwaysOvertaken,
        ),
        p.step != GitStep::Push && p.step != GitStep::AskForChanges ==> p.following(false).1
            == PublishAction::Fail(PublishError::CommandFailed),
{
}

/// The manifests of a bundle are found wherever they lie.
pub proof fn manifests_are_found(found: Seq<Seq<char>>, name: Seq<char>, i: int)
    ensures
        positions_named(found, name).contains(i) <==> 0 <= i < found.len() && paths::file_name(
            found[i],
        ) == name,
    decreases found.len(),
{
    if found.len() > 0 {
        let rest = found.drop_last();
        manifests_are_found(rest, name, i);
        let before = positions_named(rest, name);
        let all = positions_named(found, name);
        if paths::file_name(found.last()) == name {
            assert(all == before.push(found.len() - 1));
            assert(all[all.len() - 1] == found.len() - 1);
            if before.contains(i) {
                let k = choose|k: int| 0 <= k < before.len() && before[k] == i;
                assert(all[k] == i);
            }
            if all.contains(i) && i != found.len() - 1 {
                let k = choose|k: int| 0 <= k < all.len() && all[k] == i;
                assert(before[k] == i);
            }
        }
    }
}

} // verus!
