//! Assembly of validated workload outputs into a publishable run.

use crate::bits;
use crate::bits::equal;
use crate::config;
use crate::config::Task;
use crate::faults;
use crate::manifest::{validate_workload_series, SidecarFault};
use crate::manifest;
use crate::model::{
    AppliedPatch, GoldenManifest, ResultConfiguration, RunManifest, WorkloadResult, WorkloadSeries,
};
use crate::named::Named;
use crate::names;
use crate::names::validate_identifier;
use crate::paths;
use crate::paths::is_of_kind;
use crate::runner::matching;
use crate::runner::matching::starts_from;
use crate::text;
use crate::text::{insert_sorted, same_text};
use crate::validation;
use crate::validation::{
    validate_golden_manifest, validate_workload_result, AverageVerdicts, Fault,
};
use vstd::prelude::*;

verus! {

/// Why a bundle is refused.
#[derive(Debug, Clone, Copy, PartialEq, Eq, Structural)]
pub enum BundleError {
    InvalidGoldenId,
    GoldenInvalid(Fault),
    OtherGolden,
    NotCompacted,
    UnknownWorkload(usize),
    NoWorkloads,
    ResultInvalid(Fault),
    ResultOfOtherTask,
    ResultOfOtherGolden,
    SeriesDigestDiffers,
    SeriesInvalid(SidecarFault),
    OtherSlateCommit(Task),
    OtherRunnerCommit(Task),
    InvalidVersion,
    InvalidRunId,
    OtherSession,
    OtherScale(Task),
    NotEmptyAtStart,
    NotFromGoldenCheckpoint(Task),
    GoldenScaleDiffers,
}

/// What keeps a golden manifest out of a bundle.
pub open spec fn golden_error(golden_id: Seq<char>, golden: &GoldenManifest) -> Option<
    BundleError,
> {
    let fault = validation::golden_fault(
        golden,
        validation::is_rfc3339(golden.timestamp@),
        validation::is_uuid(golden.checkpoint.checkpoint_id@),
    );
    if !names::is_name(golden_id) {
        Some(BundleError::InvalidGoldenId)
    } else if fault is Some {
        Some(BundleError::GoldenInvalid(fault->0))
    } else if golden.golden_id@ != golden_id {
        Some(BundleError::OtherGolden)
    } else if golden.configuration.task.task != Task::Compaction {
        Some(BundleError::NotCompacted)
    } else {
        None
    }
}

/// Checks the golden manifest of a bundle.
pub fn check_golden(golden_id: &str, golden: &GoldenManifest) -> (r: Result<(), BundleError>)
    ensures
        golden_error(golden_id@, golden) matches Some(e) ==> r == Err::<(), BundleError>(e),
        golden_error(golden_id@, golden) is None ==> r == Ok::<(), BundleError>(()),
{
    if validate_identifier(golden_id, "golden ID").is_err() {
        return Err(BundleError::InvalidGoldenId);
    }
    if let Err(fault) = validate_golden_manifest(golden) {
        return Err(BundleError::GoldenInvalid(fault));
    }
    if !same_text(golden.golden_id.as_str(), golden_id) {
        return Err(BundleError::OtherGolden);
    }
    if golden.configuration.task.task != Task::Compaction {
        return Err(BundleError::NotCompacted);
    }
    Ok(())
}

/// Whether a name is that of a workload.
pub open spec fn names_workload(name: Seq<char>) -> bool {
    exists|i: int|
        0 <= i < config::workload_catalog().len() && (
        #[trigger] config::workload_catalog()[i]).label() == name
}

/// The tasks of a list whose names are among others, in the order of the list.
pub open spec fn chosen(tasks: Seq<Task>, found: Seq<Seq<char>>) -> Seq<Task>
    decreases tasks.len(),
{
    if tasks.len() == 0 {
        Seq::empty()
    } else {
        let rest = chosen(tasks.drop_last(), found);
        if found.contains(tasks.last().label()) {
            rest.push(tasks.last())
        } else {
            rest
        }
    }
}

fn listed(found: &Vec<String>, name: &str) -> (r: bool)
    ensures
        r == text::texts(found@).contains(name@),
{
    let ghost all = text::texts(found@);
    let mut i: usize = 0;
    while i < found.len()
        invariant
            i <= found.len(),
            all == text::texts(found@),
            forall|k: int| 0 <= k < i ==> #[trigger] all[k] != name@,
        decreases found.len() - i,
    {
        if same_text(found[i].as_str(), name) {
            assert(all[i as int] == name@);
            return true;
        }
        i += 1;
    }
    assert(!all.contains(name@));
    false
}

fn is_workload(name: &str) -> (r: bool)
    ensures
        r == names_workload(name@),
{
    let catalog = Task::workloads();
    let mut i: usize = 0;
    while i < catalog.len()
        invariant
            i <= catalog.len(),
            catalog@ == config::workload_catalog(),
            forall|k: int| 0 <= k < i ==> (#[trigger] catalog@[k]).label() != name@,
        decreases catalog.len() - i,
    {
        if same_text(catalog[i].as_str(), name) {
            assert(config::workload_catalog()[i as int].label() == name@);
            return true;
        }
        i += 1;
    }
    false
}

/// Turns the names of the directories that hold results into workloads, in catalog order.
pub fn discover_workloads(found: &Vec<String>) -> (r: Result<Vec<Task>, BundleError>)
    ensures
        r is Ok <==> found.len() > 0 && forall|i: int|
            0 <= i < found.len() ==> names_workload(#[trigger] text::texts(found@)[i]),
        r matches Ok(tasks) ==> tasks@ == chosen(
            config::workload_catalog(),
            text::texts(found@),
        ),
        r matches Err(e) ==> if found.len() == 0 {
            e == BundleError::NoWorkloads
        } else {
            exists|i: usize|
                i < found.len() && !names_workload(#[trigger] text::texts(found@)[i as int])
                    && (forall|k: int|
                    0 <= k < i ==> names_workload(#[trigger] text::texts(found@)[k])) && e
                    == BundleError::UnknownWorkload(i)
        },
{
    let ghost all = text::texts(found@);
    let mut i: usize = 0;
    while i < found.len()
        invariant
            i <= found.len(),
            all == text::texts(found@),
            forall|k: int| 0 <= k < i ==> names_workload(#[trigger] all[k]),
        decreases found.len() - i,
    {
        if !is_workload(found[i].as_str()) {
            assert(!names_workload(all[i as int]));
            return Err(BundleError::UnknownWorkload(i));
        }
        i += 1;
    }
    if found.len() == 0 {
        return Err(BundleError::NoWorkloads);
    }
    let catalog = Task::workloads();
    let mut tasks: Vec<Task> = Vec::new();
    let mut k: usize = 0;
    while k < catalog.len()
        invariant
            k <= catalog.len(),
            catalog@ == config::workload_catalog(),
            all == text::texts(found@),
            tasks@ == chosen(catalog@.take(k as int), all),
        decreases catalog.len() - k,
    {
        proof {
            assert(catalog@.take(k + 1).drop_last() =~= catalog@.take(k as int));
        }
        if listed(found, catalog[k].as_str()) {
            tasks.push(catalog[k]);
        }
        k += 1;
    }
    assert(catalog@.take(catalog.len() as int) =~= catalog@);
    Ok(tasks)
}

/// What keeps a result out of a bundle, whatever its sidecar holds.
pub open spec fn result_error(
    task: Task,
    result: &WorkloadResult,
    golden_id: Seq<char>,
    verdicts: &AverageVerdicts,
) -> Option<BundleError> {
    let fault = validation::workload_fault(
        result,
        verdicts,
        validation::is_rfc3339(result.timestamp@),
    );
    if fault is Some {
        Some(BundleError::ResultInvalid(fault->0))
    } else if result.task != task {
        Some(BundleError::ResultOfOtherTask)
    } else if result.golden_id@ != golden_id {
        Some(BundleError::ResultOfOtherGolden)
    } else {
        None
    }
}

/// Checks a result before its sidecar is read.
pub fn check_result(
    task: Task,
    result: &WorkloadResult,
    golden_id: &str,
    verdicts: &AverageVerdicts,
) -> (r: Result<(), BundleError>)
    requires
        result.application.wf(),
        result.object_store.wf(),
        verdicts.wf(),
    ensures
        r == (match result_error(task, result, golden_id@, verdicts) {
            Some(e) => Err(e),
            None => Ok(()),
        }),
{
    if let Err(fault) = validate_workload_result(result, verdicts) {
        return Err(BundleError::ResultInvalid(fault));
    }
    if result.task != task {
        return Err(BundleError::ResultOfOtherTask);
    }
    if !same_text(result.golden_id.as_str(), golden_id) {
        return Err(BundleError::ResultOfOtherGolden);
    }
    Ok(())
}

/// Checks the digest of a sidecar before it is taken apart.
pub fn check_series_digest(result: &WorkloadResult, series_digest: &str) -> (r: Result<
    (),
    BundleError,
>)
    ensures
        r == (if series_digest@ == result.series.sha256@ {
            Ok(())
        } else {
            Err(BundleError::SeriesDigestDiffers)
        }),
{
    if same_text(series_digest, result.series.sha256.as_str()) {
        Ok(())
    } else {
        Err(BundleError::SeriesDigestDiffers)
    }
}

/// What keeps a result out of a bundle, given the digest of its sidecar.
pub open spec fn member_error(
    task: Task,
    result: &WorkloadResult,
    golden_id: Seq<char>,
    series_digest: Seq<char>,
    series: &WorkloadSeries,
    verdicts: &AverageVerdicts,
) -> Option<BundleError> {
    if result_error(task, result, golden_id, verdicts) is Some {
        result_error(task, result, golden_id, verdicts)
    } else if series_digest != result.series.sha256@ {
        Some(BundleError::SeriesDigestDiffers)
    } else if manifest::sidecar_fault(result, series) is Some {
        Some(BundleError::SeriesInvalid(manifest::sidecar_fault(result, series)->0))
    } else {
        None
    }
}

/// Checks a result and its sidecar before they join a bundle.
pub fn check_member(
    task: Task,
    result: &WorkloadResult,
    golden_id: &str,
    series_digest: &str,
    series: &WorkloadSeries,
    verdicts: &AverageVerdicts,
) -> (r: Result<(), BundleError>)
    requires
        result.application.wf(),
        result.object_store.wf(),
        series.application.wf(),
        series.object_store.wf(),
        verdicts.wf(),
    ensures
        member_error(task, result, golden_id@, series_digest@, series, verdicts) matches Some(e)
            ==> r == Err::<(), BundleError>(e),
        member_error(task, result, golden_id@, series_digest@, series, verdicts) is None ==> r
            == Ok::<(), BundleError>(()),
{
    if let Err(error) = check_result(task, result, golden_id, verdicts) {
        return Err(error);
    }
    if let Err(error) = check_series_digest(result, series_digest) {
        return Err(error);
    }
    if let Err(fault) = validate_workload_series(result, series) {
        return Err(BundleError::SeriesInvalid(fault));
    }
    Ok(())
}

/// What sets a result's builds apart from those of the first result.
pub open spec fn source_error(first: &WorkloadResult, result: &WorkloadResult) -> Option<
    BundleError,
> {
    if result.source.slate_commit@ != first.source.slate_commit@ {
        Some(BundleError::OtherSlateCommit(result.task))
    } else if result.source.runner_commit@ != first.source.runner_commit@ {
        Some(BundleError::OtherRunnerCommit(result.task))
    } else {
        None
    }
}

/// What sets a result apart from the run of the first result and from the golden dataset.
pub open spec fn run_error(
    first: &WorkloadResult,
    result: &WorkloadResult,
    golden: &GoldenManifest,
) -> Option<BundleError> {
    if result.session@ != first.session@ {
        Some(BundleError::OtherSession)
    } else if !bits::same_number(result.configuration.scale, first.configuration.scale) {
        Some(BundleError::OtherScale(result.task))
    } else if result.task == Task::SustainedIngest {
        if result.initial_state.kind@ != "empty"@ {
            Some(BundleError::NotEmptyAtStart)
        } else {
            None
        }
    } else if !matching::started_from(result.initial_state, golden.checkpoint) {
        Some(BundleError::NotFromGoldenCheckpoint(result.task))
    } else {
        None
    }
}

/// The first difference between the builds of results.
pub open spec fn sources_error(workloads: Seq<WorkloadResult>) -> Option<BundleError> {
    faults::first_of(
        Seq::new(workloads.len(), |i: int| source_error(&workloads[0], &workloads[i])),
    )
}

/// Checks that all results come from the same builds.
pub fn validate_source_identities(workloads: &Vec<WorkloadResult>) -> (r: Result<(), BundleError>)
    ensures
        workloads.len() == 0 ==> r == Err::<(), BundleError>(BundleError::NoWorkloads),
        workloads.len() > 0 ==> (match sources_error(workloads@) {
            Some(e) => r == Err::<(), BundleError>(e),
            None => r == Ok::<(), BundleError>(()),
        }),
{
    if workloads.len() == 0 {
        return Err(BundleError::NoWorkloads);
    }
    let first = &workloads[0];
    let ghost errors = Seq::new(
        workloads.len() as nat,
        |i: int| source_error(&workloads@[0], &workloads@[i]),
    );
    let mut i: usize = 0;
    while i < workloads.len()
        invariant
            i <= workloads.len(),
            workloads.len() > 0,
            *first == workloads@[0],
            errors == Seq::new(
                workloads.len() as nat,
                |i: int| source_error(&workloads@[0], &workloads@[i]),
            ),
            faults::first_of(errors.take(i as int)) is None,
        decreases workloads.len() - i,
    {
        let result = &workloads[i];
        proof {
            assert(errors[i as int] == source_error(first, result));
            assert(errors.take(i + 1).drop_last() =~= errors.take(i as int));
            if errors[i as int] is Some {
                faults::found_here(errors, i as int);
            }
        }
        if !same_text(
            result.source.slate_commit.as_str(),
            first.source.slate_commit.as_str(),
        ) {
            return Err(BundleError::OtherSlateCommit(result.task));
        }
        if !same_text(
            result.source.runner_commit.as_str(),
            first.source.runner_commit.as_str(),
        ) {
            return Err(BundleError::OtherRunnerCommit(result.task));
        }
        i += 1;
    }
    assert(errors.take(errors.len() as int) =~= errors);
    Ok(())
}

/// What keeps results and a golden dataset from forming one run.
pub open spec fn bundle_error(golden: &GoldenManifest, workloads: Seq<WorkloadResult>) -> Option<
    BundleError,
> {
    if workloads.len() == 0 {
        Some(BundleError::NoWorkloads)
    } else if sources_error(workloads) is Some {
        sources_error(workloads)
    } else if !names::is_name(workloads[0].source.slate_version@) {
        Some(BundleError::InvalidVersion)
    } else if !names::is_name(workloads[0].session@) {
        Some(BundleError::InvalidRunId)
    } else if runs_error(golden, workloads) is Some {
        runs_error(golden, workloads)
    } else if !bits::same_number(golden.configuration.scale, workloads[0].configuration.scale) {
        Some(BundleError::GoldenScaleDiffers)
    } else {
        None
    }
}

/// The first difference between the runs of results.
pub open spec fn runs_error(golden: &GoldenManifest, workloads: Seq<WorkloadResult>) -> Option<
    BundleError,
> {
    faults::first_of(
        Seq::new(workloads.len(), |i: int| run_error(&workloads[0], &workloads[i], golden)),
    )
}

fn find_run_error(
    first: &WorkloadResult,
    result: &WorkloadResult,
    golden: &GoldenManifest,
) -> (r: Option<BundleError>)
    ensures
        r == run_error(first, result, golden),
{
    if !same_text(result.session.as_str(), first.session.as_str()) {
        return Some(BundleError::OtherSession);
    }
    if !equal(result.configuration.scale, first.configuration.scale) {
        return Some(BundleError::OtherScale(result.task));
    }
    if result.task == Task::SustainedIngest {
        if !same_text(result.initial_state.kind.as_str(), "empty") {
            return Some(BundleError::NotEmptyAtStart);
        }
        None
    } else if !starts_from(&result.initial_state, &golden.checkpoint) {
        Some(BundleError::NotFromGoldenCheckpoint(result.task))
    } else {
        None
    }
}

/// Checks that results and a golden dataset form one run.
pub fn check_bundle(golden: &GoldenManifest, workloads: &Vec<WorkloadResult>) -> (r: Result<
    (),
    BundleError,
>)
    ensures
        bundle_error(golden, workloads@) matches Some(e) ==> r == Err::<(), BundleError>(e),
        bundle_error(golden, workloads@) is None ==> r == Ok::<(), BundleError>(()),
{
    validate_source_identities(workloads)?;
    let first = &workloads[0];
    if validate_identifier(first.source.slate_version.as_str(), "SlateDB version").is_err() {
        return Err(BundleError::InvalidVersion);
    }
    if validate_identifier(first.session.as_str(), "run ID").is_err() {
        return Err(BundleError::InvalidRunId);
    }
    let ghost errors = Seq::new(
        workloads.len() as nat,
        |i: int| run_error(&workloads@[0], &workloads@[i], golden),
    );
    let mut i: usize = 0;
    while i < workloads.len()
        invariant
            i <= workloads.len(),
            workloads.len() > 0,
            *first == workloads@[0],
            sources_error(workloads@) is None,
            names::is_name(first.source.slate_version@),
            names::is_name(first.session@),
            errors == Seq::new(
                workloads.len() as nat,
                |i: int| run_error(&workloads@[0], &workloads@[i], golden),
            ),
            faults::first_of(errors.take(i as int)) is None,
        decreases workloads.len() - i,
    {
        let found = find_run_error(first, &workloads[i], golden);
        proof {
            assert(errors[i as int] == found);
            assert(errors.take(i + 1).drop_last() =~= errors.take(i as int));
            if found is Some {
                faults::found_here(errors, i as int);
            }
        }
        if let Some(e) = found {
            return Err(e);
        }
        i += 1;
    }
    assert(errors.take(errors.len() as int) =~= errors);
    if !equal(golden.configuration.scale, first.configuration.scale) {
        return Err(BundleError::GoldenScaleDiffers);
    }
    Ok(())
}

/// The texts that are names of patches.
pub open spec fn patches_among(found: Seq<Seq<char>>) -> Seq<Seq<char>>
    decreases found.len(),
{
    if found.len() == 0 {
        Seq::empty()
    } else {
        let rest = patches_among(found.drop_last());
        if paths::has_extension(paths::file_name(found.last()), ".patch"@) {
            rest.push(found.last())
        } else {
            rest
        }
    }
}

/// Selects the patches among file names, in the order of their names.
pub fn select_patches(found: &Vec<String>) -> (r: Vec<String>)
    ensures
        text::in_order(text::texts(r@)),
        text::texts(r@).to_multiset() == patches_among(text::texts(found@)).to_multiset(),
{
    broadcast use vstd::seq_lib::group_to_multiset_ensures;

    let ghost all = text::texts(found@);
    let mut sorted: Vec<String> = Vec::new();
    let mut i: usize = 0;
    assert(text::texts(sorted@) =~= patches_among(all.take(0)));
    while i < found.len()
        invariant
            i <= found.len(),
            all == text::texts(found@),
            text::in_order(text::texts(sorted@)),
            text::texts(sorted@).to_multiset() == patches_among(
                all.take(i as int),
            ).to_multiset(),
        decreases found.len() - i,
    {
        proof {
            assert(all.take(i + 1).drop_last() =~= all.take(i as int));
            assert(all.take(i + 1).last() == all[i as int]);
            vstd::seq_lib::to_multiset_build(patches_among(all.take(i as int)), all[i as int]);
        }
        if is_of_kind(found[i].as_str(), ".patch") {
            insert_sorted(&mut sorted, found[i].clone());
        }
        i += 1;
    }
    assert(all.take(all.len() as int) =~= all);
    sorted
}

/// A result that joins a bundle, with the digests of its files.
pub struct BundleMember {
    pub result: WorkloadResult,
    pub result_sha256: String,
    pub series_sha256: String,
}

/// Where a bundle keeps a result.
pub open spec fn result_path(task: Task) -> Seq<char> {
    "workload/"@ + task.label() + "/result.json"@
}

/// Where a bundle keeps a sidecar.
pub open spec fn series_path(task: Task) -> Seq<char> {
    "workload/"@ + task.label() + "/series.json"@
}

/// Names the place of a result in a bundle.
pub fn result_location(task: Task) -> (r: String)
    ensures
        r@ == result_path(task),
{
    "workload/".to_string().concat(task.as_str()).concat("/result.json")
}

/// Names the place of a sidecar in a bundle.
pub fn series_location(task: Task) -> (r: String)
    ensures
        r@ == series_path(task),
{
    "workload/".to_string().concat(task.as_str()).concat("/series.json")
}

/// The digests of the files of a bundle with the first members.
pub open spec fn listed_digests(
    golden: Seq<char>,
    members: Seq<BundleMember>,
    k: int,
) -> Map<Seq<char>, Seq<char>>
    decreases k,
{
    if k <= 0 {
        Map::empty().insert("golden.json"@, golden)
    } else {
        let member = members[k - 1];
        listed_digests(golden, members, k - 1).insert(
            result_path(member.result.task),
            member.result_sha256@,
        ).insert(series_path(member.result.task), member.series_sha256@)
    }
}

/// The configurations of a bundle with the first members.
pub open spec fn listed_configurations(
    golden: ResultConfiguration,
    members: Seq<BundleMember>,
    k: int,
) -> Map<Seq<char>, ResultConfiguration>
    decreases k,
{
    if k <= 0 {
        Map::empty().insert("golden"@, golden)
    } else {
        let member = members[k - 1];
        listed_configurations(golden, members, k - 1).insert(
            member.result.task.label(),
            member.result.configuration,
        )
    }
}

/// The characters under each name.
pub open spec fn texts_under(table: Map<Seq<char>, String>) -> Map<Seq<char>, Seq<char>> {
    table.map_values(|s: String| s@)
}

/// Writes the manifest of a bundle.
pub fn assemble_manifest(
    golden: GoldenManifest,
    golden_sha256: String,
    members: Vec<BundleMember>,
    started_at: String,
    finished_at: String,
    patches: Vec<AppliedPatch>,
) -> (r: RunManifest)
    requires
        members.len() > 0,
    ensures
        r.status@ == "ok"@,
        r.run_id == members@[0].result.session,
        r.golden_id == golden.golden_id,
        r.started_at == started_at,
        r.finished_at == finished_at,
        r.patches == patches,
        r.source == members@[0].result.source,
        r.golden_runner_commit == golden.source.runner_commit,
        r.resolved_configuration.wf(),
        r.resolved_configuration.map() == listed_configurations(
            golden.configuration,
            members@,
            members.len() as int,
        ),
        r.max_parallel == members.len(),
        r.results.wf(),
        texts_under(r.results.map()) == listed_digests(
            golden_sha256@,
            members@,
            members.len() as int,
        ),
{
    let ghost all = members@;
    let ghost golden_digest = golden_sha256@;
    let ghost golden_configuration = golden.configuration;
    let max_parallel: usize = members.len();
    let mut results: Named<String> = Named::new();
    results.put("golden.json".to_string(), golden_sha256);
    let mut configurations: Named<ResultConfiguration> = Named::new();
    configurations.put("golden".to_string(), golden.configuration);
    proof {
        assert(texts_under(results.map()) =~= listed_digests(golden_digest, all, 0));
        assert(configurations.map() =~= listed_configurations(golden_configuration, all, 0));
    }
    let mut rest = members;
    let first = rest.remove(0);
    let task = first.result.task;
    let ghost mut i: int = 1;
    proof {
        assert(rest@ =~= all.skip(1));
    }
    let ghost before = results.map();
    results.put(result_location(task), first.result_sha256);
    results.put(series_location(task), first.series_sha256);
    configurations.put(task.as_str().to_string(), first.result.configuration);
    proof {
        assert(texts_under(results.map()) =~= texts_under(before).insert(
            result_path(task),
            all[0].result_sha256@,
        ).insert(series_path(task), all[0].series_sha256@));
        assert(listed_digests(golden_digest, all, 1) == listed_digests(
            golden_digest,
            all,
            0,
        ).insert(result_path(task), all[0].result_sha256@).insert(
            series_path(task),
            all[0].series_sha256@,
        ));
        assert(listed_configurations(golden_configuration, all, 1) == listed_configurations(
            golden_configuration,
            all,
            0,
        ).insert(task.label(), all[0].result.configuration));
    }
    while rest.len() > 0
        invariant
            results.wf(),
            configurations.wf(),
            1 <= i <= all.len(),
            rest@ == all.skip(i),
            texts_under(results.map()) == listed_digests(golden_digest, all, i),
            configurations.map() == listed_configurations(golden_configuration, all, i),
        ensures
            i == all.len(),
        decreases rest.len(),
    {
        let member = rest.remove(0);
        proof {
            assert(member == all[i]);
            assert(rest@ =~= all.skip(i + 1));
        }
        let task = member.result.task;
        let ghost before = results.map();
        results.put(result_location(task), member.result_sha256);
        results.put(series_location(task), member.series_sha256);
        configurations.put(task.as_str().to_string(), member.result.configuration);
        proof {
            assert(texts_under(results.map()) =~= texts_under(before).insert(
                result_path(task),
                all[i].result_sha256@,
            ).insert(series_path(task), all[i].series_sha256@));
            i = i + 1;
        }
    }
    RunManifest {
        status: "ok".to_string(),
        run_id: first.result.session,
        golden_id: golden.golden_id,
        started_at,
        finished_at,
        patches,
        source: first.result.source,
        golden_runner_commit: golden.source.runner_commit,
        resolved_configuration: configurations,
        max_parallel,
        results,
    }
}

/// Workloads are discovered in catalog order, each once and none that is not there.
pub proof fn discovered_workloads_are_those_found(found: Seq<Seq<char>>, task: Task)
    ensures
        chosen(config::workload_catalog(), found).contains(task)
            <==> config::workload_catalog().contains(task) && found.contains(task.label()),
{
    chosen_are_those_found(config::workload_catalog(), found, task);
}

proof fn chosen_are_those_found(tasks: Seq<Task>, found: Seq<Seq<char>>, task: Task)
    ensures
        chosen(tasks, found).contains(task) <==> tasks.contains(task) && found.contains(
            task.label(),
        ),
    decreases tasks.len(),
{
    if tasks.len() > 0 {
        let rest = tasks.drop_last();
        let chosen_rest = chosen(rest, found);
        chosen_are_those_found(rest, found, task);
        if tasks.contains(task) {
            let i = choose|i: int| 0 <= i < tasks.len() && tasks[i] == task;
            if i < rest.len() {
                assert(rest[i] == task);
            }
        }
        if rest.contains(task) {
            let i = choose|i: int| 0 <= i < rest.len() && rest[i] == task;
            assert(tasks[i] == task);
        }
        let all = chosen(tasks, found);
        if found.contains(tasks.last().label()) {
            assert(all[all.len() - 1] == tasks.last());
            if chosen_rest.contains(task) {
                let i = choose|i: int| 0 <= i < chosen_rest.len() && chosen_rest[i] == task;
                assert(all[i] == task);
            }
            if all.contains(task) {
                let i = choose|i: int| 0 <= i < all.len() && all[i] == task;
                if i < chosen_rest.len() {
                    assert(chosen_rest[i] == task);
                }
            }
            assert(tasks[tasks.len() - 1] == tasks.last());
        }
    }
}

/// A golden manifest is bundled only where it is named, valid, the one asked for, and compacted.
pub proof fn bundled_goldens_are_judged(golden_id: Seq<char>, golden: &GoldenManifest)
    ensures
        golden_error(golden_id, golden) is None <==> {
            &&& names::is_name(golden_id)
            &&& validation::golden_fault(
                golden,
                validation::is_rfc3339(golden.timestamp@),
                validation::is_uuid(golden.checkpoint.checkpoint_id@),
            ) is None
            &&& golden.golden_id@ == golden_id
            &&& golden.configuration.task.task == Task::Compaction
        },
{
}

/// A result is bundled only where it is valid, of its task and of the golden dataset, with the
/// sidecar whose digest it recorded.
pub proof fn bundled_results_are_judged(
    task: Task,
    result: &WorkloadResult,
    golden_id: Seq<char>,
    series_digest: Seq<char>,
    series: &WorkloadSeries,
    verdicts: &AverageVerdicts,
)
    ensures
        member_error(task, result, golden_id, series_digest, series, verdicts) is None <==> {
            &&& validation::workload_fault(
                result,
                verdicts,
                validation::is_rfc3339(result.timestamp@),
            ) is None
            &&& result.task == task
            &&& result.golden_id@ == golden_id
            &&& series_digest == result.series.sha256@
            &&& manifest::sidecar_fault(result, series) is None
        },
{
}

/// The results of a bundle come of one session, one scale and the same two revisions, and each of
/// the golden checkpoint, except that sustained ingestion starts empty.
pub proof fn bundles_hold_one_run(golden: &GoldenManifest, workloads: Seq<WorkloadResult>, i: int)
    requires
        bundle_error(golden, workloads) is None,
        0 <= i < workloads.len(),
    ensures
        workloads[i].source.slate_commit@ == workloads[0].source.slate_commit@,
        workloads[i].source.runner_commit@ == workloads[0].source.runner_commit@,
        workloads[i].session@ == workloads[0].session@,
        bits::same_number(workloads[i].configuration.scale, workloads[0].configuration.scale),
        bits::same_number(golden.configuration.scale, workloads[0].configuration.scale),
        workloads[i].task == Task::SustainedIngest ==> workloads[i].initial_state.kind@ == "empty"@,
        workloads[i].task != Task::SustainedIngest ==> {
            let state = workloads[i].initial_state;
            &&& state.checkpoint_id is Some
            &&& state.checkpoint_id->0@ == golden.checkpoint.checkpoint_id@
            &&& state.manifest_id == Some(golden.checkpoint.manifest_id)
            &&& state.lsm_digest_sha256@ == golden.checkpoint.lsm_digest_sha256@
        },
        names::is_name(workloads[0].source.slate_version@),
        names::is_name(workloads[0].session@),
{
    let sources = Seq::new(
        workloads.len(),
        |i: int| source_error(&workloads[0], &workloads[i]),
    );
    let runs = Seq::new(workloads.len(), |i: int| run_error(&workloads[0], &workloads[i], golden));
    assert(sources_error(workloads) == faults::first_of(sources));
    assert(runs_error(golden, workloads) == faults::first_of(runs));
    faults::rows_pass_where_every_check_does(sources);
    faults::rows_pass_where_every_check_does(runs);
    assert(sources[i] is None && runs[i] is None);
}

/// A manifest lists the golden manifest, and the result and the sidecar of every member, each with
/// its digest.
pub proof fn manifests_list_every_file(
    golden: Seq<char>,
    members: Seq<BundleMember>,
    k: int,
    i: int,
)
    requires
        0 <= i < k <= members.len(),
        forall|a: int, b: int|
            0 <= a < b < members.len() ==> (#[trigger] members[a]).result.task != (
            #[trigger] members[b]).result.task,
    ensures
        ({
            let listed = listed_digests(golden, members, k);
            let folder = "workload/"@ + members[i].result.task.label();
            &&& listed.dom().contains(folder + "/result.json"@)
            &&& listed[folder + "/result.json"@] == members[i].result_sha256@
            &&& listed.dom().contains(folder + "/series.json"@)
            &&& listed[folder + "/series.json"@] == members[i].series_sha256@
        }),
    decreases k,
{
    let last = members[k - 1].result.task;
    let task = members[i].result.task;
    places_are_distinct(task, last);
    if i < k - 1 {
        assert(members[i].result.task != members[k - 1].result.task);
        manifests_list_every_file(golden, members, k - 1, i);
    }
}

proof fn places_are_distinct(a: Task, b: Task)
    ensures
        result_path(a) != series_path(b),
        series_path(a) != result_path(b),
        a != b ==> result_path(a) != result_path(b) && series_path(a) != series_path(b),
{
    reveal_strlit("/result.json");
    reveal_strlit("/series.json");
    reveal_strlit("workload/");
    assert(result_path(a).len() >= 12 && series_path(a).len() >= 12 && result_path(b).len() >= 12
        && series_path(b).len() >= 12);
    assert(result_path(a)[result_path(a).len() - 11] == 'r');
    assert(series_path(a)[series_path(a).len() - 11] == 's');
    assert(result_path(b)[result_path(b).len() - 11] == 'r');
    assert(series_path(b)[series_path(b).len() - 11] == 's');
    if result_path(a) == result_path(b) {
        let n = result_path(a).len();
        assert(a.label() =~= result_path(a).subrange(9, n - 12));
        assert(b.label() =~= result_path(b).subrange(9, n - 12));
        config::labels_are_distinct(a, b);
    }
    if series_path(a) == series_path(b) {
        let n = series_path(a).len();
        assert(a.label() =~= series_path(a).subrange(9, n - 12));
        assert(b.label() =~= series_path(b).subrange(9, n - 12));
        config::labels_are_distinct(a, b);
    }
}

/// A manifest holds the configuration of every member under the name of its task.
pub proof fn manifests_list_every_configuration(
    golden: ResultConfiguration,
    members: Seq<BundleMember>,
    k: int,
    i: int,
)
    requires
        0 <= i < k <= members.len(),
        forall|a: int, b: int|
            0 <= a < b < members.len() ==> (#[trigger] members[a]).result.task != (
            #[trigger] members[b]).result.task,
    ensures
        ({
            let listed = listed_configurations(golden, members, k);
            let name = members[i].result.task.label();
            listed.dom().contains(name) && listed[name] == members[i].result.configuration
        }),
    decreases k,
{
    if i < k - 1 {
        assert(members[i].result.task != members[k - 1].result.task);
        manifests_list_every_configuration(golden, members, k - 1, i);
        if members[i].result.task.label() == members[k - 1].result.task.label() {
            config::labels_are_distinct(members[i].result.task, members[k - 1].result.task);
        }
    }
}

/// The patches are the files whose names end in `.patch`, each as often as it was found.
pub proof fn patches_are_those_found(found: Seq<Seq<char>>, file: Seq<char>)
    ensures
        patches_among(found).to_multiset().count(file) == (if paths::has_extension(
            paths::file_name(file),
            ".patch"@,
        ) {
            found.to_multiset().count(file)
        } else {
            0
        }),
    decreases found.len(),
{
    broadcast use vstd::seq_lib::group_to_multiset_ensures;

    if found.len() > 0 {
        let rest = found.drop_last();
        patches_are_those_found(rest, file);
        assert(found =~= rest.push(found.last()));
        vstd::seq_lib::to_multiset_build(rest, found.last());
        vstd::seq_lib::to_multiset_build(patches_among(rest), found.last());
    }
}

} // verus!
