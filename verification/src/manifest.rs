//! Validation of run manifests and of workload sidecars.

use crate::model::{
    AppliedPatch, HistogramSeries, LatencyTimeSeries, Rate, RunManifest, WorkloadResult,
    WorkloadSeries,
};
use crate::named::Named;
use crate::paths;
use crate::paths::append_path;
use crate::text;
use crate::text::same_text;
use crate::validation;
use crate::validation::{is_sha256, parses_as_rfc3339};
use vstd::prelude::*;

verus! {

/// What is wrong with the manifest of a run.
#[derive(Debug, Clone, Copy, PartialEq, Eq, Structural)]
pub enum ManifestFault {
    StatusNotOk,
    NoRunId,
    NoGoldenId,
    InvalidTimestamp,
    MissingSourceField,
    NoGoldenRunnerCommit,
    InvalidPatch,
    NoConfigurations,
    NoParallelism,
    NoResults,
    InvalidResultPath,
    InvalidResultDigest,
}

/// Whether every patch has a name and a digest.
pub open spec fn patches_are_valid(patches: Seq<AppliedPatch>) -> bool {
    forall|i: int|
        0 <= i < patches.len() ==> (#[trigger] patches[i]).name@.len() > 0 && validation::is_digest(
            patches[i].sha256@,
        )
}

/// Whether every result has a relative path.
pub open spec fn paths_are_relative(results: &Named<String>) -> bool {
    forall|i: int|
        0 <= i < results.names().len() ==> paths::stays_below(#[trigger] results.names()[i])
}

/// Whether every result has a digest.
pub open spec fn digests_are_valid(results: &Named<String>) -> bool {
    forall|i: int|
        0 <= i < results.names().len() ==> validation::is_digest(
            (#[trigger] results.values()[i])@,
        )
}

/// What is wrong with the manifest of a run, given whether its timestamps can be read.
pub open spec fn manifest_fault(m: &RunManifest, started: bool, finished: bool) -> Option<
    ManifestFault,
> {
    if m.status@ != "ok"@ {
        Some(ManifestFault::StatusNotOk)
    } else if m.run_id@.len() == 0 {
        Some(ManifestFault::NoRunId)
    } else if m.golden_id@.len() == 0 {
        Some(ManifestFault::NoGoldenId)
    } else if !started || !finished {
        Some(ManifestFault::InvalidTimestamp)
    } else if validation::source_fault(m.source) is Some {
        Some(ManifestFault::MissingSourceField)
    } else if m.golden_runner_commit@.len() == 0 {
        Some(ManifestFault::NoGoldenRunnerCommit)
    } else if !patches_are_valid(m.patches@) {
        Some(ManifestFault::InvalidPatch)
    } else if m.resolved_configuration.names().len() == 0 {
        Some(ManifestFault::NoConfigurations)
    } else if m.max_parallel == 0 {
        Some(ManifestFault::NoParallelism)
    } else if m.results.names().len() == 0 {
        Some(ManifestFault::NoResults)
    } else if !paths_are_relative(&m.results) {
        Some(ManifestFault::InvalidResultPath)
    } else if !digests_are_valid(&m.results) {
        Some(ManifestFault::InvalidResultDigest)
    } else {
        None
    }
}

fn check_patches(patches: &Vec<AppliedPatch>) -> (r: bool)
    ensures
        r == patches_are_valid(patches@),
{
    let mut i: usize = 0;
    while i < patches.len()
        invariant
            i <= patches.len(),
            forall|k: int|
                0 <= k < i ==> (#[trigger] patches@[k]).name@.len() > 0 && validation::is_digest(
                    patches@[k].sha256@,
                ),
        decreases patches.len() - i,
    {
        let ghost patch = patches@[i as int];
        if patches[i].name.as_str().is_empty() || !is_sha256(patches[i].sha256.as_str()) {
            assert(!(patch.name@.len() > 0 && validation::is_digest(patch.sha256@)));
            return false;
        }
        i += 1;
    }
    true
}

fn check_paths(results: &Named<String>) -> (r: bool)
    requires
        results.wf(),
    ensures
        r == paths_are_relative(results),
{
    let mut i: usize = 0;
    while i < results.len()
        invariant
            results.wf(),
            i <= results.names().len(),
            forall|k: int|
                0 <= k < i ==> paths::stays_below(#[trigger] results.names()[k]),
        decreases results.names().len() - i,
    {
        if append_path(Vec::new(), results.name_at(i).as_str()).is_err() {
            assert(!paths::stays_below(results.names()[i as int]));
            return false;
        }
        i += 1;
    }
    true
}

fn check_digests(results: &Named<String>) -> (r: bool)
    requires
        results.wf(),
    ensures
        r == digests_are_valid(results),
{
    let mut i: usize = 0;
    while i < results.len()
        invariant
            results.wf(),
            i <= results.names().len(),
            forall|k: int|
                0 <= k < i ==> validation::is_digest((#[trigger] results.values()[k])@),
        decreases results.names().len() - i,
    {
        if !is_sha256(results.value_at(i).as_str()) {
            assert(!validation::is_digest(results.values()[i as int]@));
            return false;
        }
        i += 1;
    }
    true
}

/// Checks the manifest of a run, given whether its timestamps can be read.
pub fn check_run_manifest(m: &RunManifest, started: bool, finished: bool) -> (r: Result<
    (),
    ManifestFault,
>)
    requires
        m.results.wf(),
        m.resolved_configuration.wf(),
    ensures
        manifest_fault(m, started, finished) matches Some(f) ==> r == Err::<(), ManifestFault>(f),
        manifest_fault(m, started, finished) is None ==> r == Ok::<(), ManifestFault>(()),
{
    if !same_text(m.status.as_str(), "ok") {
        Err(ManifestFault::StatusNotOk)
    } else if m.run_id.as_str().is_empty() {
        Err(ManifestFault::NoRunId)
    } else if m.golden_id.as_str().is_empty() {
        Err(ManifestFault::NoGoldenId)
    } else if !started || !finished {
        Err(ManifestFault::InvalidTimestamp)
    } else if validation::check_source(&m.source).is_some() {
        Err(ManifestFault::MissingSourceField)
    } else if m.golden_runner_commit.as_str().is_empty() {
        Err(ManifestFault::NoGoldenRunnerCommit)
    } else if !check_patches(&m.patches) {
        Err(ManifestFault::InvalidPatch)
    } else if m.resolved_configuration.len() == 0 {
        Err(ManifestFault::NoConfigurations)
    } else if m.max_parallel == 0 {
        Err(ManifestFault::NoParallelism)
    } else if m.results.len() == 0 {
        Err(ManifestFault::NoResults)
    } else if !check_paths(&m.results) {
        Err(ManifestFault::InvalidResultPath)
    } else if !check_digests(&m.results) {
        Err(ManifestFault::InvalidResultDigest)
    } else {
        Ok(())
    }
}

/// Checks the manifest of a run.
pub fn validate_run_manifest(m: &RunManifest) -> (r: Result<(), ManifestFault>)
    requires
        m.results.wf(),
        m.resolved_configuration.wf(),
    ensures
        ({
            let fault = manifest_fault(
                m,
                validation::is_rfc3339(m.started_at@),
                validation::is_rfc3339(m.finished_at@),
            );
            &&& fault is Some ==> r == Err::<(), ManifestFault>(fault->0)
            &&& fault is None ==> r == Ok::<(), ManifestFault>(())
        }),
{
    check_run_manifest(
        m,
        parses_as_rfc3339(m.started_at.as_str()),
        parses_as_rfc3339(m.finished_at.as_str()),
    )
}

/// What is wrong with the sidecar of a workload.
#[derive(Debug, Clone, Copy, PartialEq, Eq, Structural)]
pub enum SidecarFault {
    /// A list of ends and a list of durations have different lengths.
    WindowsDiffer,
    /// A series has another number of values than there are windows.
    RateLengths,
    LatencyLengths,
    ResourceLengths,
    /// A histogram has another number of bounds than of counts.
    HistogramLengths,
    /// The sidecar and its result have different rows.
    OperationRows,
    RequestRows,
    LatencyRows,
}

/// Whether every row of a table has a number of rates.
pub open spec fn rates_have(table: &Named<Vec<Rate>>, len: nat) -> bool {
    forall|i: int|
        0 <= i < table.names().len() ==> (#[trigger] table.values()[i])@.len() == len
}

/// Whether every row of a table has a number of latency windows.
pub open spec fn latencies_have(table: &Named<LatencyTimeSeries>, len: nat) -> bool {
    forall|i: int|
        0 <= i < table.names().len() ==> (#[trigger] table.values()[i]).windows@.len() == len
}

/// Whether every histogram has as many bounds as counts.
pub open spec fn histograms_are_paired(table: &Named<HistogramSeries>) -> bool {
    forall|i: int|
        0 <= i < table.names().len() ==> (#[trigger] table.values()[i]).upper_bound_ns@.len()
            == table.values()[i].counts@.len()
}

/// Whether all resource series have a number of values.
pub open spec fn resources_have(s: &WorkloadSeries, len: nat) -> bool {
    &&& s.process.cpu_cores@.len() == len
    &&& s.process.rss_bytes@.len() == len
    &&& s.machine.cpu_percent@.len() == len
    &&& s.machine.rss_bytes@.len() == len
    &&& s.machine.network_receive_bytes_per_second@.len() == len
    &&& s.machine.network_send_bytes_per_second@.len() == len
    &&& s.machine.disk_read_bytes_per_second@.len() == len
    &&& s.machine.disk_write_bytes_per_second@.len() == len
    &&& s.machine.disk_read_operations_per_second@.len() == len
    &&& s.machine.disk_write_operations_per_second@.len() == len
}

/// What is wrong with the sidecar of a result.
pub open spec fn sidecar_fault(result: &WorkloadResult, s: &WorkloadSeries) -> Option<
    SidecarFault,
> {
    let rates = s.rate_elapsed_ns@.len();
    if rates != s.rate_duration_ns@.len() || s.latency_elapsed_ns@.len()
        != s.latency_duration_ns@.len() || s.resource_elapsed_ns@.len()
        != s.resource_duration_ns@.len() {
        Some(SidecarFault::WindowsDiffer)
    } else if !(rates_have(&s.application.operations_per_second, rates) && rates_have(
        &s.application.bytes_per_second,
        rates,
    ) && rates_have(&s.object_store.requests_per_second, rates) && rates_have(
        &s.object_store.bytes_per_second,
        rates,
    )) {
        Some(SidecarFault::RateLengths)
    } else if !latencies_have(&s.application.latency_ns, s.latency_elapsed_ns@.len()) {
        Some(SidecarFault::LatencyLengths)
    } else if !resources_have(s, s.resource_elapsed_ns@.len()) {
        Some(SidecarFault::ResourceLengths)
    } else if !histograms_are_paired(&s.application.latency_histograms) {
        Some(SidecarFault::HistogramLengths)
    } else if s.application.operations_per_second.names()
        != result.application.operations.names() {
        Some(SidecarFault::OperationRows)
    } else if s.object_store.requests_per_second.names() != result.object_store.requests.names() {
        Some(SidecarFault::RequestRows)
    } else if s.application.latency_ns.names() != result.application.latency.names() {
        Some(SidecarFault::LatencyRows)
    } else {
        None
    }
}

fn rates_have_length(table: &Named<Vec<Rate>>, len: usize) -> (r: bool)
    requires
        table.wf(),
    ensures
        r == rates_have(table, len as nat),
{
    let mut i: usize = 0;
    while i < table.len()
        invariant
            table.wf(),
            i <= table.names().len(),
            forall|k: int| 0 <= k < i ==> (#[trigger] table.values()[k])@.len() == len,
        decreases table.names().len() - i,
    {
        if table.value_at(i).len() != len {
            assert(table.values()[i as int]@.len() != len);
            return false;
        }
        i += 1;
    }
    true
}

fn latencies_have_length(table: &Named<LatencyTimeSeries>, len: usize) -> (r: bool)
    requires
        table.wf(),
    ensures
        r == latencies_have(table, len as nat),
{
    let mut i: usize = 0;
    while i < table.len()
        invariant
            table.wf(),
            i <= table.names().len(),
            forall|k: int| 0 <= k < i ==> (#[trigger] table.values()[k]).windows@.len() == len,
        decreases table.names().len() - i,
    {
        if table.value_at(i).windows.len() != len {
            assert(table.values()[i as int].windows@.len() != len);
            return false;
        }
        i += 1;
    }
    true
}

fn are_paired(table: &Named<HistogramSeries>) -> (r: bool)
    requires
        table.wf(),
    ensures
        r == histograms_are_paired(table),
{
    let mut i: usize = 0;
    while i < table.len()
        invariant
            table.wf(),
            i <= table.names().len(),
            forall|k: int|
                0 <= k < i ==> (#[trigger] table.values()[k]).upper_bound_ns@.len()
                    == table.values()[k].counts@.len(),
        decreases table.names().len() - i,
    {
        let row = table.value_at(i);
        if row.upper_bound_ns.len() != row.counts.len() {
            assert(table.values()[i as int].upper_bound_ns@.len()
                != table.values()[i as int].counts@.len());
            return false;
        }
        i += 1;
    }
    true
}

fn same_rows<A, B>(a: &Named<A>, b: &Named<B>) -> (r: bool)
    requires
        a.wf(),
        b.wf(),
    ensures
        r == (a.names() == b.names()),
{
    if a.len() != b.len() {
        return false;
    }
    let mut i: usize = 0;
    while i < a.len()
        invariant
            a.wf(),
            b.wf(),
            i <= a.names().len(),
            a.names().len() == b.names().len(),
            forall|k: int| 0 <= k < i ==> #[trigger] a.names()[k] == b.names()[k],
        decreases a.names().len() - i,
    {
        if !same_text(a.name_at(i).as_str(), b.name_at(i).as_str()) {
            assert(a.names()[i as int] != b.names()[i as int]);
            return false;
        }
        i += 1;
    }
    assert(a.names() =~= b.names());
    true
}

fn resources_have_length(s: &WorkloadSeries, len: usize) -> (r: bool)
    ensures
        r == resources_have(s, len as nat),
{
    s.process.cpu_cores.len() == len && s.process.rss_bytes.len() == len
        && s.machine.cpu_percent.len() == len && s.machine.rss_bytes.len() == len
        && s.machine.network_receive_bytes_per_second.len() == len
        && s.machine.network_send_bytes_per_second.len() == len
        && s.machine.disk_read_bytes_per_second.len() == len
        && s.machine.disk_write_bytes_per_second.len() == len
        && s.machine.disk_read_operations_per_second.len() == len
        && s.machine.disk_write_operations_per_second.len() == len
}

/// Checks the sidecar of a result.
pub fn validate_workload_series(result: &WorkloadResult, s: &WorkloadSeries) -> (r: Result<
    (),
    SidecarFault,
>)
    requires
        result.application.wf(),
        result.object_store.wf(),
        s.application.wf(),
        s.object_store.wf(),
    ensures
        sidecar_fault(result, s) matches Some(f) ==> r == Err::<(), SidecarFault>(f),
        sidecar_fault(result, s) is None ==> r == Ok::<(), SidecarFault>(()),
{
    let rates: usize = s.rate_elapsed_ns.len();
    if rates != s.rate_duration_ns.len() || s.latency_elapsed_ns.len()
        != s.latency_duration_ns.len() || s.resource_elapsed_ns.len()
        != s.resource_duration_ns.len() {
        return Err(SidecarFault::WindowsDiffer);
    }
    if !(rates_have_length(&s.application.operations_per_second, rates) && rates_have_length(
        &s.application.bytes_per_second,
        rates,
    ) && rates_have_length(&s.object_store.requests_per_second, rates) && rates_have_length(
        &s.object_store.bytes_per_second,
        rates,
    )) {
        return Err(SidecarFault::RateLengths);
    }
    if !latencies_have_length(&s.application.latency_ns, s.latency_elapsed_ns.len()) {
        return Err(SidecarFault::LatencyLengths);
    }
    if !resources_have_length(s, s.resource_elapsed_ns.len()) {
        return Err(SidecarFault::ResourceLengths);
    }
    if !are_paired(&s.application.latency_histograms) {
        return Err(SidecarFault::HistogramLengths);
    }
    if !same_rows(&s.application.operations_per_second, &result.application.operations) {
        return Err(SidecarFault::OperationRows);
    }
    if !same_rows(&s.object_store.requests_per_second, &result.object_store.requests) {
        return Err(SidecarFault::RequestRows);
    }
    if !same_rows(&s.application.latency_ns, &result.application.latency) {
        return Err(SidecarFault::LatencyRows);
    }
    Ok(())
}

proof fn plotted_rates_have(
    table: &Named<Vec<Rate>>,
    len: nat,
)
    requires
        table.wf(),
        forall|n: Seq<char>| #[trigger]
            table.map().dom().contains(n) ==> table.map()[n]@.len() == len,
    ensures
        rates_have(table, len),
{
    assert forall|i: int| 0 <= i < table.names().len() implies (
    #[trigger] table.values()[i])@.len() == len by {
        table.entry(i);
        assert(table.map().dom().contains(table.names()[i]));
    }
}

/// The series of a measurement has one value for each window, and as many bounds as counts.
pub proof fn measured_series_have_their_lengths(
    s: &WorkloadSeries,
    m: crate::system::MeasurementView,
    total: crate::instrumented_store::StoreSnapshot,
)
    requires
        s.application.wf(),
        s.object_store.wf(),
        crate::system::plots(*s, m, total),
        m.rates.len() == m.stores.len(),
    ensures
        s.rate_elapsed_ns@.len() == s.rate_duration_ns@.len(),
        s.latency_elapsed_ns@.len() == s.latency_duration_ns@.len(),
        s.resource_elapsed_ns@.len() == s.resource_duration_ns@.len(),
        rates_have(&s.application.operations_per_second, s.rate_elapsed_ns@.len()),
        rates_have(&s.application.bytes_per_second, s.rate_elapsed_ns@.len()),
        rates_have(&s.object_store.requests_per_second, s.rate_elapsed_ns@.len()),
        rates_have(&s.object_store.bytes_per_second, s.rate_elapsed_ns@.len()),
        latencies_have(&s.application.latency_ns, s.latency_elapsed_ns@.len()),
        resources_have(s, s.resource_elapsed_ns@.len()),
        histograms_are_paired(&s.application.latency_histograms),
{
    let len = s.rate_elapsed_ns@.len();
    plotted_rates_have(&s.application.operations_per_second, len);
    plotted_rates_have(&s.application.bytes_per_second, len);
    let requests = s.object_store.requests_per_second.map();
    assert forall|n: Seq<char>| #[trigger] requests.dom().contains(n) implies requests[n]@.len()
        == len by {
        let method = choose|h: crate::instrumented_store::HttpMethod| #[trigger]
            h.label() == n && total.requests.of(h) > 0;
        assert(requests.dom().contains(method.label()));
    }
    plotted_rates_have(&s.object_store.requests_per_second, len);
    let bytes = s.object_store.bytes_per_second.map();
    assert forall|n: Seq<char>| #[trigger] bytes.dom().contains(n) implies bytes[n]@.len()
        == len by {
        let method = choose|h: crate::instrumented_store::HttpMethod| #[trigger]
            h.label() == n && total.requests.of(h) > 0 && total.body(h) > 0;
        assert(bytes.dom().contains(method.label()));
    }
    plotted_rates_have(&s.object_store.bytes_per_second, len);
    let latencies = &s.application.latency_ns;
    assert forall|i: int| 0 <= i < latencies.names().len() implies (
    #[trigger] latencies.values()[i]).windows@.len() == s.latency_elapsed_ns@.len() by {
        latencies.entry(i);
        assert(latencies.map().dom().contains(latencies.names()[i]));
    }
    let histograms = &s.application.latency_histograms;
    assert forall|i: int| 0 <= i < histograms.names().len() implies (
    #[trigger] histograms.values()[i]).upper_bound_ns@.len()
        == histograms.values()[i].counts@.len() by {
        histograms.entry(i);
        assert(histograms.map().dom().contains(histograms.names()[i]));
    }
}

/// A run manifest is accepted exactly where it succeeded, names its run and its golden dataset, has
/// readable times, complete sources and valid patches, and lists configurations and results, each
/// result with a path that stays below the bundle and a digest.
pub proof fn run_manifests_are_judged(m: &RunManifest, started: bool, finished: bool)
    ensures
        manifest_fault(m, started, finished) is None <==> {
            &&& m.status@ == "ok"@
            &&& m.run_id@.len() > 0
            &&& m.golden_id@.len() > 0
            &&& started && finished
            &&& validation::source_fault(m.source) is None
            &&& m.golden_runner_commit@.len() > 0
            &&& forall|i: int|
                0 <= i < m.patches@.len() ==> (#[trigger] m.patches@[i]).name@.len() > 0
                    && validation::is_digest(m.patches@[i].sha256@)
            &&& m.resolved_configuration.names().len() > 0
            &&& m.max_parallel > 0
            &&& m.results.names().len() > 0
            &&& forall|i: int|
                0 <= i < m.results.names().len() ==> paths::stays_below(
                    #[trigger] m.results.names()[i],
                )
            &&& forall|i: int|
                0 <= i < m.results.names().len() ==> validation::is_digest(
                    (#[trigger] m.results.values()[i])@,
                )
        },
{
}

/// A sidecar is accepted only where every series has as many points as its windows, and its rows
/// are those of the result.
pub proof fn sidecars_are_judged(result: &WorkloadResult, s: &WorkloadSeries, i: int)
    requires
        sidecar_fault(result, s) is None,
    ensures
        s.rate_elapsed_ns@.len() == s.rate_duration_ns@.len(),
        s.latency_elapsed_ns@.len() == s.latency_duration_ns@.len(),
        s.resource_elapsed_ns@.len() == s.resource_duration_ns@.len(),
        0 <= i < s.application.operations_per_second.names().len()
            ==> s.application.operations_per_second.values()[i]@.len() == s.rate_elapsed_ns@.len(),
        0 <= i < s.application.bytes_per_second.names().len()
            ==> s.application.bytes_per_second.values()[i]@.len() == s.rate_elapsed_ns@.len(),
        0 <= i < s.object_store.requests_per_second.names().len()
            ==> s.object_store.requests_per_second.values()[i]@.len() == s.rate_elapsed_ns@.len(),
        0 <= i < s.object_store.bytes_per_second.names().len()
            ==> s.object_store.bytes_per_second.values()[i]@.len() == s.rate_elapsed_ns@.len(),
        0 <= i < s.application.latency_ns.names().len()
            ==> s.application.latency_ns.values()[i].windows@.len() == s.latency_elapsed_ns@.len(),
        0 <= i < s.application.latency_histograms.names().len()
            ==> s.application.latency_histograms.values()[i].upper_bound_ns@.len()
            == s.application.latency_histograms.values()[i].counts@.len(),
        s.process.cpu_cores@.len() == s.resource_elapsed_ns@.len(),
        s.process.rss_bytes@.len() == s.resource_elapsed_ns@.len(),
        s.machine.cpu_percent@.len() == s.resource_elapsed_ns@.len(),
        s.machine.rss_bytes@.len() == s.resource_elapsed_ns@.len(),
        s.machine.network_receive_bytes_per_second@.len() == s.resource_elapsed_ns@.len(),
        s.machine.network_send_bytes_per_second@.len() == s.resource_elapsed_ns@.len(),
        s.machine.disk_read_bytes_per_second@.len() == s.resource_elapsed_ns@.len(),
        s.machine.disk_write_bytes_per_second@.len() == s.resource_elapsed_ns@.len(),
        s.machine.disk_read_operations_per_second@.len() == s.resource_elapsed_ns@.len(),
        s.machine.disk_write_operations_per_second@.len() == s.resource_elapsed_ns@.len(),
        s.application.operations_per_second.names() == result.application.operations.names(),
        s.object_store.requests_per_second.names() == result.object_store.requests.names(),
        s.application.latency_ns.names() == result.application.latency.names(),
{
}

} // verus!
