//! Measurement of applications, the object store and the host over time.

use crate::bits;
use crate::count;
use crate::count::{minus, plus};
use crate::histogram;
use crate::histogram::{HistogramSet, LatencyDigest, Recorded};
use crate::instrumented_store::{HttpMethod, StoreSnapshot};
use crate::model::{
    ApplicationSeries, DistributionSummary, LatencyTimeSeries, MachineSeries,
    ObjectStoreSeries, ProcessSeries, Rate, RateSummary, ThroughputSummary, WorkloadSeries,
};
use crate::named;
use crate::named::Named;
use vstd::prelude::*;

verus! {

/// A number of nanoseconds, stopping at the largest 64-bit value.
pub fn duration_ns(nanos: u128) -> (r: u64)
    ensures
        r == (if nanos > u64::MAX {
            u64::MAX
        } else {
            nanos as u64
        }),
{
    if nanos > u64::MAX as u128 {
        u64::MAX
    } else {
        nanos as u64
    }
}

/// Time that a write spent waiting for memory to be freed.
#[derive(Debug, Clone, Copy, PartialEq, Eq, Structural)]
pub struct BackpressureMeasurement {
    /// When the wait in progress began.
    pub started: Option<u64>,
    /// Time of the waits that are over.
    pub elapsed_ns: u64,
}

impl BackpressureMeasurement {
    /// Nothing measured.
    pub fn new() -> (r: Self)
        ensures
            r == (BackpressureMeasurement { started: None, elapsed_ns: 0 }),
    {
        BackpressureMeasurement { started: None, elapsed_ns: 0 }
    }

    /// The state after the wait in progress ended at `now`.
    pub open spec fn settled(self, now: u64) -> Self {
        match self.started {
            Some(started) => BackpressureMeasurement {
                started: None,
                elapsed_ns: count::capped_sum(
                    self.elapsed_ns,
                    count::floored_difference(now, started),
                ),
            },
            None => self,
        }
    }

    /// Begins a wait, unless one is in progress.
    pub fn start(&mut self, now: u64)
        ensures
            *final(self) == (BackpressureMeasurement {
                started: if old(self).started is Some {
                    old(self).started
                } else {
                    Some(now)
                },
                elapsed_ns: old(self).elapsed_ns,
            }),
    {
        if self.started.is_none() {
            self.started = Some(now);
        }
    }

    /// Ends the wait in progress, if there is one.
    pub fn finish_interval(&mut self, now: u64)
        ensures
            *final(self) == old(self).settled(now),
    {
        if let Some(started) = self.started {
            self.started = None;
            self.elapsed_ns = plus(self.elapsed_ns, minus(now, started));
        }
    }

    /// Ends the measurement and returns the time of all waits.
    pub fn finish(self, now: u64) -> (r: u64)
        ensures
            r == self.settled(now).elapsed_ns,
    {
        let mut m = self;
        m.finish_interval(now);
        m.elapsed_ns
    }
}

/// Calls of one operation.
#[derive(Debug, Clone, Copy, PartialEq, Eq, Structural)]
pub struct OperationDelta {
    pub calls: u64,
    pub logical_bytes: u64,
    pub errors: u64,
}

impl OperationDelta {
    /// No calls.
    pub open spec fn zero() -> Self {
        OperationDelta { calls: 0, logical_bytes: 0, errors: 0 }
    }

    /// Two counts of calls together.
    pub open spec fn plus(self, other: Self) -> Self {
        OperationDelta {
            calls: count::capped_sum(self.calls, other.calls),
            logical_bytes: count::capped_sum(self.logical_bytes, other.logical_bytes),
            errors: count::capped_sum(self.errors, other.errors),
        }
    }

    /// No calls.
    pub fn new() -> (r: Self)
        ensures
            r == OperationDelta::zero(),
    {
        OperationDelta { calls: 0, logical_bytes: 0, errors: 0 }
    }

    /// Adds other calls.
    pub fn merge(&mut self, other: &Self)
        ensures
            *final(self) == old(self).plus(*other),
    {
        self.calls = plus(self.calls, other.calls);
        self.logical_bytes = plus(self.logical_bytes, other.logical_bytes);
        self.errors = plus(self.errors, other.errors);
    }
}

/// The calls counted under a name, none where the name is absent.
pub open spec fn calls_under(m: Map<Seq<char>, OperationDelta>, name: Seq<char>) -> OperationDelta {
    if m.dom().contains(name) {
        m[name]
    } else {
        OperationDelta::zero()
    }
}

/// Two tables of calls together, name by name.
pub open spec fn merged_operations(
    a: Map<Seq<char>, OperationDelta>,
    b: Map<Seq<char>, OperationDelta>,
) -> Map<Seq<char>, OperationDelta> {
    Map::new(
        |n: Seq<char>| a.dom().contains(n) || b.dom().contains(n),
        |n: Seq<char>|
            if b.dom().contains(n) {
                calls_under(a, n).plus(b[n])
            } else {
                a[n]
            },
    )
}

/// The merge of the first `k` names of `b`.
spec fn merged_operations_upto(
    a: Map<Seq<char>, OperationDelta>,
    b: Map<Seq<char>, OperationDelta>,
    names: Seq<Seq<char>>,
    k: int,
) -> Map<Seq<char>, OperationDelta> {
    let seen = |n: Seq<char>| names.contains(n) && names.index_of(n) < k;
    Map::new(
        |n: Seq<char>| a.dom().contains(n) || seen(n),
        |n: Seq<char>|
            if seen(n) {
                calls_under(a, n).plus(b[n])
            } else {
                a[n]
            },
    )
}

/// Adds to the calls under a name.
fn add_calls(operations: &mut Named<OperationDelta>, name: &str, delta: &OperationDelta)
    requires
        old(operations).wf(),
    ensures
        final(operations).wf(),
        final(operations).map() == old(operations).map().insert(
            name@,
            calls_under(old(operations).map(), name@).plus(*delta),
        ),
{
    let mut total: OperationDelta = match operations.get(name) {
        Some(calls) => *calls,
        None => OperationDelta::new(),
    };
    total.merge(delta);
    operations.put(name.to_string(), total);
}

/// Adds a table of calls, name by name.
pub fn merge_operations(a: &mut Named<OperationDelta>, b: &Named<OperationDelta>)
    requires
        old(a).wf(),
        b.wf(),
    ensures
        final(a).wf(),
        final(a).map() == merged_operations(old(a).map(), b.map()),
{
    let ghost before = a.map();
    let ghost names = b.names();
    let mut k: usize = 0;
    proof {
        assert(before =~= merged_operations_upto(before, b.map(), names, 0));
    }
    while k < b.len()
        invariant
            a.wf(),
            b.wf(),
            names == b.names(),
            k <= names.len(),
            a.map() == merged_operations_upto(before, b.map(), names, k as int),
        decreases names.len() - k,
    {
        proof {
            named::position_is_unique(names, k as int);
            b.entry(k as int);
        }
        add_calls(a, b.name_at(k).as_str(), b.value_at(k));
        proof {
            let m0 = merged_operations_upto(before, b.map(), names, k as int);
            let m1 = merged_operations_upto(before, b.map(), names, k + 1);
            let name = names[k as int];
            assert(calls_under(m0, name) == calls_under(before, name));
            assert forall|n: Seq<char>| names.contains(n) && names.index_of(n) == k implies n
                == name by {}
            assert(m1 =~= m0.insert(name, calls_under(before, name).plus(b.map()[name])));
        }
        k += 1;
    }
    proof {
        assert forall|n: Seq<char>| b.map().dom().contains(n) <==> names.contains(n) by {}
        assert(a.map() =~= merged_operations(before, b.map()));
    }
}

/// What a delta holds.
#[verifier::ext_equal]
pub struct Activity {
    /// The calls of each operation.
    pub operations: Map<Seq<char>, OperationDelta>,
    /// The latencies recorded under each name.
    pub histograms: Map<Seq<char>, Recorded>,
}

impl Activity {
    /// Nothing recorded.
    pub open spec fn none() -> Self {
        Activity { operations: Map::empty(), histograms: Map::empty() }
    }

    /// Two activities together.
    pub open spec fn merged(self, other: Self) -> Self {
        Activity {
            operations: merged_operations(self.operations, other.operations),
            histograms: histogram::merged_sets(self.histograms, other.histograms),
        }
    }

    /// The activity with one more latency under an operation's name.
    pub open spec fn with_latency(self, api: Seq<char>, latency_ns: u64) -> Self {
        Activity {
            operations: self.operations,
            histograms: histogram::with_observation(self.histograms, "api/"@ + api, latency_ns),
        }
    }

    /// The activity with one more call.
    pub open spec fn with_call(
        self,
        api: Seq<char>,
        latency_ns: u64,
        logical_bytes: u64,
        error: bool,
    ) -> Self {
        Activity {
            operations: self.operations.insert(
                api,
                calls_under(self.operations, api).plus(
                    OperationDelta {
                        calls: 1,
                        logical_bytes,
                        errors: if error {
                            1
                        } else {
                            0
                        },
                    },
                ),
            ),
            histograms: histogram::with_observation(self.histograms, "api/"@ + api, latency_ns),
        }
    }

    /// Whether nothing counts: no operation, and no observation under any name.
    pub open spec fn is_idle(self) -> bool {
        &&& self.operations == Map::<Seq<char>, OperationDelta>::empty()
        &&& forall|n: Seq<char>| #[trigger]
            self.histograms.dom().contains(n) ==> self.histograms[n] == Recorded::none()
    }
}

/// Calls and latencies recorded since the last drain.
pub struct ApplicationDelta {
    pub operations: Named<OperationDelta>,
    pub histograms: HistogramSet,
}

impl View for ApplicationDelta {
    type V = Activity;

    open spec fn view(&self) -> Activity {
        Activity { operations: self.operations.map(), histograms: self.histograms@ }
    }
}

impl ApplicationDelta {
    /// The names are in order and none occurs twice.
    pub open spec fn wf(&self) -> bool {
        self.operations.wf() && self.histograms.wf()
    }

    /// Nothing recorded.
    pub fn new() -> (r: Self)
        ensures
            r.wf(),
            r@ == Activity::none(),
    {
        ApplicationDelta { operations: Named::new(), histograms: HistogramSet::new() }
    }

    /// Adds other activity.
    pub fn merge(&mut self, other: &Self)
        requires
            old(self).wf(),
            other.wf(),
        ensures
            final(self).wf(),
            final(self)@ == old(self)@.merged(other@),
    {
        merge_operations(&mut self.operations, &other.operations);
        self.histograms.merge(&other.histograms);
    }

    /// Removes what was recorded, keeping the histograms' allocations.
    pub fn reset(&mut self)
        requires
            old(self).wf(),
        ensures
            final(self).wf(),
            final(self)@.is_idle(),
            final(self)@.histograms.dom() == old(self)@.histograms.dom(),
    {
        self.operations = Named::new();
        self.histograms.reset();
    }

    /// Records one call.
    fn record(&mut self, api: &str, latency_ns: u64, logical_bytes: u64, error: bool)
        requires
            old(self).wf(),
        ensures
            final(self).wf(),
            final(self)@ == old(self)@.with_call(api@, latency_ns, logical_bytes, error),
    {
        let delta = OperationDelta {
            calls: 1,
            logical_bytes,
            errors: if error {
                1
            } else {
                0
            },
        };
        add_calls(&mut self.operations, api, &delta);
        let name = "api/".to_string().concat(api);
        self.histograms.record(name.as_str(), latency_ns);
    }

    /// Records one latency that is not a call.
    fn record_latency(&mut self, api: &str, latency_ns: u64)
        requires
            old(self).wf(),
        ensures
            final(self).wf(),
            final(self)@ == old(self)@.with_latency(api@, latency_ns),
    {
        let name = "api/".to_string().concat(api);
        self.histograms.record(name.as_str(), latency_ns);
    }
}

/// One recorder's activity, with a second set of histograms to switch to.
pub struct ApplicationShard {
    active: ApplicationDelta,
    spare: Option<ApplicationDelta>,
}

impl ApplicationShard {
    /// The spare holds no activity.
    pub closed spec fn wf(&self) -> bool {
        &&& self.active.wf()
        &&& self.spare matches Some(d) ==> d.wf() && d@.is_idle()
    }

    /// What was recorded since the last drain.
    pub closed spec fn activity(&self) -> Activity {
        self.active@
    }

    fn new() -> (r: Self)
        ensures
            r.wf(),
            r.activity() == Activity::none(),
    {
        ApplicationShard { active: ApplicationDelta::new(), spare: None }
    }

    /// Switches to idle histograms, adds what was active to `merged`, and keeps its allocation.
    fn drain_into(&mut self, merged: &mut ApplicationDelta)
        requires
            old(self).wf(),
            old(merged).wf(),
        ensures
            final(self).wf(),
            final(self).activity().is_idle(),
            final(merged).wf(),
            final(merged)@ == old(merged)@.merged(old(self).activity()),
    {
        let mut replacement: Option<ApplicationDelta> = None;
        std::mem::swap(&mut replacement, &mut self.spare);
        let mut delta = match replacement {
            Some(spare) => spare,
            None => ApplicationDelta::new(),
        };
        std::mem::swap(&mut delta, &mut self.active);
        merged.merge(&delta);
        delta.reset();
        self.spare = Some(delta);
    }
}

/// The shard of a registry that a client records into.
#[derive(Debug, Clone, Copy, PartialEq, Eq, Structural)]
pub struct ApplicationRecorder {
    shard: usize,
}

/// The shards of all recorders.
pub struct ApplicationRegistry {
    shards: Vec<ApplicationShard>,
}

/// The activity of the first `k` shards together, in order.
pub open spec fn merged_activity(shards: Seq<Activity>, k: int) -> Activity
    decreases k,
{
    if k <= 0 {
        Activity::none()
    } else {
        merged_activity(shards, k - 1).merged(shards[k - 1])
    }
}

impl ApplicationRecorder {
    /// The position of the recorder's shard.
    pub closed spec fn position(self) -> int {
        self.shard as int
    }

    /// Records a call that succeeded.
    pub fn record_success(
        self,
        registry: &mut ApplicationRegistry,
        api: &str,
        latency_ns: u64,
        logical_bytes: u64,
    )
        requires
            old(registry).wf(),
            self.position() < old(registry).activities().len(),
        ensures
            final(registry).wf(),
            final(registry).activities() == old(registry).activities().update(
                self.position(),
                old(registry).activities()[self.position()].with_call(
                    api@,
                    latency_ns,
                    logical_bytes,
                    false,
                ),
            ),
    {
        let ghost before = registry.activities();
        {
            let shard = &mut registry.shards[self.shard];
            shard.active.record(api, latency_ns, logical_bytes, false);
        }
        assert(registry.activities() =~= before.update(
            self.position(),
            before[self.position()].with_call(api@, latency_ns, logical_bytes, false),
        ));
    }

    /// Records a call that failed.
    pub fn record_error(self, registry: &mut ApplicationRegistry, api: &str, latency_ns: u64)
        requires
            old(registry).wf(),
            self.position() < old(registry).activities().len(),
        ensures
            final(registry).wf(),
            final(registry).activities() == old(registry).activities().update(
                self.position(),
                old(registry).activities()[self.position()].with_call(api@, latency_ns, 0, true),
            ),
    {
        let ghost before = registry.activities();
        {
            let shard = &mut registry.shards[self.shard];
            shard.active.record(api, latency_ns, 0, true);
        }
        assert(registry.activities() =~= before.update(
            self.position(),
            before[self.position()].with_call(api@, latency_ns, 0, true),
        ));
    }

    /// Records a latency that is not a call.
    pub fn record_latency(self, registry: &mut ApplicationRegistry, api: &str, latency_ns: u64)
        requires
            old(registry).wf(),
            self.position() < old(registry).activities().len(),
        ensures
            final(registry).wf(),
            final(registry).activities() == old(registry).activities().update(
                self.position(),
                old(registry).activities()[self.position()].with_latency(api@, latency_ns),
            ),
    {
        let ghost before = registry.activities();
        {
            let shard = &mut registry.shards[self.shard];
            shard.active.record_latency(api, latency_ns);
        }
        assert(registry.activities() =~= before.update(
            self.position(),
            before[self.position()].with_latency(api@, latency_ns),
        ));
    }
}

impl ApplicationRegistry {
    /// Every shard is in order.
    pub closed spec fn wf(&self) -> bool {
        forall|i: int| 0 <= i < self.shards.len() ==> (#[trigger] self.shards@[i]).wf()
    }

    /// What each shard recorded since the last drain.
    pub closed spec fn activities(&self) -> Seq<Activity> {
        Seq::new(self.shards.len() as nat, |i: int| self.shards@[i].activity())
    }

    /// A registry without recorders.
    pub fn new() -> (r: Self)
        ensures
            r.wf(),
            r.activities() == Seq::<Activity>::empty(),
    {
        let r = ApplicationRegistry { shards: Vec::new() };
        assert(r.activities() =~= Seq::<Activity>::empty());
        r
    }

    /// Adds a recorder with a shard of its own.
    pub fn recorder(&mut self) -> (r: ApplicationRecorder)
        requires
            old(self).wf(),
        ensures
            final(self).wf(),
            r.position() == old(self).activities().len(),
            final(self).activities() == old(self).activities().push(Activity::none()),
    {
        let ghost before = self.activities();
        let shard: usize = self.shards.len();
        self.shards.push(ApplicationShard::new());
        assert(self.activities() =~= before.push(Activity::none()));
        ApplicationRecorder { shard }
    }

    /// Takes what all recorders recorded since the last drain.
    pub fn drain(&mut self) -> (r: ApplicationDelta)
        requires
            old(self).wf(),
        ensures
            final(self).wf(),
            r.wf(),
            r@ == merged_activity(old(self).activities(), old(self).activities().len() as int),
            final(self).activities().len() == old(self).activities().len(),
            forall|i: int|
                0 <= i < final(self).activities().len() ==> (
                #[trigger] final(self).activities()[i]).is_idle(),
    {
        let ghost before = self.activities();
        let mut merged = ApplicationDelta::new();
        let mut i: usize = 0;
        while i < self.shards.len()
            invariant
                self.wf(),
                merged.wf(),
                i <= self.shards.len(),
                self.shards.len() == before.len(),
                merged@ == merged_activity(before, i as int),
                forall|k: int| 0 <= k < i ==> (#[trigger] self.shards@[k]).activity().is_idle(),
                forall|k: int|
                    i <= k < self.shards.len() ==> (#[trigger] self.shards@[k]).activity()
                        == before[k],
            decreases self.shards.len() - i,
        {
            {
                let shard = &mut self.shards[i];
                shard.drain_into(&mut merged);
            }
            i += 1;
        }
        merged
    }
}

/// Activity that counts nothing adds nothing.
pub proof fn idle_activity_adds_nothing(a: Activity, b: Activity)
    requires
        b.is_idle(),
    ensures
        a.merged(b) == a,
{
    assert(a.merged(b).operations =~= a.operations);
    assert(a.merged(b).histograms =~= a.histograms);
    assert(a.merged(b) =~= a);
}

/// Merging counts every call of both activities.
pub proof fn merging_counts_all_calls(a: Activity, b: Activity, api: Seq<char>)
    ensures
        calls_under(a.merged(b).operations, api) == calls_under(a.operations, api).plus(
            calls_under(b.operations, api),
        ),
{
}

/// Operations counted between two samples.
pub struct ApplicationWindow {
    /// End of the window since sampling started.
    pub elapsed_ns: u64,
    /// Length of the window.
    pub duration_ns: u64,
    /// Calls in the window.
    pub operations: Named<OperationDelta>,
}

/// Latencies observed between two samples.
pub struct LatencyWindow {
    /// End of the window since sampling started.
    pub elapsed_ns: u64,
    /// Length of the window.
    pub duration_ns: u64,
    /// Latencies in the window.
    pub histograms: HistogramSet,
}

/// Requests counted between two samples.
#[derive(Debug, Clone, Copy, PartialEq, Eq, Structural)]
pub struct StoreWindow {
    /// Length of the window.
    pub duration_ns: u64,
    /// Growth of the store's counters in the window.
    pub delta: StoreSnapshot,
}

/// Counters of the host at one moment, with the bit patterns of its current loads.
#[derive(Debug, Clone, Copy, PartialEq, Eq, Structural)]
pub struct HostSnapshot {
    pub process_cpu_cores: u64,
    pub process_rss_bytes: u64,
    pub machine_cpu_percent: u64,
    pub network_received: u64,
    pub network_sent: u64,
    pub disk_read_bytes: u64,
    pub disk_write_bytes: u64,
    pub disk_read_operations: u64,
    pub disk_write_operations: u64,
}

/// Loads of the host, and growth of its counters, between two samples.
#[derive(Debug, Clone, Copy, PartialEq, Eq, Structural)]
pub struct ResourceWindow {
    pub elapsed_ns: u64,
    pub duration_ns: u64,
    pub process_cpu_cores: u64,
    pub process_rss_bytes: u64,
    pub machine_cpu_percent: u64,
    pub network_received: u64,
    pub network_sent: u64,
    pub disk_read_bytes: u64,
    pub disk_write_bytes: u64,
    pub disk_read_operations: u64,
    pub disk_write_operations: u64,
}

impl HostSnapshot {
    /// The window between an earlier snapshot and this one.
    pub open spec fn since(self, previous: Self, elapsed_ns: u64, duration_ns: u64) -> ResourceWindow {
        ResourceWindow {
            elapsed_ns,
            duration_ns,
            process_cpu_cores: self.process_cpu_cores,
            process_rss_bytes: self.process_rss_bytes,
            machine_cpu_percent: self.machine_cpu_percent,
            network_received: count::floored_difference(
                self.network_received,
                previous.network_received,
            ),
            network_sent: count::floored_difference(self.network_sent, previous.network_sent),
            disk_read_bytes: count::floored_difference(
                self.disk_read_bytes,
                previous.disk_read_bytes,
            ),
            disk_write_bytes: count::floored_difference(
                self.disk_write_bytes,
                previous.disk_write_bytes,
            ),
            disk_read_operations: count::floored_difference(
                self.disk_read_operations,
                previous.disk_read_operations,
            ),
            disk_write_operations: count::floored_difference(
                self.disk_write_operations,
                previous.disk_write_operations,
            ),
        }
    }

    /// Computes the window between an earlier snapshot and this one.
    pub fn window(&self, previous: &Self, elapsed_ns: u64, duration_ns: u64) -> (r: ResourceWindow)
        ensures
            r == self.since(*previous, elapsed_ns, duration_ns),
    {
        ResourceWindow {
            elapsed_ns,
            duration_ns,
            process_cpu_cores: self.process_cpu_cores,
            process_rss_bytes: self.process_rss_bytes,
            machine_cpu_percent: self.machine_cpu_percent,
            network_received: minus(self.network_received, previous.network_received),
            network_sent: minus(self.network_sent, previous.network_sent),
            disk_read_bytes: minus(self.disk_read_bytes, previous.disk_read_bytes),
            disk_write_bytes: minus(self.disk_write_bytes, previous.disk_write_bytes),
            disk_read_operations: minus(
                self.disk_read_operations,
                previous.disk_read_operations,
            ),
            disk_write_operations: minus(
                self.disk_write_operations,
                previous.disk_write_operations,
            ),
        }
    }
}

/// Whether rate windows are being captured.
#[derive(Debug, Clone, Copy, PartialEq, Eq, Structural)]
pub struct RateWindowControl {
    active: bool,
}

impl RateWindowControl {
    /// Whether rate windows are being captured.
    pub closed spec fn is_active(self) -> bool {
        self.active
    }

    /// Captures rate windows.
    pub fn new() -> (r: Self)
        ensures
            r.is_active(),
    {
        RateWindowControl { active: true }
    }

    /// Tells whether rate windows are being captured.
    pub fn active(&self) -> (r: bool)
        ensures
            r == self.is_active(),
    {
        self.active
    }

    /// Stops rate-window capture.
    pub fn finish(&mut self)
        ensures
            !final(self).is_active(),
    {
        self.active = false;
    }
}

/// The windows of one measurement so far.
pub struct Sampler {
    started: u64,
    previous_at: u64,
    previous_host: HostSnapshot,
    previous_store: StoreSnapshot,
    store_start: StoreSnapshot,
    application_total: ApplicationDelta,
    application_windows: Vec<ApplicationWindow>,
    latency_windows: Vec<LatencyWindow>,
    store_windows: Vec<StoreWindow>,
    resources: Vec<ResourceWindow>,
}

/// Everything recorded over one measurement.
pub struct SampledMeasurement {
    elapsed_ns: u64,
    application_total: ApplicationDelta,
    application_windows: Vec<ApplicationWindow>,
    latency_windows: Vec<LatencyWindow>,
    store_start: StoreSnapshot,
    store_end: StoreSnapshot,
    store_windows: Vec<StoreWindow>,
    resources: Vec<ResourceWindow>,
}

/// A rate window, without its representation.
#[verifier::ext_equal]
pub struct RateView {
    pub elapsed_ns: u64,
    pub duration_ns: u64,
    pub operations: Map<Seq<char>, OperationDelta>,
}

/// A latency window, without its representation.
#[verifier::ext_equal]
pub struct LatencyView {
    pub elapsed_ns: u64,
    pub duration_ns: u64,
    pub histograms: Map<Seq<char>, Recorded>,
}

/// What a measurement holds.
#[verifier::ext_equal]
pub struct MeasurementView {
    /// All activity, in and out of rate windows.
    pub total: Activity,
    /// The rate windows of applications.
    pub rates: Seq<RateView>,
    /// The latency windows.
    pub latencies: Seq<LatencyView>,
    /// The rate windows of the store.
    pub stores: Seq<StoreWindow>,
    /// The windows of the host.
    pub resources: Seq<ResourceWindow>,
    /// The store's counters at the start.
    pub store_start: StoreSnapshot,
}

/// The rate windows without their representation.
pub open spec fn rate_views(windows: Seq<ApplicationWindow>) -> Seq<RateView> {
    Seq::new(
        windows.len(),
        |i: int|
            RateView {
                elapsed_ns: windows[i].elapsed_ns,
                duration_ns: windows[i].duration_ns,
                operations: windows[i].operations.map(),
            },
    )
}

/// The latency windows without their representation.
pub open spec fn latency_views(windows: Seq<LatencyWindow>) -> Seq<LatencyView> {
    Seq::new(
        windows.len(),
        |i: int|
            LatencyView {
                elapsed_ns: windows[i].elapsed_ns,
                duration_ns: windows[i].duration_ns,
                histograms: windows[i].histograms@,
            },
    )
}

/// Whether the tables of all windows are in order.
pub open spec fn windows_wf(rates: Seq<ApplicationWindow>, latencies: Seq<LatencyWindow>) -> bool {
    &&& forall|i: int| 0 <= i < rates.len() ==> (#[trigger] rates[i]).operations.wf()
    &&& forall|i: int| 0 <= i < latencies.len() ==> (#[trigger] latencies[i]).histograms.wf()
}

impl MeasurementView {
    /// The measurement after one more window of activity.
    pub open spec fn with_window(
        self,
        elapsed_ns: u64,
        duration_ns: u64,
        activity: Activity,
        store_growth: StoreSnapshot,
        rated: bool,
    ) -> Self {
        MeasurementView {
            total: self.total.merged(activity),
            rates: if rated {
                self.rates.push(
                    RateView { elapsed_ns, duration_ns, operations: activity.operations },
                )
            } else {
                self.rates
            },
            latencies: self.latencies.push(
                LatencyView { elapsed_ns, duration_ns, histograms: activity.histograms },
            ),
            stores: if rated {
                self.stores.push(StoreWindow { duration_ns, delta: store_growth })
            } else {
                self.stores
            },
            ..self
        }
    }
}

impl Sampler {
    /// The tables are in order, and rate windows of applications and store go together.
    pub closed spec fn wf(&self) -> bool {
        &&& self.application_total.wf()
        &&& windows_wf(self.application_windows@, self.latency_windows@)
        &&& self.application_windows.len() == self.store_windows.len()
    }

    /// What was measured so far.
    pub closed spec fn view(&self) -> MeasurementView {
        MeasurementView {
            total: self.application_total@,
            rates: rate_views(self.application_windows@),
            latencies: latency_views(self.latency_windows@),
            stores: self.store_windows@,
            resources: self.resources@,
            store_start: self.store_start,
        }
    }

    /// The moment at which sampling started.
    pub closed spec fn started(&self) -> u64 {
        self.started
    }

    /// The moment of the last sample.
    pub closed spec fn last_at(&self) -> u64 {
        self.previous_at
    }

    /// The store's counters at the last sample.
    pub closed spec fn last_store(&self) -> StoreSnapshot {
        self.previous_store
    }

    /// The host's counters at the last sample.
    pub closed spec fn last_host(&self) -> HostSnapshot {
        self.previous_host
    }

    /// Takes the baselines of a measurement.
    pub fn new(now: u64, store: StoreSnapshot, host: HostSnapshot) -> (r: Self)
        ensures
            r.wf(),
            r.started() == now,
            r.last_at() == now,
            r.last_store() == store,
            r.last_host() == host,
            r@ == (MeasurementView {
                total: Activity::none(),
                rates: Seq::empty(),
                latencies: Seq::empty(),
                stores: Seq::empty(),
                resources: Seq::empty(),
                store_start: store,
            }),
    {
        let r = Sampler {
            started: now,
            previous_at: now,
            previous_host: host,
            previous_store: store,
            store_start: store,
            application_total: ApplicationDelta::new(),
            application_windows: Vec::new(),
            latency_windows: Vec::new(),
            store_windows: Vec::new(),
            resources: Vec::new(),
        };
        proof {
            assert(r@.rates =~= Seq::<RateView>::empty());
            assert(r@.latencies =~= Seq::<LatencyView>::empty());
            assert(r@.stores =~= Seq::<StoreWindow>::empty());
            assert(r@.resources =~= Seq::<ResourceWindow>::empty());
        }
        r
    }

    /// Adds one window of activity that ended at `now`.
    fn window(
        &mut self,
        now: u64,
        application: ApplicationDelta,
        store: &StoreSnapshot,
        rated: bool,
    )
        requires
            old(self).wf(),
            application.wf(),
        ensures
            final(self).wf(),
            final(self)@ == old(self)@.with_window(
                count::floored_difference(now, old(self).started()),
                count::floored_difference(now, old(self).last_at()),
                application@,
                store.since(old(self).last_store()),
                rated,
            ),
            final(self).started() == old(self).started(),
            final(self).last_at() == old(self).last_at(),
            final(self).last_store() == old(self).last_store(),
            final(self).last_host() == old(self).last_host(),
    {
        let ghost before = *self;
        let ghost activity = application@;
        let duration: u64 = minus(now, self.previous_at);
        let elapsed: u64 = minus(now, self.started);
        self.application_total.merge(&application);
        self.latency_windows.push(
            LatencyWindow {
                elapsed_ns: elapsed,
                duration_ns: duration,
                histograms: application.histograms,
            },
        );
        if rated {
            self.application_windows.push(
                ApplicationWindow {
                    elapsed_ns: elapsed,
                    duration_ns: duration,
                    operations: application.operations,
                },
            );
            self.store_windows.push(
                StoreWindow {
                    duration_ns: duration,
                    delta: store.difference(&self.previous_store),
                },
            );
        }
        proof {
            let expected = before@.with_window(
                elapsed,
                duration,
                activity,
                store.since(before.last_store()),
                rated,
            );
            assert(self@.rates =~= expected.rates);
            assert(self@.latencies =~= expected.latencies);
            assert(self@.stores =~= expected.stores);
            assert(self@ =~= expected);
        }
    }

    /// Takes a sample: the activity since the last one, and the counters as they stand.
    ///
    /// While rate windows are active the sample also closes a rate window.
    pub fn tick(
        &mut self,
        now: u64,
        application: ApplicationDelta,
        store: StoreSnapshot,
        host: HostSnapshot,
        rate_windows: &RateWindowControl,
    )
        requires
            old(self).wf(),
            application.wf(),
        ensures
            final(self).wf(),
            final(self).started() == old(self).started(),
            final(self).last_at() == now,
            final(self).last_store() == store,
            final(self).last_host() == host,
            final(self)@ == (MeasurementView {
                resources: old(self)@.resources.push(
                    host.since(
                        old(self).last_host(),
                        count::floored_difference(now, old(self).started()),
                        count::floored_difference(now, old(self).last_at()),
                    ),
                ),
                ..old(self)@.with_window(
                    count::floored_difference(now, old(self).started()),
                    count::floored_difference(now, old(self).last_at()),
                    application@,
                    store.since(old(self).last_store()),
                    rate_windows.is_active(),
                )
            }),
    {
        let ghost before = *self;
        self.window(now, application, &store, rate_windows.active());
        let duration: u64 = minus(now, self.previous_at);
        let elapsed: u64 = minus(now, self.started);
        self.resources.push(host.window(&self.previous_host, elapsed, duration));
        self.previous_at = now;
        self.previous_store = store;
        self.previous_host = host;
    }

    /// Ends the measurement with a last, partial window.
    pub fn finish(
        self,
        now: u64,
        application: ApplicationDelta,
        store: StoreSnapshot,
        rate_windows: &RateWindowControl,
    ) -> (r: SampledMeasurement)
        requires
            self.wf(),
            application.wf(),
        ensures
            r.wf(),
            r.elapsed_time() == count::floored_difference(now, self.started()),
            r.store_end_counters() == store,
            r@ == self@.with_window(
                count::floored_difference(now, self.started()),
                count::floored_difference(now, self.last_at()),
                application@,
                store.since(self.last_store()),
                rate_windows.is_active(),
            ),
    {
        let mut s = self;
        s.window(now, application, &store, rate_windows.active());
        SampledMeasurement {
            elapsed_ns: minus(now, s.started),
            application_total: s.application_total,
            application_windows: s.application_windows,
            latency_windows: s.latency_windows,
            store_start: s.store_start,
            store_end: store,
            store_windows: s.store_windows,
            resources: s.resources,
        }
    }
}

/// The calls of an operation in each rate window.
pub open spec fn call_rates(windows: Seq<RateView>, name: Seq<char>) -> Seq<Rate> {
    Seq::new(
        windows.len(),
        |i: int|
            Rate {
                amount: calls_under(windows[i].operations, name).calls,
                duration_ns: windows[i].duration_ns,
            },
    )
}

/// The bytes of an operation in each rate window.
pub open spec fn byte_rates(windows: Seq<RateView>, name: Seq<char>) -> Seq<Rate> {
    Seq::new(
        windows.len(),
        |i: int|
            Rate {
                amount: calls_under(windows[i].operations, name).logical_bytes,
                duration_ns: windows[i].duration_ns,
            },
    )
}

/// The requests of a method in each rate window.
pub open spec fn request_rates(windows: Seq<StoreWindow>, method: HttpMethod) -> Seq<Rate> {
    Seq::new(
        windows.len(),
        |i: int|
            Rate {
                amount: windows[i].delta.requests.of(method),
                duration_ns: windows[i].duration_ns,
            },
    )
}

/// The body bytes of a method in each rate window.
pub open spec fn body_rates(windows: Seq<StoreWindow>, method: HttpMethod) -> Seq<Rate> {
    Seq::new(
        windows.len(),
        |i: int|
            Rate { amount: windows[i].delta.body(method), duration_ns: windows[i].duration_ns },
    )
}

/// A total over the whole measurement, with its rate in each window.
pub struct RateTotals {
    /// The amount over the whole measurement and its length.
    pub overall: Rate,
    /// The amount in each rate window.
    pub windows: Vec<Rate>,
}

/// What applications did, before rates are computed.
pub struct ApplicationRates {
    /// Operation name to calls.
    pub operations: Named<RateTotals>,
    /// Operation name to logical bytes.
    pub throughput: Named<RateTotals>,
    /// Operation name to latency percentiles.
    pub latency: Named<LatencyDigest>,
}

/// What the object store did, before rates are computed.
pub struct ObjectStoreRates {
    /// HTTP method to requests.
    pub requests: Named<RateTotals>,
    /// HTTP method to body bytes.
    pub throughput: Named<RateTotals>,
}

/// The sum of the errors of the first `k` operations.
pub open spec fn error_sum(operations: Seq<OperationDelta>, k: int) -> nat
    decreases k,
{
    if k <= 0 {
        0
    } else {
        error_sum(operations, k - 1) + operations[k - 1].errors as nat
    }
}

impl SampledMeasurement {
    /// The tables are in order.
    pub closed spec fn wf(&self) -> bool {
        &&& self.application_total.wf()
        &&& windows_wf(self.application_windows@, self.latency_windows@)
        &&& self.application_windows.len() == self.store_windows.len()
    }

    /// What was measured.
    pub closed spec fn view(&self) -> MeasurementView {
        MeasurementView {
            total: self.application_total@,
            rates: rate_views(self.application_windows@),
            latencies: latency_views(self.latency_windows@),
            stores: self.store_windows@,
            resources: self.resources@,
            store_start: self.store_start,
        }
    }

    /// The length of the measurement.
    pub closed spec fn elapsed_time(&self) -> u64 {
        self.elapsed_ns
    }

    /// The store's counters at the end.
    pub closed spec fn store_end_counters(&self) -> StoreSnapshot {
        self.store_end
    }

    /// The growth of the store's counters over the measurement.
    pub open spec fn store_total(&self) -> StoreSnapshot {
        self.store_end_counters().since(self@.store_start)
    }

    /// The counted operations, in the order of their names.
    pub closed spec fn operation_totals(&self) -> Seq<OperationDelta> {
        self.application_total.operations.values()
    }

    /// Whether every latency table counts within the range that percentiles need.
    pub open spec fn within_range(&self) -> bool {
        &&& histogram::within_range(self@.total.histograms)
        &&& forall|i: int|
            0 <= i < self@.latencies.len() ==> histogram::within_range(
                (#[trigger] self@.latencies[i]).histograms,
            )
    }

    /// Returns whether every latency table counts within the range that percentiles need.
    pub fn is_within_range(&self) -> (r: bool)
        requires
            self.wf(),
        ensures
            r == self.within_range(),
    {
        if !self.application_total.histograms.is_within_range() {
            return false;
        }
        let mut i: usize = 0;
        while i < self.latency_windows.len()
            invariant
                self.wf(),
                i <= self.latency_windows.len(),
                forall|k: int|
                    0 <= k < i ==> histogram::within_range(
                        (#[trigger] self@.latencies[k]).histograms,
                    ),
            decreases self.latency_windows.len() - i,
        {
            proof {
                assert(self@.latencies[i as int].histograms
                    == self.latency_windows@[i as int].histograms@);
            }
            if !self.latency_windows[i].histograms.is_within_range() {
                return false;
            }
            i += 1;
        }
        true
    }

    /// Returns the length of the measurement.
    pub fn elapsed(&self) -> (r: u64)
        ensures
            r == self.elapsed_time(),
    {
        self.elapsed_ns
    }

    /// Returns the number of calls of an operation.
    pub fn operation_total(&self, name: &str) -> (r: u64)
        requires
            self.wf(),
        ensures
            r == calls_under(self@.total.operations, name@).calls,
    {
        match self.application_total.operations.get(name) {
            Some(operation) => operation.calls,
            None => 0,
        }
    }

    /// Returns the number of failed calls.
    pub fn application_errors(&self) -> (r: u64)
        requires
            self.wf(),
            error_sum(self.operation_totals(), self.operation_totals().len() as int) <= u64::MAX,
        ensures
            r == error_sum(self.operation_totals(), self.operation_totals().len() as int),
    {
        let operations = &self.application_total.operations;
        let ghost totals = self.operation_totals();
        let mut sum: u64 = 0;
        let mut i: usize = 0;
        while i < operations.len()
            invariant
                totals == operations.values(),
                operations.names().len() == totals.len(),
                i <= totals.len(),
                sum == error_sum(totals, i as int),
                error_sum(totals, totals.len() as int) <= u64::MAX,
            decreases totals.len() - i,
        {
            proof {
                error_sum_grows(totals, i + 1);
            }
            sum = sum + operations.value_at(i).errors;
            i += 1;
        }
        sum
    }

    /// Returns the number of failed requests to the object store.
    pub fn object_store_attempt_errors(&self) -> (r: u64)
        requires
            self.store_total().request_errors.sum() <= u64::MAX,
        ensures
            r == self.store_total().request_errors.sum(),
    {
        self.store_end.difference(&self.store_start).errors()
    }

    /// Returns the number of failed calls and failed requests.
    pub fn errors(&self) -> (r: u64)
        requires
            self.wf(),
            error_sum(self.operation_totals(), self.operation_totals().len() as int) <= u64::MAX,
            self.store_total().request_errors.sum() <= u64::MAX,
        ensures
            r == count::capped_sum(
                error_sum(self.operation_totals(), self.operation_totals().len() as int) as u64,
                self.store_total().request_errors.sum() as u64,
            ),
    {
        plus(self.application_errors(), self.object_store_attempt_errors())
    }
}

proof fn error_sum_grows(operations: Seq<OperationDelta>, k: int)
    requires
        0 <= k <= operations.len(),
    ensures
        error_sum(operations, k) <= error_sum(operations, operations.len() as int),
    decreases operations.len() - k,
{
    if k < operations.len() {
        error_sum_grows(operations, k + 1);
    }
}

/// Whether totals give an amount over a time, with its rate in each window.
pub open spec fn totals(t: RateTotals, amount: u64, elapsed_ns: u64, windows: Seq<Rate>) -> bool {
    t.overall == (Rate { amount, duration_ns: elapsed_ns }) && t.windows@ == windows
}

/// Whether tables hold the calls and bytes of each operation over a measurement.
pub open spec fn summarizes_operations(
    operations: Map<Seq<char>, RateTotals>,
    throughput: Map<Seq<char>, RateTotals>,
    m: MeasurementView,
    elapsed_ns: u64,
) -> bool {
    &&& forall|n: Seq<char>| #[trigger]
        operations.dom().contains(n) <==> m.total.operations.dom().contains(n)
    &&& forall|n: Seq<char>| #[trigger]
        operations.dom().contains(n) ==> totals(
            operations[n],
            m.total.operations[n].calls,
            elapsed_ns,
            call_rates(m.rates, n),
        )
    &&& forall|n: Seq<char>| #[trigger]
        throughput.dom().contains(n) <==> m.total.operations.dom().contains(n)
            && m.total.operations[n].logical_bytes > 0
    &&& forall|n: Seq<char>| #[trigger]
        throughput.dom().contains(n) ==> totals(
            throughput[n],
            m.total.operations[n].logical_bytes,
            elapsed_ns,
            byte_rates(m.rates, n),
        )
}

/// Whether tables hold the window rates of each operation.
pub open spec fn plots_operations(
    calls: Map<Seq<char>, Vec<Rate>>,
    bytes: Map<Seq<char>, Vec<Rate>>,
    m: MeasurementView,
) -> bool {
    &&& forall|n: Seq<char>| #[trigger]
        calls.dom().contains(n) <==> m.total.operations.dom().contains(n)
    &&& forall|n: Seq<char>| #[trigger]
        calls.dom().contains(n) ==> calls[n]@ == call_rates(m.rates, n)
    &&& forall|n: Seq<char>| #[trigger]
        bytes.dom().contains(n) <==> m.total.operations.dom().contains(n)
            && m.total.operations[n].logical_bytes > 0
    &&& forall|n: Seq<char>| #[trigger]
        bytes.dom().contains(n) ==> bytes[n]@ == byte_rates(m.rates, n)
}

/// Whether a name is that of a method with requests.
pub open spec fn requested(s: StoreSnapshot, name: Seq<char>) -> bool {
    exists|m: HttpMethod| #[trigger] m.label() == name && s.requests.of(m) > 0
}

/// Whether a name is that of a method with requests and body bytes.
pub open spec fn transferred(s: StoreSnapshot, name: Seq<char>) -> bool {
    exists|m: HttpMethod| #[trigger] m.label() == name && s.requests.of(m) > 0 && s.body(m) > 0
}

/// Whether tables hold the requests and body bytes of each method over a measurement.
pub open spec fn summarizes_requests(
    requests: Map<Seq<char>, RateTotals>,
    throughput: Map<Seq<char>, RateTotals>,
    total: StoreSnapshot,
    windows: Seq<StoreWindow>,
    elapsed_ns: u64,
) -> bool {
    &&& forall|n: Seq<char>| #[trigger] requests.dom().contains(n) <==> requested(total, n)
    &&& forall|m: HttpMethod|
        requests.dom().contains(#[trigger] m.label()) ==> totals(
            requests[m.label()],
            total.requests.of(m),
            elapsed_ns,
            request_rates(windows, m),
        )
    &&& forall|n: Seq<char>| #[trigger] throughput.dom().contains(n) <==> transferred(total, n)
    &&& forall|m: HttpMethod|
        throughput.dom().contains(#[trigger] m.label()) ==> totals(
            throughput[m.label()],
            total.body(m),
            elapsed_ns,
            body_rates(windows, m),
        )
}

/// Whether tables hold the window rates of each method.
pub open spec fn plots_requests(
    requests: Map<Seq<char>, Vec<Rate>>,
    bytes: Map<Seq<char>, Vec<Rate>>,
    total: StoreSnapshot,
    windows: Seq<StoreWindow>,
) -> bool {
    &&& forall|n: Seq<char>| #[trigger] requests.dom().contains(n) <==> requested(total, n)
    &&& forall|m: HttpMethod|
        requests.dom().contains(#[trigger] m.label()) ==> requests[m.label()]@ == request_rates(
            windows,
            m,
        )
    &&& forall|n: Seq<char>| #[trigger] bytes.dom().contains(n) <==> transferred(total, n)
    &&& forall|m: HttpMethod|
        bytes.dom().contains(#[trigger] m.label()) ==> bytes[m.label()]@ == body_rates(windows, m)
}

/// Whether a series holds the latency digest of a name in each window that has observations.
pub open spec fn plots_latency(
    s: LatencyTimeSeries,
    name: Seq<char>,
    windows: Seq<LatencyView>,
) -> bool {
    &&& s.windows.len() == windows.len()
    &&& forall|i: int|
        0 <= i < windows.len() ==> (match #[trigger] s.windows@[i] {
            Some(d) => windows[i].histograms.dom().contains(name)
                && windows[i].histograms[name].total > 0 && histogram::digests(
                d,
                windows[i].histograms[name],
            ),
            None => histogram::recorded_as(windows[i].histograms, name).total == 0,
        })
}

/// Whether a series shows a measurement.
pub open spec fn plots(
    s: WorkloadSeries,
    m: MeasurementView,
    store_total: StoreSnapshot,
) -> bool {
    &&& s.rate_elapsed_ns@ == m.rates.map_values(|w: RateView| w.elapsed_ns)
    &&& s.rate_duration_ns@ == m.rates.map_values(|w: RateView| w.duration_ns)
    &&& s.latency_elapsed_ns@ == m.latencies.map_values(|w: LatencyView| w.elapsed_ns)
    &&& s.latency_duration_ns@ == m.latencies.map_values(|w: LatencyView| w.duration_ns)
    &&& s.resource_elapsed_ns@ == m.resources.map_values(|w: ResourceWindow| w.elapsed_ns)
    &&& s.resource_duration_ns@ == m.resources.map_values(|w: ResourceWindow| w.duration_ns)
    &&& plots_operations(
        s.application.operations_per_second.map(),
        s.application.bytes_per_second.map(),
        m,
    )
    &&& forall|n: Seq<char>| #[trigger]
        s.application.latency_ns.map().dom().contains(n) <==> m.total.histograms.dom().contains(
            "api/"@ + n,
        )
    &&& forall|n: Seq<char>| #[trigger]
        s.application.latency_ns.map().dom().contains(n) ==> plots_latency(
            s.application.latency_ns.map()[n],
            "api/"@ + n,
            m.latencies,
        )
    &&& forall|n: Seq<char>|
        s.application.latency_histograms.map().dom().contains(n)
            <==> #[trigger] m.total.histograms.dom().contains("api/"@ + n)
    &&& forall|n: Seq<char>| #[trigger]
        s.application.latency_histograms.map().dom().contains(n) ==> histogram::series_of(
            s.application.latency_histograms.map()[n],
            m.total.histograms["api/"@ + n],
        )
    &&& plots_requests(
        s.object_store.requests_per_second.map(),
        s.object_store.bytes_per_second.map(),
        store_total,
        m.stores,
    )
    &&& plots_process(s.process, m.resources)
    &&& plots_machine(s.machine, m.resources)
}

/// Whether series show the process's loads in the windows of the host.
pub open spec fn plots_process(process: ProcessSeries, windows: Seq<ResourceWindow>) -> bool {
    &&& process.cpu_cores@ == windows.map_values(|w: ResourceWindow| w.process_cpu_cores)
    &&& process.rss_bytes@ == windows.map_values(|w: ResourceWindow| w.process_rss_bytes)
}

/// Whether series show the host's loads and traffic in its windows.
pub open spec fn plots_machine(machine: MachineSeries, windows: Seq<ResourceWindow>) -> bool {
    &&& machine.cpu_percent@ == windows.map_values(|w: ResourceWindow| w.machine_cpu_percent)
    &&& machine.rss_bytes@ == windows.map_values(|w: ResourceWindow| w.process_rss_bytes)
    &&& machine.network_receive_bytes_per_second@ == windows.map_values(
        |w: ResourceWindow| Rate { amount: w.network_received, duration_ns: w.duration_ns },
    )
    &&& machine.network_send_bytes_per_second@ == windows.map_values(
        |w: ResourceWindow| Rate { amount: w.network_sent, duration_ns: w.duration_ns },
    )
    &&& machine.disk_read_bytes_per_second@ == windows.map_values(
        |w: ResourceWindow| Rate { amount: w.disk_read_bytes, duration_ns: w.duration_ns },
    )
    &&& machine.disk_write_bytes_per_second@ == windows.map_values(
        |w: ResourceWindow| Rate { amount: w.disk_write_bytes, duration_ns: w.duration_ns },
    )
    &&& machine.disk_read_operations_per_second@ == windows.map_values(
        |w: ResourceWindow| Rate { amount: w.disk_read_operations, duration_ns: w.duration_ns },
    )
    &&& machine.disk_write_operations_per_second@ == windows.map_values(
        |w: ResourceWindow| Rate { amount: w.disk_write_operations, duration_ns: w.duration_ns },
    )
}

/// The methods in reporting order.
fn methods() -> (r: Vec<HttpMethod>)
    ensures
        r.len() == 6,
        forall|m: HttpMethod| r@.contains(#[trigger] m.row()),
        forall|i: int| 0 <= i < 6 ==> (#[trigger] r@[i]).position() == i,
{
    let r = vec![
        HttpMethod::Get,
        HttpMethod::Put,
        HttpMethod::Head,
        HttpMethod::Delete,
        HttpMethod::Post,
        HttpMethod::Other,
    ];
    proof {
        assert forall|m: HttpMethod| r@.contains(#[trigger] m.row()) by {
            assert(r@[m.position()] == m.row());
        }
    }
    r
}

impl SampledMeasurement {
    fn call_column(&self, name: &str) -> (r: Vec<Rate>)
        requires
            self.wf(),
        ensures
            r@ == call_rates(self@.rates, name@),
    {
        let mut out: Vec<Rate> = Vec::new();
        let mut i: usize = 0;
        while i < self.application_windows.len()
            invariant
                self.wf(),
                i <= self.application_windows.len(),
                out.len() == i,
                forall|k: int| 0 <= k < i ==> out@[k] == call_rates(self@.rates, name@)[k],
            decreases self.application_windows.len() - i,
        {
            let window = &self.application_windows[i];
            let amount: u64 = match window.operations.get(name) {
                Some(operation) => operation.calls,
                None => 0,
            };
            out.push(Rate { amount, duration_ns: window.duration_ns });
            i += 1;
        }
        assert(out@ =~= call_rates(self@.rates, name@));
        out
    }

    fn byte_column(&self, name: &str) -> (r: Vec<Rate>)
        requires
            self.wf(),
        ensures
            r@ == byte_rates(self@.rates, name@),
    {
        let mut out: Vec<Rate> = Vec::new();
        let mut i: usize = 0;
        while i < self.application_windows.len()
            invariant
                self.wf(),
                i <= self.application_windows.len(),
                out.len() == i,
                forall|k: int| 0 <= k < i ==> out@[k] == byte_rates(self@.rates, name@)[k],
            decreases self.application_windows.len() - i,
        {
            let window = &self.application_windows[i];
            let amount: u64 = match window.operations.get(name) {
                Some(operation) => operation.logical_bytes,
                None => 0,
            };
            out.push(Rate { amount, duration_ns: window.duration_ns });
            i += 1;
        }
        assert(out@ =~= byte_rates(self@.rates, name@));
        out
    }

    fn request_column(&self, method: HttpMethod) -> (r: Vec<Rate>)
        ensures
            r@ == request_rates(self@.stores, method),
    {
        let mut out: Vec<Rate> = Vec::new();
        let mut i: usize = 0;
        while i < self.store_windows.len()
            invariant
                i <= self.store_windows.len(),
                out.len() == i,
                forall|k: int| 0 <= k < i ==> out@[k] == request_rates(self@.stores, method)[k],
            decreases self.store_windows.len() - i,
        {
            let window = &self.store_windows[i];
            out.push(
                Rate {
                    amount: window.delta.requests.count(method),
                    duration_ns: window.duration_ns,
                },
            );
            i += 1;
        }
        assert(out@ =~= request_rates(self@.stores, method));
        out
    }

    fn body_column(&self, method: HttpMethod) -> (r: Vec<Rate>)
        ensures
            r@ == body_rates(self@.stores, method),
    {
        let mut out: Vec<Rate> = Vec::new();
        let mut i: usize = 0;
        while i < self.store_windows.len()
            invariant
                i <= self.store_windows.len(),
                out.len() == i,
                forall|k: int| 0 <= k < i ==> out@[k] == body_rates(self@.stores, method)[k],
            decreases self.store_windows.len() - i,
        {
            let window = &self.store_windows[i];
            proof {
                crate::instrumented_store::names_select_methods(
                    window.delta.request_bytes,
                    method,
                );
                crate::instrumented_store::names_select_methods(
                    window.delta.response_bytes,
                    method,
                );
            }
            out.push(
                Rate {
                    amount: window.delta.body_bytes(method.name()),
                    duration_ns: window.duration_ns,
                },
            );
            i += 1;
        }
        assert(out@ =~= body_rates(self@.stores, method));
        out
    }

    /// Lists the calls, bytes and latencies of each operation.
    ///
    /// An operation without logical bytes has no throughput.
    pub fn application(&self) -> (r: ApplicationRates)
        requires
            self.wf(),
            self.within_range(),
        ensures
            r.operations.wf(),
            r.throughput.wf(),
            r.latency.wf(),
            summarizes_operations(
                r.operations.map(),
                r.throughput.map(),
                self@,
                self.elapsed_time(),
            ),
            forall|n: Seq<char>|
                r.latency.map().dom().contains(n)
                    <==> #[trigger] self@.total.histograms.dom().contains("api/"@ + n),
            forall|n: Seq<char>| #[trigger]
                r.latency.map().dom().contains(n) ==> histogram::digests(
                    r.latency.map()[n],
                    self@.total.histograms["api/"@ + n],
                ) && histogram::digest_rises(r.latency.map()[n]),
    {
        let elapsed: u64 = self.elapsed_ns;
        let mut operations: Named<RateTotals> = Named::new();
        let mut throughput: Named<RateTotals> = Named::new();
        let all = &self.application_total.operations;
        let ghost names = all.names();
        let mut i: usize = 0;
        while i < all.len()
            invariant
                self.wf(),
                elapsed == self.elapsed_time(),
                *all == self.application_total.operations,
                names == all.names(),
                i <= names.len(),
                operations.wf(),
                throughput.wf(),
                forall|n: Seq<char>| #[trigger]
                    operations.map().dom().contains(n) <==> names.contains(n) && names.index_of(n)
                        < i,
                forall|n: Seq<char>| #[trigger]
                    operations.map().dom().contains(n) ==> totals(
                        operations.map()[n],
                        self@.total.operations[n].calls,
                        elapsed,
                        call_rates(self@.rates, n),
                    ),
                forall|n: Seq<char>| #[trigger]
                    throughput.map().dom().contains(n) <==> names.contains(n) && names.index_of(n)
                        < i && self@.total.operations[n].logical_bytes > 0,
                forall|n: Seq<char>| #[trigger]
                    throughput.map().dom().contains(n) ==> totals(
                        throughput.map()[n],
                        self@.total.operations[n].logical_bytes,
                        elapsed,
                        byte_rates(self@.rates, n),
                    ),
            decreases names.len() - i,
        {
            proof {
                named::position_is_unique(names, i as int);
                all.entry(i as int);
            }
            let name = all.name_at(i);
            let total = all.value_at(i);
            operations.put(
                name.clone(),
                RateTotals {
                    overall: Rate { amount: total.calls, duration_ns: elapsed },
                    windows: self.call_column(name.as_str()),
                },
            );
            if total.logical_bytes > 0 {
                throughput.put(
                    name.clone(),
                    RateTotals {
                        overall: Rate { amount: total.logical_bytes, duration_ns: elapsed },
                        windows: self.byte_column(name.as_str()),
                    },
                );
            }
            i += 1;
        }
        ApplicationRates {
            operations,
            throughput,
            latency: self.application_total.histograms.summaries_with_prefix("api/"),
        }
    }

    /// Lists the requests and body bytes of each method that was used.
    pub fn object_store(&self) -> (r: ObjectStoreRates)
        ensures
            r.requests.wf(),
            r.throughput.wf(),
            summarizes_requests(
                r.requests.map(),
                r.throughput.map(),
                self.store_total(),
                self@.stores,
                self.elapsed_time(),
            ),
    {
        let elapsed: u64 = self.elapsed_ns;
        let total = self.store_end.difference(&self.store_start);
        let mut requests: Named<RateTotals> = Named::new();
        let mut throughput: Named<RateTotals> = Named::new();
        let all = methods();
        let mut i: usize = 0;
        while i < all.len()
            invariant
                elapsed == self.elapsed_time(),
                total == self.store_total(),
                all.len() == 6,
                i <= 6,
                forall|m: HttpMethod| all@.contains(#[trigger] m.row()),
                forall|k: int| 0 <= k < 6 ==> (#[trigger] all@[k]).position() == k,
                requests.wf(),
                throughput.wf(),
                forall|n: Seq<char>| #[trigger]
                    requests.map().dom().contains(n) <==> exists|m: HttpMethod|
                        #[trigger] m.label() == n && total.requests.of(m) > 0 && m.position() < i,
                forall|m: HttpMethod|
                    requests.map().dom().contains(#[trigger] m.label()) ==> totals(
                        requests.map()[m.label()],
                        total.requests.of(m),
                        elapsed,
                        request_rates(self@.stores, m),
                    ),
                forall|n: Seq<char>| #[trigger]
                    throughput.map().dom().contains(n) <==> exists|m: HttpMethod|
                        #[trigger] m.label() == n && total.requests.of(m) > 0 && total.body(m) > 0
                            && m.position() < i,
                forall|m: HttpMethod|
                    throughput.map().dom().contains(#[trigger] m.label()) ==> totals(
                        throughput.map()[m.label()],
                        total.body(m),
                        elapsed,
                        body_rates(self@.stores, m),
                    ),
            decreases 6 - i,
        {
            let method = all[i];
            let amount: u64 = total.requests.count(method);
            let ghost before = requests.map();
            let ghost before_bytes = throughput.map();
            proof {
                crate::instrumented_store::names_select_methods(total.request_bytes, method);
                crate::instrumented_store::names_select_methods(total.response_bytes, method);
                assert forall|m: HttpMethod| #[trigger] m.label() == method.label() implies m.row()
                    == method.row() && request_rates(self@.stores, m) == request_rates(
                    self@.stores,
                    method,
                ) && body_rates(self@.stores, m) == body_rates(self@.stores, method) by {
                    crate::instrumented_store::labels_are_distinct(m, method);
                    assert(request_rates(self@.stores, m) =~= request_rates(self@.stores, method));
                    assert(body_rates(self@.stores, m) =~= body_rates(self@.stores, method));
                }
            }
            if amount > 0 {
                requests.put(
                    method.name().to_string(),
                    RateTotals {
                        overall: Rate { amount, duration_ns: elapsed },
                        windows: self.request_column(method),
                    },
                );
                let bytes: u64 = total.body_bytes(method.name());
                if bytes > 0 {
                    throughput.put(
                        method.name().to_string(),
                        RateTotals {
                            overall: Rate { amount: bytes, duration_ns: elapsed },
                            windows: self.body_column(method),
                        },
                    );
                }
            }
            proof {
                assert forall|n: Seq<char>| #[trigger]
                    requests.map().dom().contains(n) <==> exists|m: HttpMethod|
                        #[trigger] m.label() == n && total.requests.of(m) > 0 && m.position() < i
                            + 1 by {
                    if requests.map().dom().contains(n) && n == method.label() && amount > 0 {
                        assert(method.label() == n && total.requests.of(method) > 0);
                    }
                    if exists|m: HttpMethod| #[trigger]
                        m.label() == n && total.requests.of(m) > 0 && m.position() < i + 1 {
                        let m = choose|m: HttpMethod| #[trigger]
                            m.label() == n && total.requests.of(m) > 0 && m.position() < i + 1;
                        if m.position() == i {
                            assert(m.row() == method.row());
                        } else {
                            assert(before.dom().contains(n));
                        }
                    }
                }
                assert forall|n: Seq<char>| #[trigger]
                    throughput.map().dom().contains(n) <==> exists|m: HttpMethod|
                        #[trigger] m.label() == n && total.requests.of(m) > 0 && total.body(m) > 0
                            && m.position() < i + 1 by {
                    if throughput.map().dom().contains(n) && n == method.label() && amount > 0
                        && total.body(method) > 0 {
                        assert(method.label() == n && total.requests.of(method) > 0);
                    }
                    if exists|m: HttpMethod| #[trigger]
                        m.label() == n && total.requests.of(m) > 0 && total.body(m) > 0
                            && m.position() < i + 1 {
                        let m = choose|m: HttpMethod| #[trigger]
                            m.label() == n && total.requests.of(m) > 0 && total.body(m) > 0
                                && m.position() < i + 1;
                        if m.position() == i {
                            assert(m.row() == method.row());
                        } else {
                            assert(before_bytes.dom().contains(n));
                        }
                    }
                }
            }
            i += 1;
        }
        proof {
            assert forall|n: Seq<char>| #[trigger]
                requests.map().dom().contains(n) <==> requested(total, n) by {
                if requested(total, n) {
                    let m = choose|m: HttpMethod| #[trigger]
                        m.label() == n && total.requests.of(m) > 0;
                    assert(m.position() < 6);
                }
            }
            assert forall|n: Seq<char>| #[trigger]
                throughput.map().dom().contains(n) <==> transferred(total, n) by {
                if transferred(total, n) {
                    let m = choose|m: HttpMethod| #[trigger]
                        m.label() == n && total.requests.of(m) > 0 && total.body(m) > 0;
                    assert(m.position() < 6);
                }
            }
        }
        ObjectStoreRates { requests, throughput }
    }
}

/// A value that each window of the host holds.
#[derive(Clone, Copy, PartialEq, Eq, Structural)]
enum Column {
    Elapsed,
    Duration,
    CpuCores,
    Rss,
    CpuPercent,
    NetworkReceived,
    NetworkSent,
    DiskReadBytes,
    DiskWriteBytes,
    DiskReadOperations,
    DiskWriteOperations,
}

spec fn cell(w: ResourceWindow, column: Column) -> u64 {
    match column {
        Column::Elapsed => w.elapsed_ns,
        Column::Duration => w.duration_ns,
        Column::CpuCores => w.process_cpu_cores,
        Column::Rss => w.process_rss_bytes,
        Column::CpuPercent => w.machine_cpu_percent,
        Column::NetworkReceived => w.network_received,
        Column::NetworkSent => w.network_sent,
        Column::DiskReadBytes => w.disk_read_bytes,
        Column::DiskWriteBytes => w.disk_write_bytes,
        Column::DiskReadOperations => w.disk_read_operations,
        Column::DiskWriteOperations => w.disk_write_operations,
    }
}

fn cell_of(w: &ResourceWindow, column: Column) -> (r: u64)
    ensures
        r == cell(*w, column),
{
    match column {
        Column::Elapsed => w.elapsed_ns,
        Column::Duration => w.duration_ns,
        Column::CpuCores => w.process_cpu_cores,
        Column::Rss => w.process_rss_bytes,
        Column::CpuPercent => w.machine_cpu_percent,
        Column::NetworkReceived => w.network_received,
        Column::NetworkSent => w.network_sent,
        Column::DiskReadBytes => w.disk_read_bytes,
        Column::DiskWriteBytes => w.disk_write_bytes,
        Column::DiskReadOperations => w.disk_read_operations,
        Column::DiskWriteOperations => w.disk_write_operations,
    }
}

fn column_of(windows: &Vec<ResourceWindow>, column: Column) -> (r: Vec<u64>)
    ensures
        r@ == windows@.map_values(|w: ResourceWindow| cell(w, column)),
{
    let mut out: Vec<u64> = Vec::new();
    let mut i: usize = 0;
    while i < windows.len()
        invariant
            i <= windows.len(),
            out.len() == i,
            forall|k: int| 0 <= k < i ==> out@[k] == cell(windows@[k], column),
        decreases windows.len() - i,
    {
        out.push(cell_of(&windows[i], column));
        i += 1;
    }
    assert(out@ =~= windows@.map_values(|w: ResourceWindow| cell(w, column)));
    out
}

fn rates_of(windows: &Vec<ResourceWindow>, column: Column) -> (r: Vec<Rate>)
    ensures
        r@ == windows@.map_values(
            |w: ResourceWindow| Rate { amount: cell(w, column), duration_ns: w.duration_ns },
        ),
{
    let mut out: Vec<Rate> = Vec::new();
    let mut i: usize = 0;
    while i < windows.len()
        invariant
            i <= windows.len(),
            out.len() == i,
            forall|k: int|
                0 <= k < i ==> out@[k] == (Rate {
                    amount: cell(windows@[k], column),
                    duration_ns: windows@[k].duration_ns,
                }),
        decreases windows.len() - i,
    {
        out.push(
            Rate { amount: cell_of(&windows[i], column), duration_ns: windows[i].duration_ns },
        );
        i += 1;
    }
    assert(out@ =~= windows@.map_values(
        |w: ResourceWindow| Rate { amount: cell(w, column), duration_ns: w.duration_ns },
    ));
    out
}

impl SampledMeasurement {
    /// Lists the process's loads in each window of the host.
    pub fn process(&self) -> (r: ProcessSeries)
        ensures
            plots_process(r, self@.resources),
    {
        let r = ProcessSeries {
            cpu_cores: column_of(&self.resources, Column::CpuCores),
            rss_bytes: column_of(&self.resources, Column::Rss),
        };
        proof {
            let w = self@.resources;
            assert(r.cpu_cores@ =~= w.map_values(|w: ResourceWindow| w.process_cpu_cores));
            assert(r.rss_bytes@ =~= w.map_values(|w: ResourceWindow| w.process_rss_bytes));
        }
        r
    }

    /// Lists the host's loads and traffic in each window of the host.
    pub fn machine(&self) -> (r: MachineSeries)
        ensures
            plots_machine(r, self@.resources),
    {
        let r = MachineSeries {
            cpu_percent: column_of(&self.resources, Column::CpuPercent),
            rss_bytes: column_of(&self.resources, Column::Rss),
            network_receive_bytes_per_second: rates_of(&self.resources, Column::NetworkReceived),
            network_send_bytes_per_second: rates_of(&self.resources, Column::NetworkSent),
            disk_read_bytes_per_second: rates_of(&self.resources, Column::DiskReadBytes),
            disk_write_bytes_per_second: rates_of(&self.resources, Column::DiskWriteBytes),
            disk_read_operations_per_second: rates_of(&self.resources, Column::DiskReadOperations),
            disk_write_operations_per_second: rates_of(
                &self.resources,
                Column::DiskWriteOperations,
            ),
        };
        proof {
            let w = self@.resources;
            assert(r.cpu_percent@ =~= w.map_values(|w: ResourceWindow| w.machine_cpu_percent));
            assert(r.rss_bytes@ =~= w.map_values(|w: ResourceWindow| w.process_rss_bytes));
            assert(r.network_receive_bytes_per_second@ =~= w.map_values(
                |w: ResourceWindow| Rate { amount: w.network_received, duration_ns: w.duration_ns },
            ));
            assert(r.network_send_bytes_per_second@ =~= w.map_values(
                |w: ResourceWindow| Rate { amount: w.network_sent, duration_ns: w.duration_ns },
            ));
            assert(r.disk_read_bytes_per_second@ =~= w.map_values(
                |w: ResourceWindow| Rate { amount: w.disk_read_bytes, duration_ns: w.duration_ns },
            ));
            assert(r.disk_write_bytes_per_second@ =~= w.map_values(
                |w: ResourceWindow| Rate { amount: w.disk_write_bytes, duration_ns: w.duration_ns },
            ));
            assert(r.disk_read_operations_per_second@ =~= w.map_values(
                |w: ResourceWindow|
                    Rate { amount: w.disk_read_operations, duration_ns: w.duration_ns },
            ));
            assert(r.disk_write_operations_per_second@ =~= w.map_values(
                |w: ResourceWindow|
                    Rate { amount: w.disk_write_operations, duration_ns: w.duration_ns },
            ));
        }
        r
    }

    /// Lists the window rates of each operation.
    fn operation_series(&self) -> (r: (Named<Vec<Rate>>, Named<Vec<Rate>>))
        requires
            self.wf(),
        ensures
            r.0.wf(),
            r.1.wf(),
            plots_operations(r.0.map(), r.1.map(), self@),
    {
        let mut calls: Named<Vec<Rate>> = Named::new();
        let mut bytes: Named<Vec<Rate>> = Named::new();
        let all = &self.application_total.operations;
        let ghost names = all.names();
        let mut i: usize = 0;
        while i < all.len()
            invariant
                self.wf(),
                *all == self.application_total.operations,
                names == all.names(),
                i <= names.len(),
                calls.wf(),
                bytes.wf(),
                forall|n: Seq<char>| #[trigger]
                    calls.map().dom().contains(n) <==> names.contains(n) && names.index_of(n) < i,
                forall|n: Seq<char>| #[trigger]
                    calls.map().dom().contains(n) ==> calls.map()[n]@ == call_rates(
                        self@.rates,
                        n,
                    ),
                forall|n: Seq<char>| #[trigger]
                    bytes.map().dom().contains(n) <==> names.contains(n) && names.index_of(n) < i
                        && self@.total.operations[n].logical_bytes > 0,
                forall|n: Seq<char>| #[trigger]
                    bytes.map().dom().contains(n) ==> bytes.map()[n]@ == byte_rates(self@.rates, n),
            decreases names.len() - i,
        {
            proof {
                named::position_is_unique(names, i as int);
                all.entry(i as int);
            }
            let name = all.name_at(i);
            calls.put(name.clone(), self.call_column(name.as_str()));
            if all.value_at(i).logical_bytes > 0 {
                bytes.put(name.clone(), self.byte_column(name.as_str()));
            }
            i += 1;
        }
        (calls, bytes)
    }

    /// Lists the window rates of each method that was used.
    fn request_series(&self) -> (r: (Named<Vec<Rate>>, Named<Vec<Rate>>))
        ensures
            r.0.wf(),
            r.1.wf(),
            plots_requests(r.0.map(), r.1.map(), self.store_total(), self@.stores),
    {
        let rates = self.object_store();
        let mut requests: Named<Vec<Rate>> = Named::new();
        let mut bytes: Named<Vec<Rate>> = Named::new();
        let ghost total = self.store_total();
        let ghost names = rates.requests.names();
        let mut i: usize = 0;
        while i < rates.requests.len()
            invariant
                rates.requests.wf(),
                names == rates.requests.names(),
                i <= names.len(),
                requests.wf(),
                forall|n: Seq<char>| #[trigger]
                    requests.map().dom().contains(n) <==> names.contains(n) && names.index_of(n)
                        < i,
                forall|n: Seq<char>| #[trigger]
                    requests.map().dom().contains(n) ==> requests.map()[n]@
                        == rates.requests.map()[n].windows@,
            decreases names.len() - i,
        {
            proof {
                named::position_is_unique(names, i as int);
                rates.requests.entry(i as int);
            }
            let windows = copied(&rates.requests.value_at(i).windows);
            requests.put(rates.requests.name_at(i).clone(), windows);
            i += 1;
        }
        let ghost names = rates.throughput.names();
        let mut i: usize = 0;
        while i < rates.throughput.len()
            invariant
                rates.throughput.wf(),
                names == rates.throughput.names(),
                i <= names.len(),
                bytes.wf(),
                forall|n: Seq<char>| #[trigger]
                    bytes.map().dom().contains(n) <==> names.contains(n) && names.index_of(n) < i,
                forall|n: Seq<char>| #[trigger]
                    bytes.map().dom().contains(n) ==> bytes.map()[n]@
                        == rates.throughput.map()[n].windows@,
            decreases names.len() - i,
        {
            proof {
                named::position_is_unique(names, i as int);
                rates.throughput.entry(i as int);
            }
            let windows = copied(&rates.throughput.value_at(i).windows);
            bytes.put(rates.throughput.name_at(i).clone(), windows);
            i += 1;
        }
        proof {
            assert forall|n: Seq<char>| #[trigger]
                requests.map().dom().contains(n) <==> requested(total, n) by {
                assert(rates.requests.map().dom().contains(n) <==> requested(total, n));
            }
            assert forall|n: Seq<char>| #[trigger]
                bytes.map().dom().contains(n) <==> transferred(total, n) by {
                assert(rates.throughput.map().dom().contains(n) <==> transferred(total, n));
            }
            assert forall|m: HttpMethod| requests.map().dom().contains(
                #[trigger] m.label(),
            ) implies requests.map()[m.label()]@ == request_rates(self@.stores, m) by {
                assert(rates.requests.map().dom().contains(m.label()));
            }
            assert forall|m: HttpMethod| bytes.map().dom().contains(
                #[trigger] m.label(),
            ) implies bytes.map()[m.label()]@ == body_rates(self@.stores, m) by {
                assert(rates.throughput.map().dom().contains(m.label()));
            }
        }
        (requests, bytes)
    }

    /// Lists the latency digest of a name in each latency window.
    fn latency_column(&self, name: &str) -> (r: LatencyTimeSeries)
        requires
            self.wf(),
            self.within_range(),
        ensures
            plots_latency(r, name@, self@.latencies),
    {
        let mut windows: Vec<Option<LatencyDigest>> = Vec::new();
        let mut i: usize = 0;
        while i < self.latency_windows.len()
            invariant
                self.wf(),
                self.within_range(),
                i <= self.latency_windows.len(),
                windows.len() == i,
                forall|k: int|
                    0 <= k < i ==> (match #[trigger] windows@[k] {
                        Some(d) => self@.latencies[k].histograms.dom().contains(name@)
                            && self@.latencies[k].histograms[name@].total > 0 && histogram::digests(
                            d,
                            self@.latencies[k].histograms[name@],
                        ),
                        None => histogram::recorded_as(self@.latencies[k].histograms, name@).total
                            == 0,
                    }),
            decreases self.latency_windows.len() - i,
        {
            proof {
                assert(self@.latencies[i as int].histograms
                    == self.latency_windows@[i as int].histograms@);
            }
            windows.push(self.latency_windows[i].histograms.summary(name));
            i += 1;
        }
        LatencyTimeSeries { windows }
    }

    /// Lists the latency digests of each operation in each latency window.
    fn latency_series(&self) -> (r: Named<LatencyTimeSeries>)
        requires
            self.wf(),
            self.within_range(),
        ensures
            r.wf(),
            forall|n: Seq<char>| #[trigger]
                r.map().dom().contains(n) <==> self@.total.histograms.dom().contains(
                    "api/"@ + n,
                ),
            forall|n: Seq<char>| #[trigger]
                r.map().dom().contains(n) ==> plots_latency(
                    r.map()[n],
                    "api/"@ + n,
                    self@.latencies,
                ),
    {
        let summaries = self.application_total.histograms.summaries_with_prefix("api/");
        let mut out: Named<LatencyTimeSeries> = Named::new();
        let ghost names = summaries.names();
        let mut i: usize = 0;
        while i < summaries.len()
            invariant
                self.wf(),
                self.within_range(),
                summaries.wf(),
                names == summaries.names(),
                i <= names.len(),
                out.wf(),
                forall|n: Seq<char>| #[trigger]
                    out.map().dom().contains(n) <==> names.contains(n) && names.index_of(n) < i,
                forall|n: Seq<char>| #[trigger]
                    out.map().dom().contains(n) ==> plots_latency(
                        out.map()[n],
                        "api/"@ + n,
                        self@.latencies,
                    ),
            decreases names.len() - i,
        {
            proof {
                named::position_is_unique(names, i as int);
            }
            let name = summaries.name_at(i);
            let full = "api/".to_string().concat(name.as_str());
            out.put(name.clone(), self.latency_column(full.as_str()));
            i += 1;
        }
        proof {
            assert forall|n: Seq<char>| #[trigger]
                out.map().dom().contains(n) <==> self@.total.histograms.dom().contains(
                    "api/"@ + n,
                ) by {
                assert(summaries.map().dom().contains(n) <==> names.contains(n));
                assert(self@.total.histograms.dom().contains("api/"@ + n)
                    == self.application_total.histograms@.dom().contains("api/"@ + n));
            }
        }
        out
    }

    /// Lists everything that was measured, window by window.
    ///
    /// Operations and methods have one value for each rate window, latencies one for each latency
    /// window, and resources one for each window of the host.
    pub fn series(&self) -> (r: WorkloadSeries)
        requires
            self.wf(),
            self.within_range(),
        ensures
            r.application.wf(),
            r.object_store.wf(),
            plots(r, self@, self.store_total()),
            self@.rates.len() == self@.stores.len(),
    {
        let mut rate_elapsed_ns: Vec<u64> = Vec::new();
        let mut rate_duration_ns: Vec<u64> = Vec::new();
        let mut i: usize = 0;
        while i < self.application_windows.len()
            invariant
                i <= self.application_windows.len(),
                rate_elapsed_ns.len() == i,
                rate_duration_ns.len() == i,
                forall|k: int|
                    0 <= k < i ==> rate_elapsed_ns@[k] == self.application_windows@[k].elapsed_ns
                        && rate_duration_ns@[k] == self.application_windows@[k].duration_ns,
            decreases self.application_windows.len() - i,
        {
            rate_elapsed_ns.push(self.application_windows[i].elapsed_ns);
            rate_duration_ns.push(self.application_windows[i].duration_ns);
            i += 1;
        }
        let mut latency_elapsed_ns: Vec<u64> = Vec::new();
        let mut latency_duration_ns: Vec<u64> = Vec::new();
        let mut i: usize = 0;
        while i < self.latency_windows.len()
            invariant
                i <= self.latency_windows.len(),
                latency_elapsed_ns.len() == i,
                latency_duration_ns.len() == i,
                forall|k: int|
                    0 <= k < i ==> latency_elapsed_ns@[k] == self.latency_windows@[k].elapsed_ns
                        && latency_duration_ns@[k] == self.latency_windows@[k].duration_ns,
            decreases self.latency_windows.len() - i,
        {
            latency_elapsed_ns.push(self.latency_windows[i].elapsed_ns);
            latency_duration_ns.push(self.latency_windows[i].duration_ns);
            i += 1;
        }
        let resource_elapsed_ns = column_of(&self.resources, Column::Elapsed);
        let resource_duration_ns = column_of(&self.resources, Column::Duration);
        proof {
            assert(rate_elapsed_ns@ =~= self@.rates.map_values(|w: RateView| w.elapsed_ns));
            assert(rate_duration_ns@ =~= self@.rates.map_values(|w: RateView| w.duration_ns));
            assert(latency_elapsed_ns@ =~= self@.latencies.map_values(
                |w: LatencyView| w.elapsed_ns,
            ));
            assert(latency_duration_ns@ =~= self@.latencies.map_values(
                |w: LatencyView| w.duration_ns,
            ));
            assert(resource_elapsed_ns@ =~= self@.resources.map_values(
                |w: ResourceWindow| w.elapsed_ns,
            ));
            assert(resource_duration_ns@ =~= self@.resources.map_values(
                |w: ResourceWindow| w.duration_ns,
            ));
        }
        let (operations_per_second, application_bytes) = self.operation_series();
        let (requests_per_second, store_bytes) = self.request_series();
        WorkloadSeries {
            rate_elapsed_ns,
            rate_duration_ns,
            latency_elapsed_ns,
            latency_duration_ns,
            resource_elapsed_ns,
            resource_duration_ns,
            application: ApplicationSeries {
                operations_per_second,
                bytes_per_second: application_bytes,
                latency_ns: self.latency_series(),
                latency_histograms: self.application_total.histograms.series_with_prefix("api/"),
            },
            object_store: ObjectStoreSeries { requests_per_second, bytes_per_second: store_bytes },
            process: self.process(),
            machine: self.machine(),
        }
    }
}

/// Copies a list of rates.
fn copied(rates: &Vec<Rate>) -> (r: Vec<Rate>)
    ensures
        r@ == rates@,
{
    let mut out: Vec<Rate> = Vec::new();
    let mut i: usize = 0;
    while i < rates.len()
        invariant
            i <= rates.len(),
            out@ == rates@.take(i as int),
        decreases rates.len() - i,
    {
        out.push(rates[i]);
        assert(rates@.take(i + 1) =~= rates@.take(i as int).push(rates@[i as int]));
        i += 1;
    }
    assert(out@ =~= rates@);
    out
}

/// The position of a quantile, in thousandths, among `len` sorted values: the nearest position,
/// the later one where two are equally near.
pub open spec fn quantile_position(len: int, permille: int) -> int {
    (permille * (len - 1) + 500) / 1000
}

/// The values that are finite, in order.
pub open spec fn finite_part(values: Seq<u64>) -> Seq<u64>
    decreases values.len(),
{
    if values.len() == 0 {
        Seq::empty()
    } else if bits::is_finite(values.last()) {
        finite_part(values.drop_last()).push(values.last())
    } else {
        finite_part(values.drop_last())
    }
}

/// Selects the values that are finite.
pub fn finite_values(values: &Vec<u64>) -> (r: Vec<u64>)
    ensures
        r@ == finite_part(values@),
{
    let mut out: Vec<u64> = Vec::new();
    let mut i: usize = 0;
    proof {
        assert(values@.take(0) =~= Seq::<u64>::empty());
    }
    while i < values.len()
        invariant
            i <= values.len(),
            out@ == finite_part(values@.take(i as int)),
        decreases values.len() - i,
    {
        proof {
            assert(values@.take(i + 1).drop_last() =~= values@.take(i as int));
        }
        if bits::finite(values[i]) {
            out.push(values[i]);
        }
        i += 1;
    }
    proof {
        assert(values@.take(i as int) =~= values@);
    }
    out
}

/// Whether a summary describes values that are sorted, with a given mean.
pub open spec fn describes_sorted(d: DistributionSummary, sorted: Seq<u64>, mean: u64) -> bool {
    if sorted.len() == 0 {
        d == DistributionSummary::zero()
    } else {
        d == (DistributionSummary {
            avg: mean,
            p50: sorted[quantile_position(sorted.len() as int, 500)],
            p95: sorted[quantile_position(sorted.len() as int, 950)],
            p99: sorted[quantile_position(sorted.len() as int, 990)],
            p999: sorted[quantile_position(sorted.len() as int, 999)],
            min: sorted[0],
            max: sorted[sorted.len() - 1],
        })
    }
}

/// Whether a summary describes values, with a given mean of those that are finite.
pub open spec fn summarizes(d: DistributionSummary, values: Seq<u64>, mean: u64) -> bool {
    exists|sorted: Seq<u64>|
        bits::is_sorted(sorted) && sorted.to_multiset() == finite_part(values).to_multiset()
            && describes_sorted(d, sorted, mean)
}

/// Quantile positions are within the values and rise with the quantile.
proof fn quantile_positions_rise(len: int, a: int, b: int)
    requires
        len > 0,
        0 <= a <= b <= 1000,
    ensures
        0 <= quantile_position(len, a) <= quantile_position(len, b) <= len - 1,
{
    assert(0 <= a * (len - 1) <= b * (len - 1) <= 1000 * (len - 1)) by (nonlinear_arith)
        requires
            len > 0,
            0 <= a <= b <= 1000,
    ;
}

/// A quantile is taken at the position that is nearest to its share of the way from the first value
/// to the last, and at the later one of two that are equally near.
pub proof fn quantiles_are_nearest(len: int, permille: int)
    requires
        len > 0,
        0 <= permille <= 1000,
    ensures
        0 <= quantile_position(len, permille) < len,
        -500 < 1000 * quantile_position(len, permille) - permille * (len - 1) <= 500,
{
    quantile_positions_rise(len, permille, permille);
}

/// Computes the position of a quantile among `len` sorted values.
fn quantile_index(len: usize, permille: usize) -> (r: usize)
    requires
        len > 0,
        permille <= 1000,
    ensures
        r == quantile_position(len as int, permille as int),
        r < len,
        -500 < 1000 * r - permille * (len - 1) <= 500,
{
    proof {
        quantile_positions_rise(len as int, permille as int, permille as int);
        assert(permille * (len - 1) + 500 <= 1000 * u64::MAX) by (nonlinear_arith)
            requires
                0 < len <= u64::MAX,
                0 <= permille <= 1000,
        ;
        assert(permille * (len - 1) >= 0) by (nonlinear_arith)
            requires
                0 < len,
                0 <= permille,
        ;
    }
    let product: u128 = permille as u128 * (len - 1) as u128;
    ((product + 500) / 1000) as usize
}

/// Summarizes values, given the mean of those that are finite.
///
/// Values that are not finite are left out; without any finite value the summary is all zero.
pub fn summarize_values(values: &Vec<u64>, mean: u64) -> (r: DistributionSummary)
    ensures
        summarizes(r, values@, mean),
{
    let finite = finite_values(values);
    let sorted = bits::sorted(&finite);
    if sorted.len() == 0 {
        let r = DistributionSummary { avg: 0, p50: 0, p95: 0, p99: 0, p999: 0, min: 0, max: 0 };
        assert(describes_sorted(r, sorted@, mean));
        return r;
    }
    let r = DistributionSummary {
        avg: mean,
        p50: sorted[quantile_index(sorted.len(), 500)],
        p95: sorted[quantile_index(sorted.len(), 950)],
        p99: sorted[quantile_index(sorted.len(), 990)],
        p999: sorted[quantile_index(sorted.len(), 999)],
        min: sorted[0],
        max: sorted[sorted.len() - 1],
    };
    assert(describes_sorted(r, sorted@, mean));
    r
}

/// Summarizes rate windows, given the rate over the whole interval.
pub fn rate_summary(total: u64, average: u64, windows: &Vec<u64>, mean: u64) -> (r: RateSummary)
    ensures
        r.total == total,
        r.avg_per_second == average,
        summarizes(
            (DistributionSummary {
                avg: if finite_part(windows@).len() == 0 {
                    0
                } else {
                    mean
                },
                p50: r.p50_per_second,
                p95: r.p95_per_second,
                p99: r.p99_per_second,
                p999: r.p999_per_second,
                min: r.min_per_second,
                max: r.max_per_second,
            }),
            windows@,
            mean,
        ),
{
    let distribution = summarize_values(windows, mean);
    proof {
        empty_or_mean(distribution, windows@, mean);
    }
    RateSummary {
        total,
        avg_per_second: average,
        p50_per_second: distribution.p50,
        p95_per_second: distribution.p95,
        p99_per_second: distribution.p99,
        p999_per_second: distribution.p999,
        min_per_second: distribution.min,
        max_per_second: distribution.max,
    }
}

/// Summarizes byte windows, given the throughput over the whole interval.
pub fn throughput_summary(total_bytes: u64, average: u64, windows: &Vec<u64>, mean: u64) -> (r:
    ThroughputSummary)
    ensures
        r.total_bytes == total_bytes,
        r.avg_bytes_per_second == average,
        summarizes(
            (DistributionSummary {
                avg: if finite_part(windows@).len() == 0 {
                    0
                } else {
                    mean
                },
                p50: r.p50_bytes_per_second,
                p95: r.p95_bytes_per_second,
                p99: r.p99_bytes_per_second,
                p999: r.p999_bytes_per_second,
                min: r.min_bytes_per_second,
                max: r.max_bytes_per_second,
            }),
            windows@,
            mean,
        ),
{
    let distribution = summarize_values(windows, mean);
    proof {
        empty_or_mean(distribution, windows@, mean);
    }
    ThroughputSummary {
        total_bytes,
        avg_bytes_per_second: average,
        p50_bytes_per_second: distribution.p50,
        p95_bytes_per_second: distribution.p95,
        p99_bytes_per_second: distribution.p99,
        p999_bytes_per_second: distribution.p999,
        min_bytes_per_second: distribution.min,
        max_bytes_per_second: distribution.max,
    }
}

proof fn empty_or_mean(d: DistributionSummary, values: Seq<u64>, mean: u64)
    requires
        summarizes(d, values, mean),
    ensures
        d.avg == (if finite_part(values).len() == 0 {
            0
        } else {
            mean
        }),
{
    broadcast use vstd::seq_lib::group_to_multiset_ensures;

    let sorted = choose|sorted: Seq<u64>|
        bits::is_sorted(sorted) && sorted.to_multiset() == finite_part(values).to_multiset()
            && describes_sorted(d, sorted, mean);
    assert(sorted.len() == sorted.to_multiset().len());
    assert(finite_part(values).len() == finite_part(values).to_multiset().len());
}

/// Whether a distribution rises from its minimum to its maximum and holds no negative or
/// infinite value.
pub open spec fn distribution_rises(d: DistributionSummary) -> bool {
    &&& bits::is_plain(d.min) && bits::is_plain(d.p50) && bits::is_plain(d.p95)
    &&& bits::is_plain(d.p99) && bits::is_plain(d.p999) && bits::is_plain(d.max)
    &&& bits::at_most(d.min, d.p50) && bits::at_most(d.p50, d.p95) && bits::at_most(d.p95, d.p99)
    &&& bits::at_most(d.p99, d.p999) && bits::at_most(d.p999, d.max)
}

proof fn finite_part_is_selected(values: Seq<u64>, v: u64)
    requires
        finite_part(values).contains(v),
    ensures
        values.contains(v),
        bits::is_finite(v),
    decreases values.len(),
{
    if values.len() > 0 {
        let rest = finite_part(values.drop_last());
        let all = finite_part(values);
        let i = choose|i: int| 0 <= i < all.len() && all[i] == v;
        if bits::is_finite(values.last()) && i == all.len() - 1 {
            assert(values[values.len() - 1] == v);
        } else {
            assert(rest[i] == v);
            finite_part_is_selected(values.drop_last(), v);
            let k = choose|k: int| 0 <= k < values.drop_last().len() && values.drop_last()[k] == v;
            assert(values[k] == v);
        }
    }
}

proof fn finite_part_is_counted(values: Seq<u64>, v: u64)
    ensures
        finite_part(values).to_multiset().count(v) == (if bits::is_finite(v) {
            values.to_multiset().count(v)
        } else {
            0
        }),
    decreases values.len(),
{
    broadcast use vstd::seq_lib::group_to_multiset_ensures;

    if values.len() > 0 {
        let rest = values.drop_last();
        finite_part_is_counted(rest, v);
        assert(values =~= rest.push(values.last()));
        vstd::seq_lib::to_multiset_build(rest, values.last());
        vstd::seq_lib::to_multiset_build(finite_part(rest), values.last());
    }
}

/// A summary takes its percentiles out of the finite values, put in order: each percentile has its
/// share of them before it.
pub proof fn summaries_hold_their_percentiles(
    d: DistributionSummary,
    values: Seq<u64>,
    mean: u64,
) -> (
    r: (Seq<u64>, int, int, int, int))
    requires
        summarizes(d, values, mean),
        exists|i: int| 0 <= i < values.len() && bits::is_finite(#[trigger] values[i]),
    ensures
        ({
            let sorted = r.0;
            let len = sorted.len();
            &&& forall|i: int, j: int|
                0 <= i < j < len ==> bits::at_most(#[trigger] sorted[i], #[trigger] sorted[j])
            &&& forall|v: u64| #[trigger]
                sorted.to_multiset().count(v) == (if bits::is_finite(v) {
                    values.to_multiset().count(v)
                } else {
                    0
                })
            &&& 0 <= r.1 < len && -500 < 1000 * r.1 - 500 * (len - 1) <= 500 && d.p50 == sorted[r.1]
            &&& 0 <= r.2 < len && -500 < 1000 * r.2 - 950 * (len - 1) <= 500 && d.p95 == sorted[r.2]
            &&& 0 <= r.3 < len && -500 < 1000 * r.3 - 990 * (len - 1) <= 500 && d.p99 == sorted[r.3]
            &&& 0 <= r.4 < len && -500 < 1000 * r.4 - 999 * (len - 1) <= 500 && d.p999
                == sorted[r.4]
            &&& d.min == sorted[0]
            &&& d.max == sorted[len - 1]
            &&& d.avg == mean
        }),
{
    broadcast use vstd::seq_lib::group_to_multiset_ensures;

    let sorted = choose|sorted: Seq<u64>|
        bits::is_sorted(sorted) && sorted.to_multiset() == finite_part(values).to_multiset()
            && describes_sorted(d, sorted, mean);
    let len = sorted.len() as int;
    assert forall|v: u64| #[trigger]
        sorted.to_multiset().count(v) == (if bits::is_finite(v) {
            values.to_multiset().count(v)
        } else {
            0
        }) by {
        finite_part_is_counted(values, v);
    }
    let k = choose|k: int| 0 <= k < values.len() && bits::is_finite(#[trigger] values[k]);
    assert(values.contains(values[k]));
    assert(sorted.to_multiset().count(values[k]) > 0);
    assert(sorted.contains(values[k]));
    assert forall|i: int| 0 <= i < len implies bits::is_finite(#[trigger] sorted[i]) by {
        assert(sorted.contains(sorted[i]));
        assert(sorted.to_multiset().count(sorted[i]) > 0);
    }
    assert forall|i: int, j: int| 0 <= i < j < len implies bits::at_most(
        #[trigger] sorted[i],
        #[trigger] sorted[j],
    ) by {
        sorted_is_increasing(sorted, i, j);
    }
    quantiles_are_nearest(len, 500);
    quantiles_are_nearest(len, 950);
    quantiles_are_nearest(len, 990);
    quantiles_are_nearest(len, 999);
    (
        sorted,
        quantile_position(len, 500),
        quantile_position(len, 950),
        quantile_position(len, 990),
        quantile_position(len, 999),
    )
}

/// A summary of values that are not negative rises from its minimum to its maximum.
pub proof fn summaries_rise(d: DistributionSummary, values: Seq<u64>, mean: u64)
    requires
        summarizes(d, values, mean),
        forall|i: int|
            0 <= i < values.len() && bits::is_finite(#[trigger] values[i]) ==> bits::is_plain(
                values[i],
            ),
    ensures
        distribution_rises(d),
{
    broadcast use vstd::seq_lib::group_to_multiset_ensures;

    let sorted = choose|sorted: Seq<u64>|
        bits::is_sorted(sorted) && sorted.to_multiset() == finite_part(values).to_multiset()
            && describes_sorted(d, sorted, mean);
    if sorted.len() > 0 {
        let len = sorted.len() as int;
        assert forall|i: int| 0 <= i < len implies bits::is_plain(#[trigger] sorted[i]) by {
            assert(sorted.contains(sorted[i]));
            assert(sorted.to_multiset().count(sorted[i]) > 0);
            assert(finite_part(values).contains(sorted[i]));
            finite_part_is_selected(values, sorted[i]);
            let k = choose|k: int| 0 <= k < values.len() && values[k] == sorted[i];
            assert(bits::is_finite(values[k]));
        }
        quantile_positions_rise(len, 0, 500);
        quantile_positions_rise(len, 500, 950);
        quantile_positions_rise(len, 950, 990);
        quantile_positions_rise(len, 990, 999);
        quantile_positions_rise(len, 999, 1000);
        sorted_is_increasing(sorted, 0, quantile_position(len, 500));
        sorted_is_increasing(sorted, quantile_position(len, 500), quantile_position(len, 950));
        sorted_is_increasing(sorted, quantile_position(len, 950), quantile_position(len, 990));
        sorted_is_increasing(sorted, quantile_position(len, 990), quantile_position(len, 999));
        sorted_is_increasing(sorted, quantile_position(len, 999), len - 1);
    }
}

proof fn sorted_is_increasing(sorted: Seq<u64>, i: int, j: int)
    requires
        bits::is_sorted(sorted),
        0 <= i <= j < sorted.len(),
        bits::is_finite(sorted[i]),
        bits::is_finite(sorted[j]),
    ensures
        bits::at_most(sorted[i], sorted[j]),
{
    if i < j {
        assert(bits::sort_rank(sorted[i]) <= bits::sort_rank(sorted[j]));
    }
}

/// A wait counts from its start to its end, and waits add up.
pub proof fn waits_add_up(m: BackpressureMeasurement, started: u64, now: u64)
    requires
        started <= now,
        m.elapsed_ns + (now - started) <= u64::MAX,
    ensures
        m.started == Some(started) ==> m.settled(now).elapsed_ns == m.elapsed_ns + (now - started)
            && m.settled(now).started is None,
        m.started is None ==> m.settled(now) == m,
{
}

/// A call adds one to the calls of its operation, its bytes to the bytes, one to the errors where
/// it failed, and one observation to the latencies of the operation; other operations stay as they
/// are.
pub proof fn calls_are_counted_once(
    a: Activity,
    api: Seq<char>,
    latency_ns: u64,
    bytes: u64,
    error: bool,
    other: Seq<char>,
)
    requires
        calls_under(a.operations, api).calls < u64::MAX,
        calls_under(a.operations, api).logical_bytes + bytes <= u64::MAX,
        calls_under(a.operations, api).errors < u64::MAX,
        histogram::recorded_as(a.histograms, "api/"@ + api).total < u64::MAX,
        other != api,
    ensures
        ({
            let after = a.with_call(api, latency_ns, bytes, error);
            let counted = calls_under(after.operations, api);
            let before = calls_under(a.operations, api);
            &&& counted.calls == before.calls + 1
            &&& counted.logical_bytes == before.logical_bytes + bytes
            &&& counted.errors == before.errors + (if error {
                1int
            } else {
                0int
            })
            &&& calls_under(after.operations, other) == calls_under(a.operations, other)
            &&& histogram::recorded_as(after.histograms, "api/"@ + api).total
                == histogram::recorded_as(a.histograms, "api/"@ + api).total + 1
            &&& after.histograms == histogram::with_observation(
                a.histograms,
                "api/"@ + api,
                latency_ns,
            )
        }),
{
}

/// A latency that is no call adds one observation under its name, and no call.
pub proof fn latencies_are_no_calls(a: Activity, api: Seq<char>, latency_ns: u64)
    ensures
        a.with_latency(api, latency_ns).operations == a.operations,
        a.with_latency(api, latency_ns).histograms == histogram::with_observation(
            a.histograms,
            "api/"@ + api,
            latency_ns,
        ),
{
}

/// Merged activity has the calls, bytes and errors of both, operation by operation.
pub proof fn merged_activity_holds_both(a: Activity, b: Activity, api: Seq<char>)
    requires
        calls_under(a.operations, api).calls + calls_under(b.operations, api).calls <= u64::MAX,
        calls_under(a.operations, api).logical_bytes + calls_under(b.operations, api).logical_bytes
            <= u64::MAX,
        calls_under(a.operations, api).errors + calls_under(b.operations, api).errors <= u64::MAX,
    ensures
        ({
            let both = calls_under(a.merged(b).operations, api);
            let x = calls_under(a.operations, api);
            let y = calls_under(b.operations, api);
            &&& both.calls == x.calls + y.calls
            &&& both.logical_bytes == x.logical_bytes + y.logical_bytes
            &&& both.errors == x.errors + y.errors
            &&& a.merged(b).operations.dom().contains(api) <==> a.operations.dom().contains(api)
                || b.operations.dom().contains(api)
            &&& a.merged(b).histograms == histogram::merged_sets(a.histograms, b.histograms)
        }),
{
}

/// A drain takes the calls of every shard.
pub proof fn drains_take_every_shard(shards: Seq<Activity>, k: int, i: int, api: Seq<char>)
    requires
        0 <= i < k <= shards.len(),
    ensures
        calls_under(merged_activity(shards, k).operations, api).calls >= calls_under(
            shards[i].operations,
            api,
        ).calls,
        calls_under(merged_activity(shards, k).operations, api).errors >= calls_under(
            shards[i].operations,
            api,
        ).errors,
        shards[i].operations.dom().contains(api) ==> merged_activity(
            shards,
            k,
        ).operations.dom().contains(api),
    decreases k,
{
    if i < k - 1 {
        drains_take_every_shard(shards, k - 1, i, api);
    }
    merging_counts_all_calls(merged_activity(shards, k - 1), shards[k - 1], api);
}

/// A window of the host has its loads at the end, and the growth of each counter.
pub proof fn host_windows_hold_the_growth(
    start: HostSnapshot,
    end: HostSnapshot,
    elapsed_ns: u64,
    duration_ns: u64,
)
    requires
        start.network_received <= end.network_received,
        start.network_sent <= end.network_sent,
        start.disk_read_bytes <= end.disk_read_bytes,
        start.disk_write_bytes <= end.disk_write_bytes,
        start.disk_read_operations <= end.disk_read_operations,
        start.disk_write_operations <= end.disk_write_operations,
    ensures
        ({
            let w = end.since(start, elapsed_ns, duration_ns);
            &&& w.elapsed_ns == elapsed_ns
            &&& w.duration_ns == duration_ns
            &&& w.process_cpu_cores == end.process_cpu_cores
            &&& w.process_rss_bytes == end.process_rss_bytes
            &&& w.machine_cpu_percent == end.machine_cpu_percent
            &&& w.network_received + start.network_received == end.network_received
            &&& w.network_sent + start.network_sent == end.network_sent
            &&& w.disk_read_bytes + start.disk_read_bytes == end.disk_read_bytes
            &&& w.disk_write_bytes + start.disk_write_bytes == end.disk_write_bytes
            &&& w.disk_read_operations + start.disk_read_operations == end.disk_read_operations
            &&& w.disk_write_operations + start.disk_write_operations == end.disk_write_operations
        }),
{
}

/// A sample adds one latency window, adds the activity to the total, and adds a rate window of the
/// application and of the store exactly while rates are captured; what was there stays.
pub proof fn samples_add_their_windows(
    m: MeasurementView,
    elapsed_ns: u64,
    duration_ns: u64,
    activity: Activity,
    growth: StoreSnapshot,
    rated: bool,
)
    ensures
        ({
            let n = m.with_window(elapsed_ns, duration_ns, activity, growth, rated);
            &&& n.total == m.total.merged(activity)
            &&& n.latencies.len() == m.latencies.len() + 1
            &&& n.latencies.drop_last() == m.latencies
            &&& n.latencies.last() == (LatencyView {
                elapsed_ns,
                duration_ns,
                histograms: activity.histograms,
            })
            &&& !rated ==> n.rates == m.rates && n.stores == m.stores
            &&& rated ==> {
                &&& n.rates.len() == m.rates.len() + 1
                &&& n.rates.drop_last() == m.rates
                &&& n.rates.last() == (RateView {
                    elapsed_ns,
                    duration_ns,
                    operations: activity.operations,
                })
                &&& n.stores.len() == m.stores.len() + 1
                &&& n.stores.drop_last() == m.stores
                &&& n.stores.last() == (StoreWindow { duration_ns, delta: growth })
            }
            &&& n.resources == m.resources
            &&& n.store_start == m.store_start
        }),
{
    let n = m.with_window(elapsed_ns, duration_ns, activity, growth, rated);
    assert(n.latencies.drop_last() =~= m.latencies);
    if rated {
        assert(n.rates.drop_last() =~= m.rates);
        assert(n.stores.drop_last() =~= m.stores);
    }
}

/// The rate of an operation or a method in a window is what was counted there over the window's
/// length, and zero where nothing was counted.
pub proof fn rates_are_those_of_their_windows(
    windows: Seq<RateView>,
    stores: Seq<StoreWindow>,
    name: Seq<char>,
    method: HttpMethod,
    i: int,
)
    ensures
        call_rates(windows, name).len() == windows.len(),
        byte_rates(windows, name).len() == windows.len(),
        request_rates(stores, method).len() == stores.len(),
        body_rates(stores, method).len() == stores.len(),
        0 <= i < windows.len() ==> {
            &&& call_rates(windows, name)[i].duration_ns == windows[i].duration_ns
            &&& byte_rates(windows, name)[i].duration_ns == windows[i].duration_ns
            &&& windows[i].operations.dom().contains(name) ==> call_rates(windows, name)[i].amount
                == windows[i].operations[name].calls && byte_rates(windows, name)[i].amount
                == windows[i].operations[name].logical_bytes
            &&& !windows[i].operations.dom().contains(name) ==> call_rates(windows, name)[i].amount
                == 0 && byte_rates(windows, name)[i].amount == 0
        },
        0 <= i < stores.len() ==> {
            &&& request_rates(stores, method)[i].duration_ns == stores[i].duration_ns
            &&& body_rates(stores, method)[i].duration_ns == stores[i].duration_ns
            &&& request_rates(stores, method)[i].amount == stores[i].delta.requests.of(method)
            &&& stores[i].delta.request_bytes.of(method) + stores[i].delta.response_bytes.of(method)
                <= u64::MAX ==> body_rates(stores, method)[i].amount
                == stores[i].delta.request_bytes.of(method) + stores[i].delta.response_bytes.of(
                method,
            )
        },
{
}

/// Failed calls are counted for every operation: the sum covers each of them, and grows with each.
pub proof fn every_failed_call_is_summed(operations: Seq<OperationDelta>, i: int, errors: u64)
    requires
        0 <= i < operations.len(),
    ensures
        ({
            let len = operations.len() as int;
            let changed = operations.update(i, OperationDelta { errors, ..operations[i] });
            error_sum(changed, len) + operations[i].errors == error_sum(operations, len) + errors
        }),
{
    error_sum_shifts(operations, i, errors, operations.len() as int);
}

proof fn error_sum_shifts(operations: Seq<OperationDelta>, i: int, errors: u64, k: int)
    requires
        0 <= i < operations.len(),
        0 <= k <= operations.len(),
    ensures
        ({
            let changed = operations.update(i, OperationDelta { errors, ..operations[i] });
            if i < k {
                error_sum(changed, k) + operations[i].errors == error_sum(operations, k) + errors
            } else {
                error_sum(changed, k) == error_sum(operations, k)
            }
        }),
    decreases k,
{
    if k > 0 {
        error_sum_shifts(operations, i, errors, k - 1);
    }
}

/// A summary of a measurement gives each operation's calls and bytes over the whole time, with what
/// each window counted; an operation without bytes has no throughput.
pub proof fn operation_summaries_cover_the_measurement(
    operations: Map<Seq<char>, RateTotals>,
    throughput: Map<Seq<char>, RateTotals>,
    m: MeasurementView,
    elapsed_ns: u64,
    name: Seq<char>,
    i: int,
)
    requires
        summarizes_operations(operations, throughput, m, elapsed_ns),
        m.total.operations.dom().contains(name),
        0 <= i < m.rates.len(),
    ensures
        operations.dom().contains(name),
        operations[name].overall.amount == m.total.operations[name].calls,
        operations[name].overall.duration_ns == elapsed_ns,
        operations[name].windows@.len() == m.rates.len(),
        operations[name].windows@[i].duration_ns == m.rates[i].duration_ns,
        m.rates[i].operations.dom().contains(name) ==> operations[name].windows@[i].amount
            == m.rates[i].operations[name].calls,
        m.total.operations[name].logical_bytes > 0 <==> throughput.dom().contains(name),
        throughput.dom().contains(name) ==> {
            &&& throughput[name].overall.amount == m.total.operations[name].logical_bytes
            &&& throughput[name].overall.duration_ns == elapsed_ns
            &&& throughput[name].windows@.len() == m.rates.len()
            &&& m.rates[i].operations.dom().contains(name) ==> throughput[name].windows@[i].amount
                == m.rates[i].operations[name].logical_bytes
        },
{
    assert(operations.dom().contains(name));
    if m.total.operations[name].logical_bytes > 0 {
        assert(throughput.dom().contains(name));
    }
}

/// A summary of a measurement gives each method's requests and body bytes over the whole time, with
/// what each window counted; a method without requests is left out.
pub proof fn request_summaries_cover_the_measurement(
    requests: Map<Seq<char>, RateTotals>,
    throughput: Map<Seq<char>, RateTotals>,
    total: StoreSnapshot,
    windows: Seq<StoreWindow>,
    elapsed_ns: u64,
    m: HttpMethod,
    i: int,
)
    requires
        summarizes_requests(requests, throughput, total, windows, elapsed_ns),
        0 <= i < windows.len(),
        total.requests.of(m) > 0,
        total.request_bytes.of(m) + total.response_bytes.of(m) <= u64::MAX,
    ensures
        requests.dom().contains(m.label()),
        requests[m.label()].overall.amount == total.requests.of(m),
        requests[m.label()].overall.duration_ns == elapsed_ns,
        requests[m.label()].windows@.len() == windows.len(),
        requests[m.label()].windows@[i].amount == windows[i].delta.requests.of(m),
        requests[m.label()].windows@[i].duration_ns == windows[i].duration_ns,
        total.request_bytes.of(m) + total.response_bytes.of(m) > 0 ==> {
            &&& throughput.dom().contains(m.label())
            &&& throughput[m.label()].overall.amount == total.request_bytes.of(m)
                + total.response_bytes.of(m)
            &&& throughput[m.label()].overall.duration_ns == elapsed_ns
            &&& throughput[m.label()].windows@.len() == windows.len()
        },
{
    assert(requested(total, m.label()));
    if total.body(m) > 0 {
        assert(transferred(total, m.label()));
    }
}

/// A series shows every window of its measurement: when it ended, how long it was, what each
/// operation and method did in it, and how the host stood.
pub proof fn series_show_every_window(
    s: WorkloadSeries,
    m: MeasurementView,
    total: StoreSnapshot,
    i: int,
    name: Seq<char>,
)
    requires
        plots(s, m, total),
    ensures
        s.rate_elapsed_ns@.len() == m.rates.len(),
        s.latency_elapsed_ns@.len() == m.latencies.len(),
        s.resource_elapsed_ns@.len() == m.resources.len(),
        0 <= i < m.rates.len() ==> s.rate_elapsed_ns@[i] == m.rates[i].elapsed_ns
            && s.rate_duration_ns@[i] == m.rates[i].duration_ns,
        0 <= i < m.latencies.len() ==> s.latency_elapsed_ns@[i] == m.latencies[i].elapsed_ns
            && s.latency_duration_ns@[i] == m.latencies[i].duration_ns,
        0 <= i < m.resources.len() ==> {
            let w = m.resources[i];
            &&& s.resource_elapsed_ns@[i] == w.elapsed_ns
            &&& s.resource_duration_ns@[i] == w.duration_ns
            &&& s.process.cpu_cores@[i] == w.process_cpu_cores
            &&& s.process.rss_bytes@[i] == w.process_rss_bytes
            &&& s.machine.cpu_percent@[i] == w.machine_cpu_percent
            &&& s.machine.network_receive_bytes_per_second@[i] == (Rate {
                amount: w.network_received,
                duration_ns: w.duration_ns,
            })
            &&& s.machine.network_send_bytes_per_second@[i] == (Rate {
                amount: w.network_sent,
                duration_ns: w.duration_ns,
            })
            &&& s.machine.disk_read_bytes_per_second@[i] == (Rate {
                amount: w.disk_read_bytes,
                duration_ns: w.duration_ns,
            })
            &&& s.machine.disk_write_bytes_per_second@[i] == (Rate {
                amount: w.disk_write_bytes,
                duration_ns: w.duration_ns,
            })
            &&& s.machine.disk_read_operations_per_second@[i] == (Rate {
                amount: w.disk_read_operations,
                duration_ns: w.duration_ns,
            })
            &&& s.machine.disk_write_operations_per_second@[i] == (Rate {
                amount: w.disk_write_operations,
                duration_ns: w.duration_ns,
            })
        },
        m.total.operations.dom().contains(name) ==> {
            &&& s.application.operations_per_second.map().dom().contains(name)
            &&& s.application.operations_per_second.map()[name]@.len() == m.rates.len()
            &&& 0 <= i < m.rates.len() && m.rates[i].operations.dom().contains(name)
                ==> s.application.operations_per_second.map()[name]@[i] == (Rate {
                amount: m.rates[i].operations[name].calls,
                duration_ns: m.rates[i].duration_ns,
            })
            &&& m.total.operations[name].logical_bytes > 0 ==> {
                &&& s.application.bytes_per_second.map().dom().contains(name)
                &&& 0 <= i < m.rates.len() && m.rates[i].operations.dom().contains(name)
                    ==> s.application.bytes_per_second.map()[name]@[i] == (Rate {
                    amount: m.rates[i].operations[name].logical_bytes,
                    duration_ns: m.rates[i].duration_ns,
                })
            }
        },
{
    if m.total.operations.dom().contains(name) {
        assert(s.application.operations_per_second.map().dom().contains(name));
        if m.total.operations[name].logical_bytes > 0 {
            assert(s.application.bytes_per_second.map().dom().contains(name));
        }
    }
}

/// The latencies of an operation are shown for every window: a digest of what was observed there,
/// and none where nothing was.
pub proof fn latency_series_show_every_window(
    s: LatencyTimeSeries,
    name: Seq<char>,
    windows: Seq<LatencyView>,
    i: int,
)
    requires
        plots_latency(s, name, windows),
        0 <= i < windows.len(),
    ensures
        s.windows@.len() == windows.len(),
        s.windows@[i] is Some <==> windows[i].histograms.dom().contains(name)
            && windows[i].histograms[name].total > 0,
        s.windows@[i] matches Some(d) ==> histogram::digests(d, windows[i].histograms[name])
            && d.count == windows[i].histograms[name].total,
{
}

/// The requests of a method are shown for every window, where it has any.
pub proof fn request_series_show_every_window(
    requests: Map<Seq<char>, Vec<Rate>>,
    bytes: Map<Seq<char>, Vec<Rate>>,
    total: StoreSnapshot,
    windows: Seq<StoreWindow>,
    m: HttpMethod,
    i: int,
)
    requires
        plots_requests(requests, bytes, total, windows),
        total.requests.of(m) > 0,
        0 <= i < windows.len(),
        windows[i].delta.request_bytes.of(m) + windows[i].delta.response_bytes.of(m) <= u64::MAX,
    ensures
        requests.dom().contains(m.label()),
        requests[m.label()]@.len() == windows.len(),
        requests[m.label()]@[i] == (Rate {
            amount: windows[i].delta.requests.of(m),
            duration_ns: windows[i].duration_ns,
        }),
        total.request_bytes.of(m) + total.response_bytes.of(m) > 0 ==> {
            &&& bytes.dom().contains(m.label())
            &&& bytes[m.label()]@[i].amount == windows[i].delta.request_bytes.of(m)
                + windows[i].delta.response_bytes.of(m)
            &&& bytes[m.label()]@[i].duration_ns == windows[i].duration_ns
        },
{
    assert(requested(total, m.label()));
    if total.body(m) > 0 {
        assert(transferred(total, m.label()));
    }
}

} // verus!
