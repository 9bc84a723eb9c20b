//! Profiles of benchmark workloads and their variants.

use crate::durations;
use crate::durations::read_nanos;
use crate::faults;
use crate::faults::{fault_unless, first_listed};
use crate::text;
use crate::text::{blank, ends_with, insert_sorted, same_text, strip_suffix};
use vstd::prelude::*;

verus! {

/// The version of the configuration format.
pub const SCHEMA_VERSION: u32 = 1;

/// The only block size of tables that can be asked for.
pub const SST_BLOCK_BYTES: usize = 8_192;

/// How the object store is probed before measurement.
#[derive(Debug, Clone, Copy, PartialEq, Eq, Structural)]
pub struct ProbeConfig {
    pub latency_operations: u64,
    pub latency_object_bytes: usize,
    pub throughput_object_bytes: usize,
    pub throughput_concurrency: usize,
    pub throughput_warmup_ms: u64,
    pub throughput_measurement_ms: u64,
}

/// Whether workloads start from fresh clones or one after the other.
#[derive(Debug, Clone, Copy, PartialEq, Eq, Structural)]
pub enum ProfileExecution {
    Isolated,
    Sequential,
}

/// What a workload does.
#[derive(Debug, Clone, Copy, PartialEq, Eq, Structural)]
pub enum WorkloadKind {
    YcsbA,
    YcsbB,
    YcsbC,
    YcsbD,
    YcsbE,
    YcsbF,
    BulkLoad,
    RandomRead,
    MultiRandomRead,
    ForwardRange,
    ReverseRange,
    Overwrite,
    ReadWhileWriting,
    ForwardRangeWhileWriting,
    ReverseRangeWhileWriting,
    ColdRead,
    SustainedIngest,
    TransactionContention,
    PrefixScan,
    OpenLoopRead,
    OpenLoopReadUpdate,
}

impl WorkloadKind {
    /// Whether arrivals are scheduled at a rate.
    pub open spec fn open_loop(self) -> bool {
        self == WorkloadKind::OpenLoopRead || self == WorkloadKind::OpenLoopReadUpdate
    }

    /// Tells whether arrivals are scheduled at a rate.
    pub fn is_open_loop(self) -> (r: bool)
        ensures
            r == self.open_loop(),
    {
        match self {
            WorkloadKind::OpenLoopRead | WorkloadKind::OpenLoopReadUpdate => true,
            _ => false,
        }
    }
}

/// One way to run a workload: with a number of clients, or at a rate.
#[derive(Debug)]
pub struct VariantDefinition {
    pub name: String,
    pub clients: Option<usize>,
    pub target_rate: Option<u64>,
}

/// A workload and what it overrides of its profile.
#[derive(Debug)]
pub struct WorkloadConfig {
    pub name: String,
    pub kind: WorkloadKind,
    pub variants: Vec<VariantDefinition>,
    pub await_durable: bool,
    pub record_count: Option<u64>,
    pub key_bytes: Option<usize>,
    pub value_bytes: Option<usize>,
    pub warmup_ms: Option<u64>,
    pub measurement_ms: Option<u64>,
}

/// A profile: a dataset, its caches and its workloads.
#[derive(Debug)]
pub struct ProfileConfig {
    pub name: String,
    pub release: bool,
    pub execution: ProfileExecution,
    pub object_store_probe: ProbeConfig,
    pub compaction_quiet_ms: u64,
    pub compaction_timeout_ms: u64,
    pub record_count: u64,
    pub key_bytes: usize,
    pub value_bytes: usize,
    pub block_cache_bytes: Option<u64>,
    pub metadata_cache_bytes: Option<u64>,
    pub warmup_ms: u64,
    pub measurement_ms: u64,
    pub sst_block_bytes: Option<usize>,
    pub workloads: Vec<WorkloadConfig>,
}

impl ProfileConfig {
    /// The name of the mode that a profile runs in.
    pub fn mode(&self) -> (r: &'static str)
        ensures
            r@ == (if self.release {
                "published"@
            } else {
                "smoke"@
            }),
    {
        if self.release {
            "published"
        } else {
            "smoke"
        }
    }
}

/// All profiles.
#[derive(Debug)]
pub struct SuiteConfig {
    pub schema_version: u32,
    pub profiles: Vec<ProfileConfig>,
}

/// The names of one variant.
#[derive(Debug)]
pub struct CatalogEntry {
    pub profile: String,
    pub workload: String,
    pub variant: String,
}

/// One variant of a workload of a profile.
#[derive(Debug, Clone, Copy)]
pub struct VariantConfig<'a> {
    pub profile: &'a ProfileConfig,
    pub workload: &'a WorkloadConfig,
    pub definition: &'a VariantDefinition,
}

impl<'a> VariantConfig<'a> {
    /// Returns the number of records.
    pub fn record_count(&self) -> (r: u64)
        ensures
            r == (match self.workload.record_count {
                Some(n) => n,
                None => self.profile.record_count,
            }),
    {
        match self.workload.record_count {
            Some(n) => n,
            None => self.profile.record_count,
        }
    }

    /// Returns the bytes of a key.
    pub fn key_bytes(&self) -> (r: usize)
        ensures
            r == (match self.workload.key_bytes {
                Some(n) => n,
                None => self.profile.key_bytes,
            }),
    {
        match self.workload.key_bytes {
            Some(n) => n,
            None => self.profile.key_bytes,
        }
    }

    /// Returns the bytes of a value.
    pub fn value_bytes(&self) -> (r: usize)
        ensures
            r == (match self.workload.value_bytes {
                Some(n) => n,
                None => self.profile.value_bytes,
            }),
    {
        match self.workload.value_bytes {
            Some(n) => n,
            None => self.profile.value_bytes,
        }
    }

    /// Returns the length of the warmup.
    pub fn warmup_ms(&self) -> (r: u64)
        ensures
            r == (match self.workload.warmup_ms {
                Some(n) => n,
                None => self.profile.warmup_ms,
            }),
    {
        match self.workload.warmup_ms {
            Some(n) => n,
            None => self.profile.warmup_ms,
        }
    }

    /// Returns the length of the measurement.
    pub fn measurement_ms(&self) -> (r: u64)
        ensures
            r == (match self.workload.measurement_ms {
                Some(n) => n,
                None => self.profile.measurement_ms,
            }),
    {
        match self.workload.measurement_ms {
            Some(n) => n,
            None => self.profile.measurement_ms,
        }
    }
}

/// What is wrong with a suite.
#[derive(Debug, Clone, Copy, PartialEq, Eq, Structural)]
pub enum SuiteFault {
    DuplicateProfile,
    NoWorkloads,
    ZeroSizedRecord,
    UnsupportedBlockSize,
    ZeroCompactionTime,
    InvalidProbe,
    NoSettings,
    NotOneLeadingBulkLoad,
    DuplicateWorkload,
    NoVariants,
    UnnamedVariant,
    ZeroLoad,
    OpenLoopWithoutRate,
    ClosedLoopWithoutClients,
    DuplicateVariant,
}

/// Whether a variant has the load that its workload needs: a rate, or clients.
pub open spec fn load_fault(kind: WorkloadKind, variant: VariantDefinition) -> Option<SuiteFault> {
    if kind.open_loop() {
        faults::unless(
            variant.target_rate is Some && variant.clients is None,
            SuiteFault::OpenLoopWithoutRate,
        )
    } else {
        faults::unless(
            variant.clients is Some && variant.target_rate is None,
            SuiteFault::ClosedLoopWithoutClients,
        )
    }
}

/// Whether an earlier variant of a workload has the same name.
pub open spec fn variant_repeats(variants: Seq<VariantDefinition>, v: int) -> bool {
    exists|k: int| 0 <= k < v && (#[trigger] variants[k]).name@ == variants[v].name@
}

/// What is wrong with a variant.
pub open spec fn variant_fault(workload: WorkloadConfig, v: int) -> Option<SuiteFault> {
    let variant = workload.variants@[v];
    faults::first_of(
        seq![
            faults::unless(!text::is_blank(variant.name@), SuiteFault::UnnamedVariant),
            faults::unless(
                variant.clients != Some(0usize) && variant.target_rate != Some(0u64),
                SuiteFault::ZeroLoad,
            ),
            load_fault(workload.kind, variant),
            faults::unless(
                !variant_repeats(workload.variants@, v),
                SuiteFault::DuplicateVariant,
            ),
        ],
    )
}

/// Whether an earlier workload of a profile has the same name.
pub open spec fn workload_repeats(workloads: Seq<WorkloadConfig>, w: int) -> bool {
    exists|k: int| 0 <= k < w && (#[trigger] workloads[k]).name@ == workloads[w].name@
}

/// What is wrong with a workload.
pub open spec fn workload_fault(profile: ProfileConfig, w: int) -> Option<SuiteFault> {
    let workload = profile.workloads@[w];
    faults::first_of(
        seq![
            faults::unless(
                !workload_repeats(profile.workloads@, w),
                SuiteFault::DuplicateWorkload,
            ),
            faults::unless(workload.variants@.len() > 0, SuiteFault::NoVariants),
            faults::first_of(
                Seq::new(workload.variants@.len(), |v: int| variant_fault(workload, v)),
            ),
        ],
    )
}

/// Whether every number of a probe that must be positive is.
pub open spec fn probe_is_valid(probe: ProbeConfig) -> bool {
    probe.latency_operations > 0 && probe.latency_object_bytes > 0 && probe.throughput_object_bytes
        > 0 && probe.throughput_concurrency > 0 && probe.throughput_measurement_ms > 0
}

/// Whether the first workload loads in bulk, and no other does.
pub open spec fn leads_with_bulk_load(workloads: Seq<WorkloadConfig>) -> bool {
    &&& workloads.len() > 0
    &&& workloads[0].kind == WorkloadKind::BulkLoad
    &&& forall|w: int|
        0 < w < workloads.len() ==> (#[trigger] workloads[w]).kind != WorkloadKind::BulkLoad
}

/// Whether an earlier profile has the same name.
pub open spec fn profile_repeats(profiles: Seq<ProfileConfig>, p: int) -> bool {
    exists|k: int| 0 <= k < p && (#[trigger] profiles[k]).name@ == profiles[p].name@
}

/// What is wrong with a profile, given whether its database settings can be read.
pub open spec fn profile_fault(
    profiles: Seq<ProfileConfig>,
    p: int,
    settings: bool,
) -> Option<SuiteFault> {
    let profile = profiles[p];
    faults::first_of(
        seq![
            faults::unless(!profile_repeats(profiles, p), SuiteFault::DuplicateProfile),
            faults::unless(profile.workloads@.len() > 0, SuiteFault::NoWorkloads),
            faults::unless(
                profile.key_bytes > 0 && profile.value_bytes > 0,
                SuiteFault::ZeroSizedRecord,
            ),
            faults::unless(
                profile.sst_block_bytes is None || profile.sst_block_bytes == Some(
                    SST_BLOCK_BYTES,
                ),
                SuiteFault::UnsupportedBlockSize,
            ),
            faults::unless(
                profile.compaction_quiet_ms > 0 && profile.compaction_timeout_ms > 0,
                SuiteFault::ZeroCompactionTime,
            ),
            faults::unless(
                probe_is_valid(profile.object_store_probe),
                SuiteFault::InvalidProbe,
            ),
            faults::unless(settings, SuiteFault::NoSettings),
            faults::unless(
                profile.execution == ProfileExecution::Isolated || leads_with_bulk_load(
                    profile.workloads@,
                ),
                SuiteFault::NotOneLeadingBulkLoad,
            ),
            faults::first_of(
                Seq::new(profile.workloads@.len(), |w: int| workload_fault(profile, w)),
            ),
        ],
    )
}

/// What is wrong with a suite, given whether each profile's settings can be read.
pub open spec fn suite_fault(suite: SuiteConfig, settings: Seq<bool>) -> Option<SuiteFault> {
    faults::first_of(
        Seq::new(
            suite.profiles@.len(),
            |p: int| profile_fault(suite.profiles@, p, settings[p]),
        ),
    )
}

fn check_variant(workload: &WorkloadConfig, v: usize) -> (r: Option<SuiteFault>)
    requires
        v < workload.variants.len(),
    ensures
        r == variant_fault(*workload, v as int),
{
    let variant = &workload.variants[v];
    let load: Option<SuiteFault> = if workload.kind.is_open_loop() {
        fault_unless(
            variant.target_rate.is_some() && variant.clients.is_none(),
            SuiteFault::OpenLoopWithoutRate,
        )
    } else {
        fault_unless(
            variant.clients.is_some() && variant.target_rate.is_none(),
            SuiteFault::ClosedLoopWithoutClients,
        )
    };
    let idle = match variant.clients {
        Some(n) => n == 0,
        None => false,
    } || match variant.target_rate {
        Some(n) => n == 0,
        None => false,
    };
    let mut repeats = false;
    let mut k: usize = 0;
    while k < v
        invariant
            k <= v < workload.variants.len(),
            *variant == workload.variants@[v as int],
            repeats <==> exists|a: int|
                0 <= a < k && (#[trigger] workload.variants@[a]).name@ == variant.name@,
        decreases v - k,
    {
        if same_text(workload.variants[k].name.as_str(), variant.name.as_str()) {
            assert(workload.variants@[k as int].name@ == variant.name@);
            repeats = true;
        }
        k += 1;
    }
    let faults: Vec<Option<SuiteFault>> = vec![
        fault_unless(!blank(variant.name.as_str()), SuiteFault::UnnamedVariant),
        fault_unless(!idle, SuiteFault::ZeroLoad),
        load,
        fault_unless(!repeats, SuiteFault::DuplicateVariant),
    ];
    assert(faults@ =~= seq![
        faults::unless(!text::is_blank(variant.name@), SuiteFault::UnnamedVariant),
        faults::unless(
            variant.clients != Some(0usize) && variant.target_rate != Some(0u64),
            SuiteFault::ZeroLoad,
        ),
        load_fault(workload.kind, *variant),
        faults::unless(!variant_repeats(workload.variants@, v as int), SuiteFault::DuplicateVariant),
    ]);
    first_listed(&faults)
}

fn check_variants(workload: &WorkloadConfig) -> (r: Option<SuiteFault>)
    ensures
        r == faults::first_of(
            Seq::new(workload.variants@.len(), |v: int| variant_fault(*workload, v)),
        ),
{
    let ghost all = Seq::new(workload.variants@.len(), |v: int| variant_fault(*workload, v));
    assert(all.take(0).len() == 0);
    let mut v: usize = 0;
    while v < workload.variants.len()
        invariant
            v <= workload.variants.len(),
            all == Seq::new(workload.variants@.len(), |v: int| variant_fault(*workload, v)),
            faults::first_of(all.take(v as int)) is None,
        decreases workload.variants.len() - v,
    {
        let fault = check_variant(workload, v);
        assert(all[v as int] == fault);
        if fault.is_some() {
            proof {
                faults::found_here(all, v as int);
            }
            return fault;
        }
        proof {
            faults::nothing_yet(all, v as int);
        }
        v += 1;
    }
    proof {
        faults::nothing_at_all(all);
    }
    None
}

fn check_workload(profile: &ProfileConfig, w: usize) -> (r: Option<SuiteFault>)
    requires
        w < profile.workloads.len(),
    ensures
        r == workload_fault(*profile, w as int),
{
    let workload = &profile.workloads[w];
    let mut repeats = false;
    let mut k: usize = 0;
    while k < w
        invariant
            k <= w < profile.workloads.len(),
            *workload == profile.workloads@[w as int],
            repeats <==> exists|a: int|
                0 <= a < k && (#[trigger] profile.workloads@[a]).name@ == workload.name@,
        decreases w - k,
    {
        if same_text(profile.workloads[k].name.as_str(), workload.name.as_str()) {
            assert(profile.workloads@[k as int].name@ == workload.name@);
            repeats = true;
        }
        k += 1;
    }
    let faults: Vec<Option<SuiteFault>> = vec![
        fault_unless(!repeats, SuiteFault::DuplicateWorkload),
        fault_unless(workload.variants.len() > 0, SuiteFault::NoVariants),
        check_variants(workload),
    ];
    assert(faults@ =~= seq![
        faults::unless(
            !workload_repeats(profile.workloads@, w as int),
            SuiteFault::DuplicateWorkload,
        ),
        faults::unless(workload.variants@.len() > 0, SuiteFault::NoVariants),
        faults::first_of(
            Seq::new(workload.variants@.len(), |v: int| variant_fault(*workload, v)),
        ),
    ]);
    first_listed(&faults)
}

fn check_workloads(profile: &ProfileConfig) -> (r: Option<SuiteFault>)
    ensures
        r == faults::first_of(
            Seq::new(profile.workloads@.len(), |w: int| workload_fault(*profile, w)),
        ),
{
    let ghost all = Seq::new(profile.workloads@.len(), |w: int| workload_fault(*profile, w));
    assert(all.take(0).len() == 0);
    let mut w: usize = 0;
    while w < profile.workloads.len()
        invariant
            w <= profile.workloads.len(),
            all == Seq::new(profile.workloads@.len(), |w: int| workload_fault(*profile, w)),
            faults::first_of(all.take(w as int)) is None,
        decreases profile.workloads.len() - w,
    {
        let fault = check_workload(profile, w);
        assert(all[w as int] == fault);
        if fault.is_some() {
            proof {
                faults::found_here(all, w as int);
            }
            return fault;
        }
        proof {
            faults::nothing_yet(all, w as int);
        }
        w += 1;
    }
    proof {
        faults::nothing_at_all(all);
    }
    None
}

/// Tells whether every number of a probe that must be positive is.
pub fn validate_probe(probe: &ProbeConfig) -> (r: bool)
    ensures
        r == probe_is_valid(*probe),
{
    probe.latency_operations > 0 && probe.latency_object_bytes > 0 && probe.throughput_object_bytes
        > 0 && probe.throughput_concurrency > 0 && probe.throughput_measurement_ms > 0
}

/// Tells whether the first workload loads in bulk, and no other does.
pub fn validate_sequential_profile(workloads: &Vec<WorkloadConfig>) -> (r: bool)
    ensures
        r == leads_with_bulk_load(workloads@),
{
    if workloads.len() == 0 || workloads[0].kind != WorkloadKind::BulkLoad {
        return false;
    }
    let mut w: usize = 1;
    while w < workloads.len()
        invariant
            1 <= w,
            forall|k: int|
                0 < k < w && k < workloads.len() ==> (#[trigger] workloads@[k]).kind
                    != WorkloadKind::BulkLoad,
        decreases workloads.len() - w,
    {
        if workloads[w].kind == WorkloadKind::BulkLoad {
            assert(workloads@[w as int].kind == WorkloadKind::BulkLoad);
            return false;
        }
        w += 1;
    }
    true
}

fn check_profile(profiles: &Vec<ProfileConfig>, p: usize, settings: bool) -> (r: Option<SuiteFault>)
    requires
        p < profiles.len(),
    ensures
        r == profile_fault(profiles@, p as int, settings),
{
    let profile = &profiles[p];
    let mut repeats = false;
    let mut k: usize = 0;
    while k < p
        invariant
            k <= p < profiles.len(),
            *profile == profiles@[p as int],
            repeats <==> exists|a: int|
                0 <= a < k && (#[trigger] profiles@[a]).name@ == profile.name@,
        decreases p - k,
    {
        if same_text(profiles[k].name.as_str(), profile.name.as_str()) {
            assert(profiles@[k as int].name@ == profile.name@);
            repeats = true;
        }
        k += 1;
    }
    let supported = match profile.sst_block_bytes {
        Some(size) => size == SST_BLOCK_BYTES,
        None => true,
    };
    let ordered = match profile.execution {
        ProfileExecution::Isolated => true,
        ProfileExecution::Sequential => validate_sequential_profile(&profile.workloads),
    };
    let faults: Vec<Option<SuiteFault>> = vec![
        fault_unless(!repeats, SuiteFault::DuplicateProfile),
        fault_unless(profile.workloads.len() > 0, SuiteFault::NoWorkloads),
        fault_unless(
            profile.key_bytes > 0 && profile.value_bytes > 0,
            SuiteFault::ZeroSizedRecord,
        ),
        fault_unless(supported, SuiteFault::UnsupportedBlockSize),
        fault_unless(
            profile.compaction_quiet_ms > 0 && profile.compaction_timeout_ms > 0,
            SuiteFault::ZeroCompactionTime,
        ),
        fault_unless(validate_probe(&profile.object_store_probe), SuiteFault::InvalidProbe),
        fault_unless(settings, SuiteFault::NoSettings),
        fault_unless(ordered, SuiteFault::NotOneLeadingBulkLoad),
        check_workloads(profile),
    ];
    assert(faults@ =~= seq![
        faults::unless(!profile_repeats(profiles@, p as int), SuiteFault::DuplicateProfile),
        faults::unless(profile.workloads@.len() > 0, SuiteFault::NoWorkloads),
        faults::unless(
            profile.key_bytes > 0 && profile.value_bytes > 0,
            SuiteFault::ZeroSizedRecord,
        ),
        faults::unless(
            profile.sst_block_bytes is None || profile.sst_block_bytes == Some(SST_BLOCK_BYTES),
            SuiteFault::UnsupportedBlockSize,
        ),
        faults::unless(
            profile.compaction_quiet_ms > 0 && profile.compaction_timeout_ms > 0,
            SuiteFault::ZeroCompactionTime,
        ),
        faults::unless(probe_is_valid(profile.object_store_probe), SuiteFault::InvalidProbe),
        faults::unless(settings, SuiteFault::NoSettings),
        faults::unless(
            profile.execution == ProfileExecution::Isolated || leads_with_bulk_load(
                profile.workloads@,
            ),
            SuiteFault::NotOneLeadingBulkLoad,
        ),
        faults::first_of(
            Seq::new(profile.workloads@.len(), |w: int| workload_fault(*profile, w)),
        ),
    ]);
    first_listed(&faults)
}

/// The selectors match nothing.
#[derive(Debug, Clone, Copy, PartialEq, Eq, Structural)]
pub struct NothingSelected;

/// Whether a profile is selected: the named one, or every released one.
pub open spec fn profile_selected(profile: ProfileConfig, name: Option<&str>) -> bool {
    match name {
        Some(n) => profile.name@ == n@,
        None => profile.release,
    }
}

/// Whether a name is selected: the given one, or every one.
pub open spec fn name_selected(name: Seq<char>, selector: Option<&str>) -> bool {
    selector matches Some(n) ==> n@ == name
}

/// A variant by the positions of its profile, workload and definition.
pub struct Position {
    pub profile: int,
    pub workload: int,
    pub variant: int,
}

/// The selected variants of the first definitions of a workload.
pub open spec fn in_workload(
    workload: WorkloadConfig,
    p: int,
    w: int,
    variant: Option<&str>,
    k: int,
) -> Seq<Position>
    decreases k,
{
    if k <= 0 {
        Seq::empty()
    } else {
        let rest = in_workload(workload, p, w, variant, k - 1);
        if name_selected(workload.variants@[k - 1].name@, variant) {
            rest.push(Position { profile: p, workload: w, variant: k - 1 })
        } else {
            rest
        }
    }
}

/// The selected variants of the first workloads of a profile.
pub open spec fn in_profile(
    profile: ProfileConfig,
    p: int,
    workload: Option<&str>,
    variant: Option<&str>,
    k: int,
) -> Seq<Position>
    decreases k,
{
    if k <= 0 {
        Seq::empty()
    } else {
        let rest = in_profile(profile, p, workload, variant, k - 1);
        let current = profile.workloads@[k - 1];
        if name_selected(current.name@, workload) {
            rest + in_workload(current, p, k - 1, variant, current.variants@.len() as int)
        } else {
            rest
        }
    }
}

/// The selected variants of the first profiles of a suite.
pub open spec fn in_suite(
    profiles: Seq<ProfileConfig>,
    profile: Option<&str>,
    workload: Option<&str>,
    variant: Option<&str>,
    k: int,
) -> Seq<Position>
    decreases k,
{
    if k <= 0 {
        Seq::empty()
    } else {
        let rest = in_suite(profiles, profile, workload, variant, k - 1);
        let current = profiles[k - 1];
        if profile_selected(current, profile) {
            rest + in_profile(
                current,
                k - 1,
                workload,
                variant,
                current.workloads@.len() as int,
            )
        } else {
            rest
        }
    }
}

/// Whether a list holds the variants at positions of a suite.
pub open spec fn holds_positions(
    selected: Seq<VariantConfig>,
    suite: SuiteConfig,
    positions: Seq<Position>,
) -> bool {
    &&& selected.len() == positions.len()
    &&& forall|i: int|
        0 <= i < selected.len() ==> {
            let at = positions[i];
            let profile = suite.profiles@[at.profile];
            let workload = profile.workloads@[at.workload];
            *(#[trigger] selected[i]).profile == profile && *selected[i].workload == workload
                && *selected[i].definition == workload.variants@[at.variant]
        }
}

fn selects(selector: Option<&str>, name: &str) -> (r: bool)
    ensures
        r == name_selected(name@, selector),
{
    match selector {
        Some(n) => same_text(n, name),
        None => true,
    }
}

impl SuiteConfig {
    /// Checks a suite, given whether each profile's settings can be read.
    pub fn validate(&self, settings: &Vec<bool>) -> (r: Result<(), SuiteFault>)
        requires
            settings.len() == self.profiles.len(),
        ensures
            suite_fault(*self, settings@) matches Some(f) ==> r == Err::<(), SuiteFault>(f),
            suite_fault(*self, settings@) is None ==> r == Ok::<(), SuiteFault>(()),
    {
        let ghost all = Seq::new(
            self.profiles@.len(),
            |p: int| profile_fault(self.profiles@, p, settings@[p]),
        );
        assert(all.take(0).len() == 0);
        let mut p: usize = 0;
        while p < self.profiles.len()
            invariant
                p <= self.profiles.len(),
                settings.len() == self.profiles.len(),
                all == Seq::new(
                    self.profiles@.len(),
                    |p: int| profile_fault(self.profiles@, p, settings@[p]),
                ),
                faults::first_of(all.take(p as int)) is None,
            decreases self.profiles.len() - p,
        {
            let fault = check_profile(&self.profiles, p, settings[p]);
            assert(all[p as int] == fault);
            if let Some(f) = fault {
                proof {
                    faults::found_here(all, p as int);
                }
                return Err(f);
            }
            proof {
                faults::nothing_yet(all, p as int);
            }
            p += 1;
        }
        proof {
            faults::nothing_at_all(all);
        }
        Ok(())
    }

    /// Selects variants by the names of their profile, workload and definition.
    ///
    /// Without a profile, every released profile is selected.
    pub fn select<'a>(
        &'a self,
        profile_name: Option<&str>,
        workload_name: Option<&str>,
        variant_name: Option<&str>,
    ) -> (r: Result<Vec<VariantConfig<'a>>, NothingSelected>)
        ensures
            ({
                let positions = in_suite(
                    self.profiles@,
                    profile_name,
                    workload_name,
                    variant_name,
                    self.profiles@.len() as int,
                );
                &&& r is Ok <==> positions.len() > 0
                &&& r matches Ok(selected) ==> holds_positions(selected@, *self, positions)
            }),
    {
        let mut selected: Vec<VariantConfig<'a>> = Vec::new();
        let ghost mut positions: Seq<Position> = Seq::empty();
        let mut p: usize = 0;
        while p < self.profiles.len()
            invariant
                p <= self.profiles.len(),
                positions == in_suite(
                    self.profiles@,
                    profile_name,
                    workload_name,
                    variant_name,
                    p as int,
                ),
                holds_positions(selected@, *self, positions),
            decreases self.profiles.len() - p,
        {
            let profile = &self.profiles[p];
            let included = match profile_name {
                Some(name) => same_text(profile.name.as_str(), name),
                None => profile.release,
            };
            if included {
                let ghost before = positions;
                let mut w: usize = 0;
                assert(before + in_profile(*profile, p as int, workload_name, variant_name, 0)
                    =~= before);
                while w < profile.workloads.len()
                    invariant
                        p < self.profiles.len(),
                        *profile == self.profiles@[p as int],
                        w <= profile.workloads.len(),
                        positions == before + in_profile(
                            *profile,
                            p as int,
                            workload_name,
                            variant_name,
                            w as int,
                        ),
                        holds_positions(selected@, *self, positions),
                    decreases profile.workloads.len() - w,
                {
                    let workload = &profile.workloads[w];
                    if selects(workload_name, workload.name.as_str()) {
                        let ghost outer = positions;
                        let mut v: usize = 0;
                        assert(outer + in_workload(*workload, p as int, w as int, variant_name, 0)
                            =~= outer);
                        while v < workload.variants.len()
                            invariant
                                p < self.profiles.len(),
                                *profile == self.profiles@[p as int],
                                w < profile.workloads.len(),
                                *workload == profile.workloads@[w as int],
                                v <= workload.variants.len(),
                                positions == outer + in_workload(
                                    *workload,
                                    p as int,
                                    w as int,
                                    variant_name,
                                    v as int,
                                ),
                                holds_positions(selected@, *self, positions),
                            decreases workload.variants.len() - v,
                        {
                            let definition = &workload.variants[v];
                            if selects(variant_name, definition.name.as_str()) {
                                selected.push(VariantConfig { profile, workload, definition });
                                proof {
                                    positions = positions.push(
                                        Position {
                                            profile: p as int,
                                            workload: w as int,
                                            variant: v as int,
                                        },
                                    );
                                    assert(positions =~= outer + in_workload(
                                        *workload,
                                        p as int,
                                        w as int,
                                        variant_name,
                                        v + 1,
                                    ));
                                }
                            }
                            v += 1;
                        }
                        assert(positions =~= before + in_profile(
                            *profile,
                            p as int,
                            workload_name,
                            variant_name,
                            w + 1,
                        ));
                    }
                    w += 1;
                }
            }
            p += 1;
        }
        if selected.len() == 0 {
            Err(NothingSelected)
        } else {
            Ok(selected)
        }
    }

    /// Lists the names of all variants of the named profile, or of every released one.
    pub fn catalog(&self, profile_name: Option<&str>) -> (r: Result<
        Vec<CatalogEntry>,
        NothingSelected,
    >)
        ensures
            ({
                let positions = in_suite(
                    self.profiles@,
                    profile_name,
                    None,
                    None,
                    self.profiles@.len() as int,
                );
                &&& r is Ok <==> positions.len() > 0
                &&& r matches Ok(entries) ==> entries.len() == positions.len() && forall|i: int|
                    0 <= i < entries.len() ==> names_position(
                        #[trigger] entries@[i],
                        *self,
                        positions[i],
                    )
            }),
    {
        let selected = self.select(profile_name, None, None)?;
        let ghost positions = in_suite(
            self.profiles@,
            profile_name,
            None,
            None,
            self.profiles@.len() as int,
        );
        let mut entries: Vec<CatalogEntry> = Vec::new();
        let mut i: usize = 0;
        while i < selected.len()
            invariant
                i <= selected.len(),
                entries.len() == i,
                holds_positions(selected@, *self, positions),
                forall|k: int|
                    0 <= k < i ==> names_position(#[trigger] entries@[k], *self, positions[k]),
            decreases selected.len() - i,
        {
            let chosen = selected[i];
            let entry = CatalogEntry {
                profile: chosen.profile.name.clone(),
                workload: chosen.workload.name.clone(),
                variant: chosen.definition.name.clone(),
            };
            assert(*selected@[i as int].profile == self.profiles@[positions[i as int].profile]);
            assert(names_position(entry, *self, positions[i as int]));
            entries.push(entry);
            i += 1;
        }
        Ok(entries)
    }
}

/// Whether an entry has the names of the variant at a position.
pub open spec fn names_position(entry: CatalogEntry, suite: SuiteConfig, at: Position) -> bool {
    let profile = suite.profiles@[at.profile];
    let workload = profile.workloads@[at.workload];
    entry.profile@ == profile.name@ && entry.workload@ == workload.name@ && entry.variant@
        == workload.variants@[at.variant].name@
}

/// Whether a position is one of a suite.
pub open spec fn is_position(suite: SuiteConfig, at: Position) -> bool {
    &&& 0 <= at.profile < suite.profiles@.len()
    &&& 0 <= at.workload < suite.profiles@[at.profile].workloads@.len()
    &&& 0 <= at.variant < suite.profiles@[at.profile].workloads@[at.workload].variants@.len()
}

/// In a valid suite the names of a profile, a workload and a variant belong to one variant.
pub proof fn names_identify_variants(
    suite: SuiteConfig,
    settings: Seq<bool>,
    a: Position,
    b: Position,
)
    requires
        suite_fault(suite, settings) is None,
        is_position(suite, a),
        is_position(suite, b),
        suite.profiles@[a.profile].name@ == suite.profiles@[b.profile].name@,
        suite.profiles@[a.profile].workloads@[a.workload].name@
            == suite.profiles@[b.profile].workloads@[b.workload].name@,
        suite.profiles@[a.profile].workloads@[a.workload].variants@[a.variant].name@
            == suite.profiles@[b.profile].workloads@[b.workload].variants@[b.variant].name@,
    ensures
        a == b,
{
    if a.profile < b.profile {
        profiles_do_not_repeat(suite, settings, a.profile, b.profile);
    } else if b.profile < a.profile {
        profiles_do_not_repeat(suite, settings, b.profile, a.profile);
    }
    if a.workload < b.workload {
        workloads_do_not_repeat(suite, settings, a.profile, a.workload, b.workload);
    } else if b.workload < a.workload {
        workloads_do_not_repeat(suite, settings, a.profile, b.workload, a.workload);
    }
    if a.variant < b.variant {
        variants_do_not_repeat(suite, settings, b, a.variant);
    } else if b.variant < a.variant {
        variants_do_not_repeat(suite, settings, a, b.variant);
    }
}

proof fn profile_is_valid(suite: SuiteConfig, settings: Seq<bool>, p: int)
    requires
        suite_fault(suite, settings) is None,
        0 <= p < suite.profiles@.len(),
    ensures
        profile_fault(suite.profiles@, p, settings[p]) is None,
{
    let all = Seq::new(
        suite.profiles@.len(),
        |p: int| profile_fault(suite.profiles@, p, settings[p]),
    );
    faults::none_found(all, p);
}

proof fn profiles_do_not_repeat(suite: SuiteConfig, settings: Seq<bool>, p: int, q: int)
    requires
        suite_fault(suite, settings) is None,
        0 <= p < q < suite.profiles@.len(),
    ensures
        suite.profiles@[p].name@ != suite.profiles@[q].name@,
{
    profile_is_valid(suite, settings, q);
    let profile = suite.profiles@[q];
    let row = seq![
        faults::unless(!profile_repeats(suite.profiles@, q), SuiteFault::DuplicateProfile),
        faults::unless(profile.workloads@.len() > 0, SuiteFault::NoWorkloads),
        faults::unless(
            profile.key_bytes > 0 && profile.value_bytes > 0,
            SuiteFault::ZeroSizedRecord,
        ),
        faults::unless(
            profile.sst_block_bytes is None || profile.sst_block_bytes == Some(SST_BLOCK_BYTES),
            SuiteFault::UnsupportedBlockSize,
        ),
        faults::unless(
            profile.compaction_quiet_ms > 0 && profile.compaction_timeout_ms > 0,
            SuiteFault::ZeroCompactionTime,
        ),
        faults::unless(probe_is_valid(profile.object_store_probe), SuiteFault::InvalidProbe),
        faults::unless(settings[q], SuiteFault::NoSettings),
        faults::unless(
            profile.execution == ProfileExecution::Isolated || leads_with_bulk_load(
                profile.workloads@,
            ),
            SuiteFault::NotOneLeadingBulkLoad,
        ),
        faults::first_of(
            Seq::new(profile.workloads@.len(), |w: int| workload_fault(profile, w)),
        ),
    ];
    faults::none_found(row, 0);
    assert(!profile_repeats(suite.profiles@, q));
}

proof fn workload_is_valid(suite: SuiteConfig, settings: Seq<bool>, p: int, w: int)
    requires
        suite_fault(suite, settings) is None,
        0 <= p < suite.profiles@.len(),
        0 <= w < suite.profiles@[p].workloads@.len(),
    ensures
        workload_fault(suite.profiles@[p], w) is None,
{
    profile_is_valid(suite, settings, p);
    let profile = suite.profiles@[p];
    let row = seq![
        faults::unless(!profile_repeats(suite.profiles@, p), SuiteFault::DuplicateProfile),
        faults::unless(profile.workloads@.len() > 0, SuiteFault::NoWorkloads),
        faults::unless(
            profile.key_bytes > 0 && profile.value_bytes > 0,
            SuiteFault::ZeroSizedRecord,
        ),
        faults::unless(
            profile.sst_block_bytes is None || profile.sst_block_bytes == Some(SST_BLOCK_BYTES),
            SuiteFault::UnsupportedBlockSize,
        ),
        faults::unless(
            profile.compaction_quiet_ms > 0 && profile.compaction_timeout_ms > 0,
            SuiteFault::ZeroCompactionTime,
        ),
        faults::unless(probe_is_valid(profile.object_store_probe), SuiteFault::InvalidProbe),
        faults::unless(settings[p], SuiteFault::NoSettings),
        faults::unless(
            profile.execution == ProfileExecution::Isolated || leads_with_bulk_load(
                profile.workloads@,
            ),
            SuiteFault::NotOneLeadingBulkLoad,
        ),
        faults::first_of(
            Seq::new(profile.workloads@.len(), |w: int| workload_fault(profile, w)),
        ),
    ];
    faults::none_found(row, 8);
    faults::none_found(
        Seq::new(profile.workloads@.len(), |w: int| workload_fault(profile, w)),
        w,
    );
}

proof fn workloads_do_not_repeat(
    suite: SuiteConfig,
    settings: Seq<bool>,
    p: int,
    w: int,
    x: int,
)
    requires
        suite_fault(suite, settings) is None,
        0 <= p < suite.profiles@.len(),
        0 <= w < x < suite.profiles@[p].workloads@.len(),
    ensures
        suite.profiles@[p].workloads@[w].name@ != suite.profiles@[p].workloads@[x].name@,
{
    workload_is_valid(suite, settings, p, x);
    let profile = suite.profiles@[p];
    let workload = profile.workloads@[x];
    faults::none_found(
        seq![
            faults::unless(
                !workload_repeats(profile.workloads@, x),
                SuiteFault::DuplicateWorkload,
            ),
            faults::unless(workload.variants@.len() > 0, SuiteFault::NoVariants),
            faults::first_of(
                Seq::new(workload.variants@.len(), |v: int| variant_fault(workload, v)),
            ),
        ],
        0,
    );
    assert(!workload_repeats(profile.workloads@, x));
}

proof fn variants_do_not_repeat(
    suite: SuiteConfig,
    settings: Seq<bool>,
    at: Position,
    earlier: int,
)
    requires
        suite_fault(suite, settings) is None,
        is_position(suite, at),
        0 <= earlier < at.variant,
    ensures
        suite.profiles@[at.profile].workloads@[at.workload].variants@[earlier].name@
            != suite.profiles@[at.profile].workloads@[at.workload].variants@[at.variant].name@,
{
    workload_is_valid(suite, settings, at.profile, at.workload);
    let profile = suite.profiles@[at.profile];
    let workload = profile.workloads@[at.workload];
    let variants = Seq::new(workload.variants@.len(), |v: int| variant_fault(workload, v));
    faults::none_found(
        seq![
            faults::unless(
                !workload_repeats(profile.workloads@, at.workload),
                SuiteFault::DuplicateWorkload,
            ),
            faults::unless(workload.variants@.len() > 0, SuiteFault::NoVariants),
            faults::first_of(variants),
        ],
        2,
    );
    faults::none_found(variants, at.variant);
    let variant = workload.variants@[at.variant];
    faults::none_found(
        seq![
            faults::unless(!text::is_blank(variant.name@), SuiteFault::UnnamedVariant),
            faults::unless(
                variant.clients != Some(0usize) && variant.target_rate != Some(0u64),
                SuiteFault::ZeroLoad,
            ),
            load_fault(workload.kind, variant),
            faults::unless(
                !variant_repeats(workload.variants@, at.variant),
                SuiteFault::DuplicateVariant,
            ),
        ],
        3,
    );
    assert(!variant_repeats(workload.variants@, at.variant));
}

/// The probe settings of a profile file.
pub struct ProbeFile {
    pub latency_operations: u64,
    pub latency_object_bytes: usize,
    pub throughput_object_bytes: usize,
    pub throughput_concurrency: usize,
    pub throughput_warmup: String,
    pub throughput_measurement: String,
}

/// A workload of a profile file.
pub struct WorkloadFile {
    pub name: String,
    pub kind: WorkloadKind,
    pub variants: Vec<VariantDefinition>,
    pub await_durable: bool,
    pub record_count: Option<u64>,
    pub key_bytes: Option<usize>,
    pub value_bytes: Option<usize>,
    pub warmup: Option<String>,
    pub measurement: Option<String>,
}

/// A profile file, with durations as they are written.
pub struct ProfileFile {
    pub schema_version: u32,
    pub release: bool,
    pub execution: ProfileExecution,
    pub object_store_probe: ProbeFile,
    pub compaction_quiet: String,
    pub compaction_timeout: String,
    pub record_count: u64,
    pub key_bytes: usize,
    pub value_bytes: usize,
    pub block_cache_bytes: Option<u64>,
    pub metadata_cache_bytes: Option<u64>,
    pub warmup: String,
    pub measurement: String,
    pub sst_block_bytes: Option<usize>,
    pub workloads: Vec<WorkloadFile>,
}

/// Why a profile file is refused.
#[derive(Debug, Clone, Copy, PartialEq, Eq, Structural)]
pub enum ProfileError {
    InvalidFileName,
    UnsupportedSchema,
    InvalidDuration,
    DurationTooLarge,
}

/// A length of time in milliseconds, from its nanoseconds.
pub open spec fn millis_of(nanos: Option<u128>) -> Result<u64, ProfileError> {
    match nanos {
        None => Err(ProfileError::InvalidDuration),
        Some(n) => if n / 1_000_000 > u64::MAX {
            Err(ProfileError::DurationTooLarge)
        } else {
            Ok((n / 1_000_000) as u64)
        },
    }
}

/// Converts a length of time from nanoseconds to milliseconds.
pub fn duration_millis(nanos: Option<u128>) -> (r: Result<u64, ProfileError>)
    ensures
        r == millis_of(nanos),
{
    match nanos {
        None => Err(ProfileError::InvalidDuration),
        Some(n) => {
            let millis: u128 = n / 1_000_000;
            if millis > u64::MAX as u128 {
                Err(ProfileError::DurationTooLarge)
            } else {
                Ok(millis as u64)
            }
        },
    }
}

/// A written length of time in milliseconds.
pub open spec fn written_millis(value: Seq<char>) -> Result<u64, ProfileError> {
    millis_of(durations::written_nanos(value))
}

/// Reads a written length of time in milliseconds.
pub fn parse_duration_ms(value: &str) -> (r: Result<u64, ProfileError>)
    ensures
        r == written_millis(value@),
{
    duration_millis(read_nanos(value))
}

/// An optional written length of time in milliseconds.
pub open spec fn optional_millis(value: Option<String>) -> Result<Option<u64>, ProfileError> {
    match value {
        None => Ok(None),
        Some(v) => match written_millis(v@) {
            Ok(n) => Ok(Some(n)),
            Err(e) => Err(e),
        },
    }
}

fn parse_optional_ms(value: &Option<String>) -> (r: Result<Option<u64>, ProfileError>)
    ensures
        r == optional_millis(*value),
{
    match value {
        None => Ok(None),
        Some(v) => match parse_duration_ms(v.as_str()) {
            Ok(n) => Ok(Some(n)),
            Err(e) => Err(e),
        },
    }
}

/// The error of a result.
pub open spec fn error_of<T>(r: Result<T, ProfileError>) -> Option<ProfileError> {
    match r {
        Ok(_) => None,
        Err(e) => Some(e),
    }
}

/// What is wrong with the durations of a workload.
pub open spec fn workload_file_error(workload: WorkloadFile) -> Option<ProfileError> {
    faults::first(
        error_of(optional_millis(workload.warmup)),
        error_of(optional_millis(workload.measurement)),
    )
}

/// The profile that a file name names.
pub open spec fn profile_name(file_name: Seq<char>) -> Option<Seq<char>> {
    let suffix = ".profile.toml"@;
    if text::has_suffix(file_name, suffix) && file_name.len() > suffix.len() {
        Some(file_name.take(file_name.len() - suffix.len()))
    } else {
        None
    }
}

/// What is wrong with a profile file.
pub open spec fn profile_error(file_name: Seq<char>, file: ProfileFile) -> Option<ProfileError> {
    faults::first_of(
        seq![
            faults::unless(profile_name(file_name) is Some, ProfileError::InvalidFileName),
            faults::unless(
                file.schema_version == SCHEMA_VERSION,
                ProfileError::UnsupportedSchema,
            ),
            faults::first_of(
                Seq::new(
                    file.workloads@.len(),
                    |w: int| workload_file_error(file.workloads@[w]),
                ),
            ),
            error_of(written_millis(file.object_store_probe.throughput_warmup@)),
            error_of(written_millis(file.object_store_probe.throughput_measurement@)),
            error_of(written_millis(file.compaction_quiet@)),
            error_of(written_millis(file.compaction_timeout@)),
            error_of(written_millis(file.warmup@)),
            error_of(written_millis(file.measurement@)),
        ],
    )
}

/// Whether a workload is the one that a file describes.
pub open spec fn describes_workload(file: WorkloadFile, workload: WorkloadConfig) -> bool {
    &&& workload.name == file.name
    &&& workload.kind == file.kind
    &&& workload.variants == file.variants
    &&& workload.await_durable == file.await_durable
    &&& workload.record_count == file.record_count
    &&& workload.key_bytes == file.key_bytes
    &&& workload.value_bytes == file.value_bytes
    &&& Ok::<Option<u64>, ProfileError>(workload.warmup_ms) == optional_millis(file.warmup)
    &&& Ok::<Option<u64>, ProfileError>(workload.measurement_ms) == optional_millis(
        file.measurement,
    )
}

/// Whether a profile is the one that a file describes.
pub open spec fn describes_profile(
    file_name: Seq<char>,
    file: ProfileFile,
    profile: ProfileConfig,
) -> bool {
    let probe = file.object_store_probe;
    &&& Some(profile.name@) == profile_name(file_name)
    &&& profile.release == file.release
    &&& profile.execution == file.execution
    &&& profile.object_store_probe.latency_operations == probe.latency_operations
    &&& profile.object_store_probe.latency_object_bytes == probe.latency_object_bytes
    &&& profile.object_store_probe.throughput_object_bytes == probe.throughput_object_bytes
    &&& profile.object_store_probe.throughput_concurrency == probe.throughput_concurrency
    &&& Ok::<u64, ProfileError>(profile.object_store_probe.throughput_warmup_ms) == written_millis(
        probe.throughput_warmup@,
    )
    &&& Ok::<u64, ProfileError>(profile.object_store_probe.throughput_measurement_ms)
        == written_millis(probe.throughput_measurement@)
    &&& Ok::<u64, ProfileError>(profile.compaction_quiet_ms) == written_millis(
        file.compaction_quiet@,
    )
    &&& Ok::<u64, ProfileError>(profile.compaction_timeout_ms) == written_millis(
        file.compaction_timeout@,
    )
    &&& profile.record_count == file.record_count
    &&& profile.key_bytes == file.key_bytes
    &&& profile.value_bytes == file.value_bytes
    &&& profile.block_cache_bytes == file.block_cache_bytes
    &&& profile.metadata_cache_bytes == file.metadata_cache_bytes
    &&& Ok::<u64, ProfileError>(profile.warmup_ms) == written_millis(file.warmup@)
    &&& Ok::<u64, ProfileError>(profile.measurement_ms) == written_millis(file.measurement@)
    &&& profile.sst_block_bytes == file.sst_block_bytes
    &&& profile.workloads.len() == file.workloads.len()
    &&& forall|w: int|
        0 <= w < file.workloads.len() ==> describes_workload(
            file.workloads@[w],
            #[trigger] profile.workloads@[w],
        )
}

fn load_workload(file: WorkloadFile) -> (r: Result<WorkloadConfig, ProfileError>)
    ensures
        workload_file_error(file) matches Some(e) ==> r == Err::<WorkloadConfig, ProfileError>(e),
        workload_file_error(file) is None ==> r is Ok && describes_workload(file, r->Ok_0),
{
    let warmup_ms: Option<u64> = match parse_optional_ms(&file.warmup) {
        Ok(n) => n,
        Err(e) => {
            return Err(e);
        },
    };
    let measurement_ms: Option<u64> = match parse_optional_ms(&file.measurement) {
        Ok(n) => n,
        Err(e) => {
            return Err(e);
        },
    };
    Ok(
        WorkloadConfig {
            name: file.name,
            kind: file.kind,
            variants: file.variants,
            await_durable: file.await_durable,
            record_count: file.record_count,
            key_bytes: file.key_bytes,
            value_bytes: file.value_bytes,
            warmup_ms,
            measurement_ms,
        },
    )
}

fn load_workloads(files: Vec<WorkloadFile>) -> (r: Result<Vec<WorkloadConfig>, ProfileError>)
    ensures
        ({
            let error = faults::first_of(
                Seq::new(files@.len(), |w: int| workload_file_error(files@[w])),
            );
            &&& error is Some ==> r == Err::<Vec<WorkloadConfig>, ProfileError>(error->0)
            &&& error is None ==> {
                &&& r is Ok
                &&& r->Ok_0.len() == files.len()
                &&& forall|w: int|
                    0 <= w < files.len() ==> describes_workload(
                        files@[w],
                        #[trigger] r->Ok_0@[w],
                    )
            }
        }),
{
    let ghost all = files@;
    let ghost errors = Seq::new(all.len(), |w: int| workload_file_error(all[w]));
    let mut rest = files;
    let mut workloads: Vec<WorkloadConfig> = Vec::new();
    assert(rest@ =~= all.skip(0));
    assert(errors.take(0).len() == 0);
    while rest.len() > 0
        invariant
            all == files@,
            workloads.len() + rest.len() == all.len(),
            rest@ == all.skip(workloads.len() as int),
            errors == Seq::new(all.len(), |w: int| workload_file_error(all[w])),
            faults::first_of(errors.take(workloads.len() as int)) is None,
            forall|w: int|
                0 <= w < workloads.len() ==> describes_workload(all[w], #[trigger] workloads@[w]),
        decreases rest.len(),
    {
        let ghost w = workloads.len() as int;
        let file = rest.remove(0);
        proof {
            assert(file == all[w]);
            assert(rest@ =~= all.skip(w + 1));
            assert(errors[w] == workload_file_error(file));
        }
        match load_workload(file) {
            Err(e) => {
                proof {
                    faults::found_here(errors, w);
                }
                return Err(e);
            },
            Ok(workload) => {
                proof {
                    faults::nothing_yet(errors, w);
                }
                workloads.push(workload);
            },
        }
    }
    proof {
        faults::nothing_at_all(errors);
    }
    Ok(workloads)
}

/// Turns a profile file into a profile.
pub fn load_profile(file_name: &str, file: ProfileFile) -> (r: Result<ProfileConfig, ProfileError>)
    ensures
        profile_error(file_name@, file) matches Some(e) ==> r == Err::<
            ProfileConfig,
            ProfileError,
        >(e),
        profile_error(file_name@, file) is None ==> r is Ok && describes_profile(
            file_name@,
            file,
            r->Ok_0,
        ),
{
    let ghost errors = seq![
        faults::unless(profile_name(file_name@) is Some, ProfileError::InvalidFileName),
        faults::unless(file.schema_version == SCHEMA_VERSION, ProfileError::UnsupportedSchema),
        faults::first_of(
            Seq::new(file.workloads@.len(), |w: int| workload_file_error(file.workloads@[w])),
        ),
        error_of(written_millis(file.object_store_probe.throughput_warmup@)),
        error_of(written_millis(file.object_store_probe.throughput_measurement@)),
        error_of(written_millis(file.compaction_quiet@)),
        error_of(written_millis(file.compaction_timeout@)),
        error_of(written_millis(file.warmup@)),
        error_of(written_millis(file.measurement@)),
    ];
    let name: String = match strip_suffix(file_name, ".profile.toml") {
        Some(name) => name,
        None => String::new(),
    };
    let named = !name.as_str().is_empty();
    proof {
        assert(errors.take(0).len() == 0);
        assert(named <==> profile_name(file_name@) is Some);
        if !named {
            faults::found_here(errors, 0);
        } else {
            faults::nothing_yet(errors, 0);
        }
    }
    if !named {
        return Err(ProfileError::InvalidFileName);
    }
    if file.schema_version != SCHEMA_VERSION {
        proof {
            faults::found_here(errors, 1);
        }
        return Err(ProfileError::UnsupportedSchema);
    }
    proof {
        faults::nothing_yet(errors, 1);
    }
    let probe_warmup: Result<u64, ProfileError> = parse_duration_ms(
        file.object_store_probe.throughput_warmup.as_str(),
    );
    let probe_measurement: Result<u64, ProfileError> = parse_duration_ms(
        file.object_store_probe.throughput_measurement.as_str(),
    );
    let quiet: Result<u64, ProfileError> = parse_duration_ms(file.compaction_quiet.as_str());
    let timeout: Result<u64, ProfileError> = parse_duration_ms(file.compaction_timeout.as_str());
    let warmup: Result<u64, ProfileError> = parse_duration_ms(file.warmup.as_str());
    let measurement: Result<u64, ProfileError> = parse_duration_ms(file.measurement.as_str());
    let workloads = match load_workloads(file.workloads) {
        Ok(workloads) => workloads,
        Err(e) => {
            proof {
                faults::found_here(errors, 2);
            }
            return Err(e);
        },
    };
    proof {
        faults::nothing_yet(errors, 2);
    }
    let throughput_warmup_ms: u64 = match probe_warmup {
        Ok(n) => n,
        Err(e) => {
            proof {
                faults::found_here(errors, 3);
            }
            return Err(e);
        },
    };
    proof {
        faults::nothing_yet(errors, 3);
    }
    let throughput_measurement_ms: u64 = match probe_measurement {
        Ok(n) => n,
        Err(e) => {
            proof {
                faults::found_here(errors, 4);
            }
            return Err(e);
        },
    };
    proof {
        faults::nothing_yet(errors, 4);
    }
    let compaction_quiet_ms: u64 = match quiet {
        Ok(n) => n,
        Err(e) => {
            proof {
                faults::found_here(errors, 5);
            }
            return Err(e);
        },
    };
    proof {
        faults::nothing_yet(errors, 5);
    }
    let compaction_timeout_ms: u64 = match timeout {
        Ok(n) => n,
        Err(e) => {
            proof {
                faults::found_here(errors, 6);
            }
            return Err(e);
        },
    };
    proof {
        faults::nothing_yet(errors, 6);
    }
    let warmup_ms: u64 = match warmup {
        Ok(n) => n,
        Err(e) => {
            proof {
                faults::found_here(errors, 7);
            }
            return Err(e);
        },
    };
    proof {
        faults::nothing_yet(errors, 7);
    }
    let measurement_ms: u64 = match measurement {
        Ok(n) => n,
        Err(e) => {
            proof {
                faults::found_here(errors, 8);
            }
            return Err(e);
        },
    };
    proof {
        faults::nothing_yet(errors, 8);
        faults::nothing_at_all(errors);
    }
    Ok(
        ProfileConfig {
            name,
            release: file.release,
            execution: file.execution,
            object_store_probe: ProbeConfig {
                latency_operations: file.object_store_probe.latency_operations,
                latency_object_bytes: file.object_store_probe.latency_object_bytes,
                throughput_object_bytes: file.object_store_probe.throughput_object_bytes,
                throughput_concurrency: file.object_store_probe.throughput_concurrency,
                throughput_warmup_ms,
                throughput_measurement_ms,
            },
            compaction_quiet_ms,
            compaction_timeout_ms,
            record_count: file.record_count,
            key_bytes: file.key_bytes,
            value_bytes: file.value_bytes,
            block_cache_bytes: file.block_cache_bytes,
            metadata_cache_bytes: file.metadata_cache_bytes,
            warmup_ms,
            measurement_ms,
            sst_block_bytes: file.sst_block_bytes,
            workloads,
        },
    )
}

/// A profile file, under its name.
pub struct SourceFile {
    pub name: String,
    pub file: ProfileFile,
}

/// Why profiles cannot be loaded.
#[derive(Debug, Clone, Copy, PartialEq, Eq, Structural)]
pub enum LoadFault {
    NoProfiles,
    Profile(ProfileError),
    Suite(SuiteFault),
}

/// The names of profile files among some names.
pub open spec fn profiles_among(found: Seq<Seq<char>>) -> Seq<Seq<char>>
    decreases found.len(),
{
    if found.len() == 0 {
        Seq::empty()
    } else {
        let rest = profiles_among(found.drop_last());
        if text::has_suffix(found.last(), ".profile.toml"@) {
            rest.push(found.last())
        } else {
            rest
        }
    }
}

/// Selects the profile files among file names, in the order of their names.
pub fn select_profiles(found: &Vec<String>) -> (r: Result<Vec<String>, LoadFault>)
    ensures
        r is Err <==> profiles_among(text::texts(found@)).len() == 0,
        r matches Err(e) ==> e == LoadFault::NoProfiles,
        r matches Ok(names) ==> {
            &&& text::in_order(text::texts(names@))
            &&& text::texts(names@).to_multiset() == profiles_among(
                text::texts(found@),
            ).to_multiset()
        },
{
    broadcast use vstd::seq_lib::group_to_multiset_ensures;

    let ghost all = text::texts(found@);
    let mut sorted: Vec<String> = Vec::new();
    let mut i: usize = 0;
    assert(text::texts(sorted@) =~= profiles_among(all.take(0)));
    while i < found.len()
        invariant
            i <= found.len(),
            all == text::texts(found@),
            text::in_order(text::texts(sorted@)),
            text::texts(sorted@).to_multiset() == profiles_among(
                all.take(i as int),
            ).to_multiset(),
        decreases found.len() - i,
    {
        proof {
            assert(all.take(i + 1).drop_last() =~= all.take(i as int));
            assert(all.take(i + 1).last() == all[i as int]);
            vstd::seq_lib::to_multiset_build(profiles_among(all.take(i as int)), all[i as int]);
        }
        if ends_with(found[i].as_str(), ".profile.toml") {
            insert_sorted(&mut sorted, found[i].clone());
        }
        i += 1;
    }
    proof {
        assert(all.take(all.len() as int) =~= all);
        assert(text::texts(sorted@).len() == text::texts(sorted@).to_multiset().len());
        assert(profiles_among(all).len() == profiles_among(all).to_multiset().len());
    }
    if sorted.len() == 0 {
        Err(LoadFault::NoProfiles)
    } else {
        Ok(sorted)
    }
}

/// What is wrong with the first profile file that has something wrong with it.
pub open spec fn files_error(files: Seq<SourceFile>) -> Option<ProfileError> {
    faults::first_of(
        Seq::new(files.len(), |i: int| profile_error(files[i].name@, files[i].file)),
    )
}

/// Whether a suite is made of profile files, one profile for each.
pub open spec fn made_of(suite: SuiteConfig, files: Seq<SourceFile>) -> bool {
    &&& suite.schema_version == SCHEMA_VERSION
    &&& suite.profiles@.len() == files.len()
    &&& forall|i: int|
        0 <= i < files.len() ==> describes_profile(
            files[i].name@,
            files[i].file,
            #[trigger] suite.profiles@[i],
        )
}

fn load_profiles(files: Vec<SourceFile>) -> (r: Result<Vec<ProfileConfig>, ProfileError>)
    ensures
        files_error(files@) matches Some(e) ==> r == Err::<Vec<ProfileConfig>, ProfileError>(e),
        files_error(files@) is None ==> {
            &&& r is Ok
            &&& r->Ok_0.len() == files.len()
            &&& forall|i: int|
                0 <= i < files.len() ==> describes_profile(
                    files@[i].name@,
                    files@[i].file,
                    #[trigger] r->Ok_0@[i],
                )
        },
{
    let ghost all = files@;
    let ghost errors = Seq::new(all.len(), |i: int| profile_error(all[i].name@, all[i].file));
    let mut rest = files;
    let mut profiles: Vec<ProfileConfig> = Vec::new();
    assert(rest@ =~= all.skip(0));
    assert(errors.take(0).len() == 0);
    while rest.len() > 0
        invariant
            all == files@,
            profiles.len() + rest.len() == all.len(),
            rest@ == all.skip(profiles.len() as int),
            errors == Seq::new(all.len(), |i: int| profile_error(all[i].name@, all[i].file)),
            faults::first_of(errors.take(profiles.len() as int)) is None,
            forall|i: int|
                0 <= i < profiles.len() ==> describes_profile(
                    all[i].name@,
                    all[i].file,
                    #[trigger] profiles@[i],
                ),
        decreases rest.len(),
    {
        let ghost n = profiles.len() as int;
        let source = rest.remove(0);
        proof {
            assert(source == all[n]);
            assert(rest@ =~= all.skip(n + 1));
            assert(errors[n] == profile_error(source.name@, source.file));
        }
        match load_profile(source.name.as_str(), source.file) {
            Err(e) => {
                proof {
                    faults::found_here(errors, n);
                }
                return Err(e);
            },
            Ok(profile) => {
                proof {
                    faults::nothing_yet(errors, n);
                }
                profiles.push(profile);
            },
        }
    }
    proof {
        faults::nothing_at_all(errors);
    }
    Ok(profiles)
}

impl SuiteConfig {
    /// Loads a suite from its profile files, and refuses it where it is not valid.
    ///
    /// `settings` tells for each file whether the database settings of its profile can be had.
    pub fn load_from(files: Vec<SourceFile>, settings: &Vec<bool>) -> (r: Result<Self, LoadFault>)
        requires
            settings.len() == files.len(),
        ensures
            files.len() == 0 ==> r == Err::<Self, LoadFault>(LoadFault::NoProfiles),
            files.len() > 0 ==> (files_error(files@) matches Some(e) ==> r == Err::<
                Self,
                LoadFault,
            >(LoadFault::Profile(e))),
            files.len() > 0 && files_error(files@) is None ==> exists|suite: SuiteConfig|
                {
                    &&& #[trigger] made_of(suite, files@)
                    &&& match suite_fault(suite, settings@) {
                        None => r == Ok::<Self, LoadFault>(suite),
                        Some(fault) => r == Err::<Self, LoadFault>(LoadFault::Suite(fault)),
                    }
                },
    {
        if files.len() == 0 {
            return Err(LoadFault::NoProfiles);
        }
        let ghost all = files@;
        let profiles = match load_profiles(files) {
            Ok(profiles) => profiles,
            Err(e) => {
                return Err(LoadFault::Profile(e));
            },
        };
        let suite = SuiteConfig { schema_version: SCHEMA_VERSION, profiles };
        assert(made_of(suite, all));
        match suite.validate(settings) {
            Ok(_) => Ok(suite),
            Err(fault) => Err(LoadFault::Suite(fault)),
        }
    }
}

/// An accepted suite has profiles with records and workloads, a valid probe and settings, a leading
/// bulk load where they run in sequence, and variants that are named and loaded as their workload
/// asks.
pub proof fn accepted_suites_are_complete(suite: SuiteConfig, settings: Seq<bool>, at: Position)
    requires
        suite_fault(suite, settings) is None,
        is_position(suite, at),
    ensures
        ({
            let profile = suite.profiles@[at.profile];
            let workload = profile.workloads@[at.workload];
            let variant = workload.variants@[at.variant];
            let probe = profile.object_store_probe;
            let paced = workload.kind == WorkloadKind::OpenLoopRead || workload.kind
                == WorkloadKind::OpenLoopReadUpdate;
            &&& profile.key_bytes > 0 && profile.value_bytes > 0
            &&& profile.sst_block_bytes matches Some(n) ==> n == 8_192
            &&& profile.compaction_quiet_ms > 0 && profile.compaction_timeout_ms > 0
            &&& probe.latency_operations > 0 && probe.latency_object_bytes > 0
            &&& probe.throughput_object_bytes > 0 && probe.throughput_concurrency > 0
            &&& probe.throughput_measurement_ms > 0
            &&& settings[at.profile]
            &&& profile.execution != ProfileExecution::Isolated ==> {
                &&& profile.workloads@[0].kind == WorkloadKind::BulkLoad
                &&& at.workload > 0 ==> workload.kind != WorkloadKind::BulkLoad
            }
            &&& !text::is_blank(variant.name@)
            &&& paced ==> variant.target_rate is Some && variant.target_rate->0 > 0
                && variant.clients is None
            &&& !paced ==> variant.clients is Some && variant.clients->0 > 0 && variant.target_rate
                is None
        }),
{
    let profiles = suite.profiles@;
    let profile = profiles[at.profile];
    let workload = profile.workloads@[at.workload];
    let variant = workload.variants@[at.variant];
    let whole = Seq::new(profiles.len(), |p: int| profile_fault(profiles, p, settings[p]));
    assert(suite_fault(suite, settings) == faults::first_of(whole));
    faults::rows_pass_where_every_check_does(whole);
    assert(whole[at.profile] is None);
    let p = at.profile;
    let inner = Seq::new(profile.workloads@.len(), |w: int| workload_fault(profile, w));
    let checks = seq![
        faults::unless(!profile_repeats(profiles, p), SuiteFault::DuplicateProfile),
        faults::unless(profile.workloads@.len() > 0, SuiteFault::NoWorkloads),
        faults::unless(
            profile.key_bytes > 0 && profile.value_bytes > 0,
            SuiteFault::ZeroSizedRecord,
        ),
        faults::unless(
            profile.sst_block_bytes is None || profile.sst_block_bytes == Some(SST_BLOCK_BYTES),
            SuiteFault::UnsupportedBlockSize,
        ),
        faults::unless(
            profile.compaction_quiet_ms > 0 && profile.compaction_timeout_ms > 0,
            SuiteFault::ZeroCompactionTime,
        ),
        faults::unless(probe_is_valid(profile.object_store_probe), SuiteFault::InvalidProbe),
        faults::unless(settings[p], SuiteFault::NoSettings),
        faults::unless(
            profile.execution == ProfileExecution::Isolated || leads_with_bulk_load(
                profile.workloads@,
            ),
            SuiteFault::NotOneLeadingBulkLoad,
        ),
        faults::first_of(inner),
    ];
    assert(profile_fault(profiles, p, settings[p]) == faults::first_of(checks));
    faults::rows_pass_where_every_check_does(checks);
    assert(checks[2] is None && checks[3] is None && checks[4] is None && checks[5] is None
        && checks[6] is None && checks[7] is None && checks[8] is None);
    faults::rows_pass_where_every_check_does(inner);
    assert(inner[at.workload] is None);
    let variants = Seq::new(workload.variants@.len(), |v: int| variant_fault(workload, v));
    let own = seq![
        faults::unless(
            !workload_repeats(profile.workloads@, at.workload),
            SuiteFault::DuplicateWorkload,
        ),
        faults::unless(workload.variants@.len() > 0, SuiteFault::NoVariants),
        faults::first_of(variants),
    ];
    assert(workload_fault(profile, at.workload) == faults::first_of(own));
    faults::rows_pass_where_every_check_does(own);
    assert(own[2] is None);
    faults::rows_pass_where_every_check_does(variants);
    assert(variants[at.variant] is None);
    let last = seq![
        faults::unless(!text::is_blank(variant.name@), SuiteFault::UnnamedVariant),
        faults::unless(
            variant.clients != Some(0usize) && variant.target_rate != Some(0u64),
            SuiteFault::ZeroLoad,
        ),
        load_fault(workload.kind, variant),
        faults::unless(
            !variant_repeats(workload.variants@, at.variant),
            SuiteFault::DuplicateVariant,
        ),
    ];
    assert(variant_fault(workload, at.variant) == faults::first_of(last));
    faults::rows_pass_where_every_check_does(last);
    assert(last[0] is None && last[1] is None && last[2] is None);
}

proof fn found_in_workload(
    workload: WorkloadConfig,
    p: int,
    w: int,
    variant: Option<&str>,
    k: int,
    at: Position,
)
    requires
        0 <= k <= workload.variants@.len(),
    ensures
        in_workload(workload, p, w, variant, k).contains(at) <==> {
            &&& at.profile == p && at.workload == w && 0 <= at.variant < k
            &&& name_selected(workload.variants@[at.variant].name@, variant)
        },
    decreases k,
{
    if k > 0 {
        found_in_workload(workload, p, w, variant, k - 1, at);
        let rest = in_workload(workload, p, w, variant, k - 1);
        let all = in_workload(workload, p, w, variant, k);
        let here = Position { profile: p, workload: w, variant: k - 1 };
        if name_selected(workload.variants@[k - 1].name@, variant) {
            assert(all[all.len() - 1] == here);
            if rest.contains(at) {
                let i = choose|i: int| 0 <= i < rest.len() && rest[i] == at;
                assert(all[i] == at);
            }
            if all.contains(at) && at != here {
                let i = choose|i: int| 0 <= i < all.len() && all[i] == at;
                assert(rest[i] == at);
            }
        }
    }
}

proof fn joined_positions(a: Seq<Position>, b: Seq<Position>, at: Position)
    ensures
        (a + b).contains(at) <==> a.contains(at) || b.contains(at),
{
    if a.contains(at) {
        let i = choose|i: int| 0 <= i < a.len() && a[i] == at;
        assert((a + b)[i] == at);
    }
    if b.contains(at) {
        let i = choose|i: int| 0 <= i < b.len() && b[i] == at;
        assert((a + b)[a.len() + i] == at);
    }
    if (a + b).contains(at) {
        let i = choose|i: int| 0 <= i < (a + b).len() && (a + b)[i] == at;
        if i < a.len() {
            assert(a[i] == at);
        } else {
            assert(b[i - a.len()] == at);
        }
    }
}

proof fn found_in_profile(
    profile: ProfileConfig,
    p: int,
    workload: Option<&str>,
    variant: Option<&str>,
    k: int,
    at: Position,
)
    requires
        0 <= k <= profile.workloads@.len(),
    ensures
        in_profile(profile, p, workload, variant, k).contains(at) <==> {
            &&& at.profile == p && 0 <= at.workload < k
            &&& name_selected(profile.workloads@[at.workload].name@, workload)
            &&& 0 <= at.variant < profile.workloads@[at.workload].variants@.len()
            &&& name_selected(
                profile.workloads@[at.workload].variants@[at.variant].name@,
                variant,
            )
        },
    decreases k,
{
    if k > 0 {
        found_in_profile(profile, p, workload, variant, k - 1, at);
        let current = profile.workloads@[k - 1];
        let len = current.variants@.len() as int;
        found_in_workload(current, p, k - 1, variant, len, at);
        joined_positions(
            in_profile(profile, p, workload, variant, k - 1),
            in_workload(current, p, k - 1, variant, len),
            at,
        );
    }
}

/// The selected variants are exactly those whose profile, workload and variant have the given
/// names, where names are given; without a profile's name, those of every released profile.
pub proof fn selections_hold_what_is_named(
    suite: SuiteConfig,
    profile: Option<&str>,
    workload: Option<&str>,
    variant: Option<&str>,
    k: int,
    at: Position,
)
    requires
        0 <= k <= suite.profiles@.len(),
    ensures
        in_suite(suite.profiles@, profile, workload, variant, k).contains(at) <==> {
            &&& is_position(suite, at)
            &&& at.profile < k
            &&& profile is Some ==> suite.profiles@[at.profile].name@ == profile->0@
            &&& profile is None ==> suite.profiles@[at.profile].release
            &&& workload is Some ==> suite.profiles@[at.profile].workloads@[at.workload].name@
                == workload->0@
            &&& variant is Some
                ==> suite.profiles@[at.profile].workloads@[at.workload].variants@[at.variant].name@
                == variant->0@
        },
    decreases k,
{
    if k > 0 {
        selections_hold_what_is_named(suite, profile, workload, variant, k - 1, at);
        let current = suite.profiles@[k - 1];
        let len = current.workloads@.len() as int;
        found_in_profile(current, k - 1, workload, variant, len, at);
        joined_positions(
            in_suite(suite.profiles@, profile, workload, variant, k - 1),
            in_profile(current, k - 1, workload, variant, len),
            at,
        );
    }
}

/// A duration is kept in whole milliseconds, rounded down, and refused where it cannot be read or
/// counted.
pub proof fn durations_are_kept_in_milliseconds(nanos: Option<u128>)
    ensures
        millis_of(nanos) is Ok <==> nanos is Some && nanos->0 / 1_000_000 <= u64::MAX,
        millis_of(nanos) matches Ok(n) ==> n * 1_000_000 <= nanos->0 < (n + 1) * 1_000_000,
{
}

/// A profile is what its file says, under the name of the file.
pub proof fn profiles_are_what_their_files_say(
    file_name: Seq<char>,
    file: ProfileFile,
    profile: ProfileConfig,
    w: int,
)
    requires
        describes_profile(file_name, file, profile),
        0 <= w < file.workloads@.len(),
    ensures
        file_name == profile.name@ + ".profile.toml"@,
        profile.release == file.release,
        profile.execution == file.execution,
        profile.record_count == file.record_count,
        profile.key_bytes == file.key_bytes,
        profile.value_bytes == file.value_bytes,
        profile.block_cache_bytes == file.block_cache_bytes,
        profile.metadata_cache_bytes == file.metadata_cache_bytes,
        profile.sst_block_bytes == file.sst_block_bytes,
        profile.workloads@.len() == file.workloads@.len(),
        profile.workloads@[w].name == file.workloads@[w].name,
        profile.workloads@[w].kind == file.workloads@[w].kind,
        profile.workloads@[w].variants == file.workloads@[w].variants,
        profile.workloads@[w].record_count == file.workloads@[w].record_count,
        profile.workloads@[w].key_bytes == file.workloads@[w].key_bytes,
        profile.workloads@[w].value_bytes == file.workloads@[w].value_bytes,
        profile.workloads@[w].warmup_ms is Some <==> file.workloads@[w].warmup is Some,
        profile.workloads@[w].measurement_ms is Some <==> file.workloads@[w].measurement is Some,
{
    assert(describes_workload(file.workloads@[w], profile.workloads@[w]));
    let suffix = ".profile.toml"@;
    assert(file_name =~= file_name.take(file_name.len() - suffix.len()) + file_name.subrange(
        file_name.len() - suffix.len(),
        file_name.len() as int,
    ));
}

} // verus!
