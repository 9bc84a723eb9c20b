//! Databases that variants start from.

use crate::named::Named;
use crate::suite::config::{VariantConfig, WorkloadKind};
use crate::text;
use crate::text::decimal;
use vstd::prelude::*;

verus! {

/// A database that is kept unchanged, and cloned for each variant.
pub struct GoldenDatabase {
    pub path: String,
    pub checkpoint_id: String,
    pub manifest_id: u64,
    pub lsm_digest: String,
    pub size_bytes: u64,
}

/// What a golden database holds.
pub struct DatasetShape {
    pub prefix_layout: bool,
    pub record_count: u64,
    pub key_bytes: usize,
    pub value_bytes: usize,
    pub sst_block_bytes: usize,
    /// The digest of the settings of the database.
    pub settings_digest: String,
}

/// What a golden database holds, as values.
#[verifier::ext_equal]
pub struct ShapeView {
    pub prefix_layout: bool,
    pub record_count: u64,
    pub key_bytes: usize,
    pub value_bytes: usize,
    pub sst_block_bytes: usize,
    pub settings_digest: Seq<char>,
}

impl View for DatasetShape {
    type V = ShapeView;

    open spec fn view(&self) -> ShapeView {
        ShapeView {
            prefix_layout: self.prefix_layout,
            record_count: self.record_count,
            key_bytes: self.key_bytes,
            value_bytes: self.value_bytes,
            sst_block_bytes: self.sst_block_bytes,
            settings_digest: self.settings_digest@,
        }
    }
}

/// What a variant needs to start from.
pub open spec fn shape_of(variant: VariantConfig, settings_digest: Seq<char>) -> ShapeView {
    ShapeView {
        prefix_layout: variant.workload.kind == WorkloadKind::PrefixScan,
        record_count: if variant.workload.kind == WorkloadKind::SustainedIngest {
            0
        } else {
            match variant.workload.record_count {
                Some(n) => n,
                None => variant.profile.record_count,
            }
        },
        key_bytes: match variant.workload.key_bytes {
            Some(n) => n,
            None => variant.profile.key_bytes,
        },
        value_bytes: match variant.workload.value_bytes {
            Some(n) => n,
            None => variant.profile.value_bytes,
        },
        sst_block_bytes: match variant.profile.sst_block_bytes {
            Some(n) => n,
            None => 0,
        },
        settings_digest,
    }
}

/// Returns what a variant needs to start from: an ingest starts from an empty database.
pub fn dataset_shape(variant: &VariantConfig, settings_digest: String) -> (r: DatasetShape)
    ensures
        r@ == shape_of(*variant, settings_digest@),
{
    let prefix_layout = match variant.workload.kind {
        WorkloadKind::PrefixScan => true,
        _ => false,
    };
    let record_count: u64 = match variant.workload.kind {
        WorkloadKind::SustainedIngest => 0,
        _ => variant.record_count(),
    };
    let sst_block_bytes: usize = match variant.profile.sst_block_bytes {
        Some(n) => n,
        None => 0,
    };
    DatasetShape {
        prefix_layout,
        record_count,
        key_bytes: variant.key_bytes(),
        value_bytes: variant.value_bytes(),
        sst_block_bytes,
        settings_digest,
    }
}

/// The name of a kind of dataset.
pub open spec fn layout_name(prefix_layout: bool) -> Seq<char> {
    if prefix_layout {
        "prefix"@
    } else {
        "records"@
    }
}

/// A piece of a key, with what follows it.
pub open spec fn dashed(piece: Seq<char>, rest: Seq<char>) -> Seq<char> {
    piece + seq!['-'] + rest
}

/// The key of a dataset.
pub open spec fn key_of(shape: ShapeView) -> Seq<char> {
    dashed(
        layout_name(shape.prefix_layout),
        dashed(
            text::decimal_text(shape.record_count as nat),
            dashed(
                text::decimal_text(shape.key_bytes as nat),
                dashed(
                    text::decimal_text(shape.value_bytes as nat),
                    dashed(
                        text::decimal_text(shape.sst_block_bytes as nat),
                        shape.settings_digest,
                    ),
                ),
            ),
        ),
    )
}

fn with_dash(piece: String, rest: String) -> (r: String)
    ensures
        r@ == dashed(piece@, rest@),
{
    let mut out = piece;
    out.push('-');
    let r = out.concat(rest.as_str());
    assert(r@ =~= dashed(piece@, rest@));
    r
}

impl DatasetShape {
    /// Returns the key of the dataset.
    pub fn key(&self) -> (r: String)
        ensures
            r@ == key_of(self@),
    {
        let layout = if self.prefix_layout {
            "prefix".to_string()
        } else {
            "records".to_string()
        };
        let rest = with_dash(
            decimal(self.sst_block_bytes as u64),
            self.settings_digest.clone(),
        );
        let rest = with_dash(decimal(self.value_bytes as u64), rest);
        let rest = with_dash(decimal(self.key_bytes as u64), rest);
        let rest = with_dash(decimal(self.record_count), rest);
        with_dash(layout, rest)
    }
}

proof fn dashes_part(a: Seq<char>, x: Seq<char>, b: Seq<char>, y: Seq<char>)
    requires
        dashed(a, x) == dashed(b, y),
        !a.contains('-'),
        !b.contains('-'),
    ensures
        a == b,
        x == y,
{
    let s = dashed(a, x);
    assert(s[a.len() as int] == '-');
    assert(s[b.len() as int] == '-');
    if a.len() < b.len() {
        assert(b[a.len() as int] == s[a.len() as int]);
        assert(b.contains('-'));
    }
    if b.len() < a.len() {
        assert(a[b.len() as int] == s[b.len() as int]);
        assert(a.contains('-'));
    }
    assert(a =~= s.take(a.len() as int));
    assert(b =~= s.take(a.len() as int));
    assert(x =~= s.skip(a.len() as int + 1));
    assert(y =~= s.skip(a.len() as int + 1));
}

proof fn numbers_have_no_dash(n: nat)
    ensures
        !text::decimal_text(n).contains('-'),
{
    text::written_numbers_read_back(n);
    if text::decimal_text(n).contains('-') {
        let i = choose|i: int|
            0 <= i < text::decimal_text(n).len() && text::decimal_text(n)[i] == '-';
        assert(text::is_digit(text::decimal_text(n)[i]));
    }
}

proof fn numbers_part(m: nat, x: Seq<char>, n: nat, y: Seq<char>)
    requires
        dashed(text::decimal_text(m), x) == dashed(text::decimal_text(n), y),
    ensures
        m == n,
        x == y,
{
    numbers_have_no_dash(m);
    numbers_have_no_dash(n);
    dashes_part(text::decimal_text(m), x, text::decimal_text(n), y);
    text::written_numbers_read_back(m);
    text::written_numbers_read_back(n);
}

/// Datasets that have the same key are the same: variants that share a golden database need the
/// same records, layout and settings.
pub proof fn keys_identify_datasets(a: ShapeView, b: ShapeView)
    requires
        key_of(a) == key_of(b),
    ensures
        a == b,
{
    reveal_strlit("prefix");
    reveal_strlit("records");
    let x4 = dashed(text::decimal_text(a.sst_block_bytes as nat), a.settings_digest);
    let y4 = dashed(text::decimal_text(b.sst_block_bytes as nat), b.settings_digest);
    let x3 = dashed(text::decimal_text(a.value_bytes as nat), x4);
    let y3 = dashed(text::decimal_text(b.value_bytes as nat), y4);
    let x2 = dashed(text::decimal_text(a.key_bytes as nat), x3);
    let y2 = dashed(text::decimal_text(b.key_bytes as nat), y3);
    let x1 = dashed(text::decimal_text(a.record_count as nat), x2);
    let y1 = dashed(text::decimal_text(b.record_count as nat), y2);
    let p = layout_name(a.prefix_layout);
    let q = layout_name(b.prefix_layout);
    assert(!p.contains('-')) by {
        if p.contains('-') {
            let i = choose|i: int| 0 <= i < p.len() && p[i] == '-';
            assert(false);
        }
    }
    assert(!q.contains('-')) by {
        if q.contains('-') {
            let i = choose|i: int| 0 <= i < q.len() && q[i] == '-';
            assert(false);
        }
    }
    dashes_part(p, x1, q, y1);
    assert("prefix"@.len() != "records"@.len());
    numbers_part(a.record_count as nat, x2, b.record_count as nat, y2);
    numbers_part(a.key_bytes as nat, x3, b.key_bytes as nat, y3);
    numbers_part(a.value_bytes as nat, x4, b.value_bytes as nat, y4);
    numbers_part(
        a.sst_block_bytes as nat,
        a.settings_digest,
        b.sst_block_bytes as nat,
        b.settings_digest,
    );
}

/// A golden database that has to be built.
pub struct GoldenPlan {
    pub key: String,
    pub path: String,
    pub checkpoint_name: String,
}

/// The checkpoint of a golden database has no manifest.
#[derive(Debug, Clone, Copy, PartialEq, Eq, Structural)]
pub struct NoManifest;

/// Keeps golden databases, so that variants of the same dataset share one.
pub struct GoldenManager {
    root: String,
    values: Named<GoldenDatabase>,
    cleanup_paths: Vec<String>,
}

impl GoldenManager {
    /// Where the golden databases are.
    pub closed spec fn place(&self) -> Seq<char> {
        self.root@
    }

    /// The golden database of each dataset.
    pub closed spec fn goldens(&self) -> Map<Seq<char>, GoldenDatabase> {
        self.values.map()
    }

    /// What has to be removed at the end.
    pub closed spec fn to_remove(&self) -> Seq<Seq<char>> {
        text::texts(self.cleanup_paths@)
    }

    /// The golden databases are in order.
    pub closed spec fn wf(&self) -> bool {
        self.values.wf()
    }

    /// Starts without golden databases.
    pub fn new(root: String) -> (r: Self)
        ensures
            r.wf(),
            r.place() == root@,
            r.goldens() == Map::<Seq<char>, GoldenDatabase>::empty(),
            r.to_remove() == Seq::<Seq<char>>::empty(),
    {
        let r = GoldenManager { root, values: Named::new(), cleanup_paths: Vec::new() };
        assert(r.to_remove() =~= Seq::<Seq<char>>::empty());
        r
    }

    /// Returns the golden database of a dataset, if it was built.
    pub fn find(&self, key: &str) -> (r: Option<&GoldenDatabase>)
        requires
            self.wf(),
        ensures
            r is Some <==> self.goldens().dom().contains(key@),
            r matches Some(golden) ==> *golden == self.goldens()[key@],
    {
        self.values.get(key)
    }

    /// Plans to build the golden database of a dataset.
    pub fn plan(&self, key: String) -> (r: GoldenPlan)
        ensures
            r.key@ == key@,
            r.path@ == self.place() + "/golden/"@ + key@,
            r.checkpoint_name@ == "benchmark-"@ + key@,
    {
        let path = self.root.clone().concat("/golden/").concat(key.as_str());
        let checkpoint_name = "benchmark-".to_string().concat(key.as_str());
        GoldenPlan { key, path, checkpoint_name }
    }

    /// Keeps a golden database that was built, unless its checkpoint has no manifest.
    pub fn built(
        &mut self,
        plan: GoldenPlan,
        checkpoint_id: String,
        manifest_id: u64,
        lsm_digest: Option<String>,
        size_bytes: u64,
    ) -> (r: Result<(), NoManifest>)
        requires
            old(self).wf(),
        ensures
            final(self).wf(),
            final(self).place() == old(self).place(),
            r is Ok <==> lsm_digest is Some,
            r is Err ==> *final(self) == *old(self),
            r is Ok ==> {
                &&& final(self).goldens().dom() == old(self).goldens().dom().insert(plan.key@)
                &&& forall|k: Seq<char>|
                    k != plan.key@ && old(self).goldens().dom().contains(k)
                        ==> #[trigger] final(self).goldens()[k] == old(self).goldens()[k]
                &&& final(self).goldens()[plan.key@].path@ == plan.path@
                &&& final(self).goldens()[plan.key@].checkpoint_id == checkpoint_id
                &&& final(self).goldens()[plan.key@].manifest_id == manifest_id
                &&& Some(final(self).goldens()[plan.key@].lsm_digest) == lsm_digest
                &&& final(self).goldens()[plan.key@].size_bytes == size_bytes
                &&& final(self).to_remove() == old(self).to_remove().push(plan.path@)
            },
    {
        let lsm_digest = match lsm_digest {
            Some(digest) => digest,
            None => {
                return Err(NoManifest);
            },
        };
        let ghost before = *self;
        self.cleanup_paths.push(plan.path.clone());
        let golden = GoldenDatabase {
            path: plan.path,
            checkpoint_id,
            manifest_id,
            lsm_digest,
            size_bytes,
        };
        self.values.put(plan.key, golden);
        proof {
            assert(self.to_remove() =~= before.to_remove().push(plan.path@));
            assert(self.goldens().dom() =~= before.goldens().dom().insert(plan.key@));
        }
        Ok(())
    }

    /// Takes note of a path that has to be removed at the end.
    pub fn remove_later(&mut self, path: String)
        requires
            old(self).wf(),
        ensures
            final(self).wf(),
            final(self).place() == old(self).place(),
            final(self).goldens() == old(self).goldens(),
            final(self).to_remove() == old(self).to_remove().push(path@),
    {
        let ghost before = *self;
        self.cleanup_paths.push(path);
        assert(self.to_remove() =~= before.to_remove().push(path@));
    }

    /// Returns the number of golden databases.
    pub fn len(&self) -> (r: usize)
        requires
            self.wf(),
        ensures
            r == self.goldens().dom().len(),
    {
        proof {
            self.values.names_are_counted();
        }
        self.values.len()
    }

    /// Returns the paths that have to be removed at the end, in the order in which they came.
    pub fn cleanup(&self) -> (r: &Vec<String>)
        ensures
            text::texts(r@) == self.to_remove(),
    {
        &self.cleanup_paths
    }
}

/// The settings that decide how fast a database takes writes.
#[derive(Debug, Clone, Copy, PartialEq, Eq, Structural)]
pub struct LoadSettings {
    pub flush_interval_ms: Option<u64>,
    pub wal_enabled: bool,
    /// Whether the database compacts by itself.
    pub compactor: bool,
    pub l0_max_ssts: u64,
    pub l0_max_ssts_per_key: u64,
}

/// Returns the settings of a bulk load: without a log, without compaction, and without a limit on
/// tables that were not compacted.
pub fn bulk_load_settings(settings: &LoadSettings) -> (r: LoadSettings)
    ensures
        r == (LoadSettings {
            flush_interval_ms: settings.flush_interval_ms,
            wal_enabled: false,
            compactor: false,
            l0_max_ssts: u32::MAX as u64,
            l0_max_ssts_per_key: u32::MAX as u64,
        }),
{
    LoadSettings {
        flush_interval_ms: settings.flush_interval_ms,
        wal_enabled: false,
        compactor: false,
        l0_max_ssts: u32::MAX as u64,
        l0_max_ssts_per_key: u32::MAX as u64,
    }
}

/// Waits until a database is quiet.
#[derive(Debug, Clone, Copy, PartialEq, Eq, Structural)]
pub struct CompactionWait {
    pub started_ms: u64,
    pub stable_since_ms: u64,
    pub manifest_id: u64,
    pub timeout_ms: u64,
    pub quiet_ms: u64,
}

impl CompactionWait {
    /// Starts to wait.
    pub fn start(now_ms: u64, manifest_id: u64, timeout_ms: u64, quiet_ms: u64) -> (r: Self)
        ensures
            r == (CompactionWait {
                started_ms: now_ms,
                stable_since_ms: now_ms,
                manifest_id,
                timeout_ms,
                quiet_ms,
            }),
    {
        CompactionWait {
            started_ms: now_ms,
            stable_since_ms: now_ms,
            manifest_id,
            timeout_ms,
            quiet_ms,
        }
    }

    /// Tells whether the wait has taken too long.
    pub fn timed_out(&self, now_ms: u64) -> (r: bool)
        ensures
            r == (now_ms - self.started_ms > self.timeout_ms),
    {
        now_ms > self.started_ms && now_ms - self.started_ms > self.timeout_ms
    }

    /// The wait after a look at the manifest.
    pub open spec fn with_manifest(self, now_ms: u64, manifest_id: u64) -> Self {
        if manifest_id != self.manifest_id {
            CompactionWait { manifest_id, stable_since_ms: now_ms, ..self }
        } else {
            self
        }
    }

    /// Looks at the database: it is quiet when nothing runs and its manifest has not changed for
    /// long enough.
    pub fn observe(&mut self, now_ms: u64, manifest_id: u64, running: bool) -> (r: bool)
        ensures
            *final(self) == old(self).with_manifest(now_ms, manifest_id),
            r == (!running && now_ms - final(self).stable_since_ms >= final(self).quiet_ms),
    {
        if manifest_id != self.manifest_id {
            self.manifest_id = manifest_id;
            self.stable_since_ms = now_ms;
        }
        !running && now_ms >= self.stable_since_ms && now_ms - self.stable_since_ms
            >= self.quiet_ms
    }
}

/// A database whose manifest has just changed is not quiet, unless no quiet is asked for.
pub proof fn changes_break_the_quiet(wait: CompactionWait, now_ms: u64, manifest_id: u64)
    requires
        manifest_id != wait.manifest_id,
        wait.quiet_ms > 0,
    ensures
        now_ms - wait.with_manifest(now_ms, manifest_id).stable_since_ms < wait.quiet_ms,
{
}

/// A dataset has the shape of its variant: the workload's own sizes before the profile's, no
/// records where the workload starts empty, and prefixes where it scans them.
pub proof fn shapes_follow_their_variants(variant: VariantConfig, settings_digest: Seq<char>)
    ensures
        ({
            let s = shape_of(variant, settings_digest);
            let w = variant.workload;
            let p = variant.profile;
            &&& s.prefix_layout <==> w.kind == WorkloadKind::PrefixScan
            &&& w.kind == WorkloadKind::SustainedIngest ==> s.record_count == 0
            &&& w.kind != WorkloadKind::SustainedIngest && w.record_count is Some ==> s.record_count
                == w.record_count->0
            &&& w.kind != WorkloadKind::SustainedIngest && w.record_count is None ==> s.record_count
                == p.record_count
            &&& w.key_bytes is Some ==> s.key_bytes == w.key_bytes->0
            &&& w.key_bytes is None ==> s.key_bytes == p.key_bytes
            &&& w.value_bytes is Some ==> s.value_bytes == w.value_bytes->0
            &&& w.value_bytes is None ==> s.value_bytes == p.value_bytes
            &&& p.sst_block_bytes is Some ==> s.sst_block_bytes == p.sst_block_bytes->0
            &&& p.sst_block_bytes is None ==> s.sst_block_bytes == 0
            &&& s.settings_digest == settings_digest
        }),
{
}

/// A new manifest restarts the quiet time, and the same one does not.
pub proof fn manifests_restart_the_quiet(wait: CompactionWait, now_ms: u64, manifest_id: u64)
    ensures
        manifest_id == wait.manifest_id ==> wait.with_manifest(now_ms, manifest_id) == wait,
        manifest_id != wait.manifest_id ==> {
            let w = wait.with_manifest(now_ms, manifest_id);
            &&& w.stable_since_ms == now_ms
            &&& w.manifest_id == manifest_id
            &&& w.quiet_ms == wait.quiet_ms
        },
{
}

} // verus!
