//! Checkpoints: what is recorded of them, and whether it still holds.

use crate::config::ResolvedConfig;
use crate::count;
use crate::model::{CheckpointReference, GoldenDatasetMetadata};
use crate::text::same_text;
use crate::validation;
use crate::validation::parses_as_uuid;
use vstd::prelude::*;

verus! {

/// How long compaction must be quiet before it counts as settled.
pub const COMPACTION_QUIET_MS: u64 = 60_000;

/// Why a recorded checkpoint is refused.
#[derive(Debug, Clone, Copy, PartialEq, Eq, Structural)]
pub enum CheckpointFault {
    InvalidId,
    Missing,
    ManifestChanged,
    ManifestMissing,
    DigestChanged,
    SizeChanged,
    NoL0Tables,
    SortedRuns,
}

/// What a database says of a checkpoint.
pub struct CheckpointFacts {
    /// The manifest of the checkpoint with the recorded identifier, where there is one.
    pub manifest_id: Option<u64>,
    /// What the recorded manifest holds, where there is one.
    pub manifest: Option<ManifestFacts>,
}

/// What a manifest holds.
pub struct ManifestFacts {
    /// The digest of its layout.
    pub digest: String,
    /// Compressed bytes of its live tables.
    pub live_bytes: u64,
}

/// What has changed about a checkpoint, given whether its recorded identifier is a UUID.
pub open spec fn reference_fault(
    recorded: CheckpointReference,
    id_is_uuid: bool,
    facts: CheckpointFacts,
) -> Option<CheckpointFault> {
    if !id_is_uuid {
        Some(CheckpointFault::InvalidId)
    } else if facts.manifest_id is None {
        Some(CheckpointFault::Missing)
    } else if facts.manifest_id->0 != recorded.manifest_id {
        Some(CheckpointFault::ManifestChanged)
    } else if facts.manifest is None {
        Some(CheckpointFault::ManifestMissing)
    } else if facts.manifest->0.digest@ != recorded.lsm_digest_sha256@ {
        Some(CheckpointFault::DigestChanged)
    } else if facts.manifest->0.live_bytes != recorded.live_sst_bytes {
        Some(CheckpointFault::SizeChanged)
    } else {
        None
    }
}

/// Checks that a recorded checkpoint still exists unchanged, given whether its identifier is a
/// UUID.
pub fn check_checkpoint_reference(
    recorded: &CheckpointReference,
    id_is_uuid: bool,
    facts: &CheckpointFacts,
) -> (r: Result<(), CheckpointFault>)
    ensures
        reference_fault(*recorded, id_is_uuid, *facts) matches Some(f) ==> r == Err::<
            (),
            CheckpointFault,
        >(f),
        reference_fault(*recorded, id_is_uuid, *facts) is None ==> r == Ok::<(), CheckpointFault>(
            (),
        ),
{
    if !id_is_uuid {
        return Err(CheckpointFault::InvalidId);
    }
    match facts.manifest_id {
        None => {
            return Err(CheckpointFault::Missing);
        },
        Some(id) => {
            if id != recorded.manifest_id {
                return Err(CheckpointFault::ManifestChanged);
            }
        },
    }
    match &facts.manifest {
        None => Err(CheckpointFault::ManifestMissing),
        Some(manifest) => {
            if !same_text(manifest.digest.as_str(), recorded.lsm_digest_sha256.as_str()) {
                Err(CheckpointFault::DigestChanged)
            } else if manifest.live_bytes != recorded.live_sst_bytes {
                Err(CheckpointFault::SizeChanged)
            } else {
                Ok(())
            }
        },
    }
}

/// Checks that a recorded checkpoint still exists unchanged.
pub fn verify_checkpoint_reference(recorded: &CheckpointReference, facts: &CheckpointFacts) -> (r:
    Result<(), CheckpointFault>)
    ensures
        r == (match reference_fault(
            *recorded,
            validation::is_uuid(recorded.checkpoint_id@),
            *facts,
        ) {
            Some(fault) => Err(fault),
            None => Ok(()),
        }),
{
    check_checkpoint_reference(recorded, parses_as_uuid(recorded.checkpoint_id.as_str()), facts)
}

/// The number of tables in the levels of one part of a manifest.
#[derive(Debug, Clone, Copy, PartialEq, Eq, Structural)]
pub struct LevelShape {
    pub l0: usize,
    pub sorted_runs: usize,
}

/// Whether some part has tables in the first level.
pub open spec fn has_l0(parts: Seq<LevelShape>) -> bool {
    exists|i: int| 0 <= i < parts.len() && (#[trigger] parts[i]).l0 > 0
}

/// Whether some part has sorted runs.
pub open spec fn has_sorted_runs(parts: Seq<LevelShape>) -> bool {
    exists|i: int| 0 <= i < parts.len() && (#[trigger] parts[i]).sorted_runs > 0
}

/// Checks that a checkpoint holds tables, none of them compacted into sorted runs.
///
/// The parts of a manifest are its own levels and those of its segments.
pub fn validate_uncompacted_checkpoint(parts: &Vec<LevelShape>) -> (r: Result<(), CheckpointFault>)
    ensures
        !has_l0(parts@) ==> r == Err::<(), CheckpointFault>(CheckpointFault::NoL0Tables),
        has_l0(parts@) && has_sorted_runs(parts@) ==> r == Err::<(), CheckpointFault>(
            CheckpointFault::SortedRuns,
        ),
        has_l0(parts@) && !has_sorted_runs(parts@) ==> r == Ok::<(), CheckpointFault>(()),
{
    let mut tables = false;
    let mut runs = false;
    let mut i: usize = 0;
    while i < parts.len()
        invariant
            i <= parts.len(),
            tables <==> exists|k: int| 0 <= k < i && (#[trigger] parts@[k]).l0 > 0,
            runs <==> exists|k: int| 0 <= k < i && (#[trigger] parts@[k]).sorted_runs > 0,
        decreases parts.len() - i,
    {
        let ghost now = parts@[i as int];
        if parts[i].l0 > 0 {
            assert(now.l0 > 0);
            tables = true;
        }
        if parts[i].sorted_runs > 0 {
            assert(now.sorted_runs > 0);
            runs = true;
        }
        i += 1;
    }
    if !tables {
        Err(CheckpointFault::NoL0Tables)
    } else if runs {
        Err(CheckpointFault::SortedRuns)
    } else {
        Ok(())
    }
}

/// Describes the dataset that a checkpoint holds.
pub fn dataset_metadata(config: &ResolvedConfig, checkpoint: &CheckpointReference) -> (r:
    GoldenDatasetMetadata)
    ensures
        r == (GoldenDatasetMetadata {
            record_count: config.dataset.record_count,
            key_bytes: config.dataset.key_bytes,
            value_bytes: config.dataset.value_bytes,
            logical_bytes: count::capped_product(
                config.dataset.record_count,
                config.dataset.record_bytes(),
            ),
            live_sst_bytes: checkpoint.live_sst_bytes,
        }),
{
    GoldenDatasetMetadata {
        record_count: config.dataset.record_count,
        key_bytes: config.dataset.key_bytes,
        value_bytes: config.dataset.value_bytes,
        logical_bytes: config.dataset.logical_bytes(),
        live_sst_bytes: checkpoint.live_sst_bytes,
    }
}

/// How far a compaction has come.
#[derive(Debug, Clone, Copy, PartialEq, Eq, Structural)]
pub enum CompactionStatus {
    Submitted,
    Scheduled,
    Running,
    Compacted,
    Completed,
    Failed,
}

impl CompactionStatus {
    /// Whether a compaction is still to change the database.
    pub open spec fn pending(self) -> bool {
        self != CompactionStatus::Completed && self != CompactionStatus::Failed
    }
}

/// A compaction failed, with its position in the list.
#[derive(Debug, Clone, Copy, PartialEq, Eq, Structural)]
pub struct FailedCompaction(pub usize);

/// Whether no compaction before a position failed.
pub open spec fn none_failed(statuses: Seq<CompactionStatus>, upto: int) -> bool {
    forall|i: int| 0 <= i < upto ==> #[trigger] statuses[i] != CompactionStatus::Failed
}

/// Whether some compaction is still to change the database.
pub open spec fn some_pending(statuses: Seq<CompactionStatus>) -> bool {
    exists|i: int| 0 <= i < statuses.len() && (#[trigger] statuses[i]).pending()
}

/// Finds the first compaction that failed, or says whether one is pending.
fn survey(statuses: &Vec<CompactionStatus>) -> (r: Result<bool, FailedCompaction>)
    ensures
        r is Ok <==> none_failed(statuses@, statuses.len() as int),
        r matches Ok(pending) ==> pending == some_pending(statuses@),
        r matches Err(f) ==> f.0 < statuses.len() && statuses@[f.0 as int]
            == CompactionStatus::Failed && none_failed(statuses@, f.0 as int),
{
    let mut pending = false;
    let mut i: usize = 0;
    while i < statuses.len()
        invariant
            i <= statuses.len(),
            none_failed(statuses@, i as int),
            pending <==> exists|k: int| 0 <= k < i && (#[trigger] statuses@[k]).pending(),
        decreases statuses.len() - i,
    {
        let ghost now = statuses@[i as int];
        match statuses[i] {
            CompactionStatus::Failed => {
                assert(statuses@[i as int] == CompactionStatus::Failed);
                return Err(FailedCompaction(i));
            },
            CompactionStatus::Completed => {},
            _ => {
                assert(now.pending());
                pending = true;
            },
        }
        i += 1;
    }
    Ok(pending)
}

/// Checks that no compaction failed.
pub fn ensure_no_failed_compactions(statuses: &Vec<CompactionStatus>) -> (r: Result<
    (),
    FailedCompaction,
>)
    ensures
        r is Ok <==> none_failed(statuses@, statuses.len() as int),
        r matches Err(f) ==> f.0 < statuses.len() && statuses@[f.0 as int]
            == CompactionStatus::Failed && none_failed(statuses@, f.0 as int),
{
    match survey(statuses) {
        Ok(_) => Ok(()),
        Err(f) => Err(f),
    }
}

/// The versions of a database's manifest and of its list of compactions.
#[derive(Debug, Clone, Copy, PartialEq, Eq)]
pub struct CompactorVersion {
    pub manifest: u64,
    pub compactions: Option<u64>,
}

/// Watches a compactor until it has been idle and unchanged for some time.
#[derive(Debug, Clone, Copy)]
pub struct QuietWatch {
    pub stable_since: u64,
    pub last: Option<CompactorVersion>,
}

impl QuietWatch {
    /// Starts watching.
    pub fn new(now: u64) -> (r: Self)
        ensures
            r == (QuietWatch { stable_since: now, last: None }),
    {
        QuietWatch { stable_since: now, last: None }
    }

    /// The watch after a version was seen.
    pub open spec fn seeing(self, version: CompactorVersion, now: u64) -> Self {
        if self.last == Some(version) {
            self
        } else {
            QuietWatch { stable_since: now, last: Some(version) }
        }
    }

    /// Takes note of a compactor's state, and says whether it has settled.
    ///
    /// `read_at` is the time right after the state was read, and `now` that of the decision.
    pub fn observe(
        &mut self,
        version: CompactorVersion,
        statuses: &Vec<CompactionStatus>,
        read_at: u64,
        now: u64,
        quiet_ns: u64,
    ) -> (r: Result<bool, FailedCompaction>)
        ensures
            *final(self) == old(self).seeing(version, read_at),
            r is Ok <==> none_failed(statuses@, statuses.len() as int),
            r matches Ok(settled) ==> settled == (!some_pending(statuses@)
                && count::floored_difference(now, final(self).stable_since) >= quiet_ns),
            r matches Err(f) ==> f.0 < statuses.len() && statuses@[f.0 as int]
                == CompactionStatus::Failed && none_failed(statuses@, f.0 as int),
    {
        let unchanged = match self.last {
            Some(last) => {
                let same_list = match (last.compactions, version.compactions) {
                    (Some(a), Some(b)) => a == b,
                    (None, None) => true,
                    _ => false,
                };
                last.manifest == version.manifest && same_list
            },
            None => false,
        };
        if !unchanged {
            self.last = Some(version);
            self.stable_since = read_at;
        }
        match survey(statuses) {
            Ok(pending) => Ok(!pending && crate::count::minus(now, self.stable_since) >= quiet_ns),
            Err(f) => Err(f),
        }
    }
}

/// A compactor settles only if its last change is at least the quiet time ago.
pub proof fn settling_takes_quiet(
    watch: QuietWatch,
    version: CompactorVersion,
    read_at: u64,
    now: u64,
    quiet_ns: u64,
)
    requires
        watch.last != Some(version),
        quiet_ns > 0,
        now - read_at < quiet_ns,
    ensures
        count::floored_difference(now, watch.seeing(version, read_at).stable_since) < quiet_ns,
{
}

/// A recorded checkpoint is accepted exactly where it has a readable identifier and still exists,
/// and its manifest, digest and size are those that were recorded.
pub proof fn checkpoints_are_verified(
    recorded: CheckpointReference,
    id_is_uuid: bool,
    facts: CheckpointFacts,
)
    ensures
        reference_fault(recorded, id_is_uuid, facts) is None <==> {
            &&& id_is_uuid
            &&& facts.manifest_id == Some(recorded.manifest_id)
            &&& facts.manifest is Some
            &&& facts.manifest->0.digest@ == recorded.lsm_digest_sha256@
            &&& facts.manifest->0.live_bytes == recorded.live_sst_bytes
        },
        !id_is_uuid ==> reference_fault(recorded, id_is_uuid, facts) == Some(
            CheckpointFault::InvalidId,
        ),
        id_is_uuid && facts.manifest_id is None ==> reference_fault(recorded, id_is_uuid, facts)
            == Some(CheckpointFault::Missing),
{
}

/// A change restarts the quiet time, and the same version again does not.
pub proof fn changes_restart_the_quiet(watch: QuietWatch, version: CompactorVersion, now: u64)
    ensures
        watch.last == Some(version) ==> watch.seeing(version, now).stable_since
            == watch.stable_since,
        watch.last != Some(version) ==> watch.seeing(version, now).stable_since == now,
        watch.seeing(version, now).last == Some(version),
{
}

/// A compaction is pending from the time it is known until it completes or fails.
pub proof fn unfinished_compactions_are_pending(statuses: Seq<CompactionStatus>, i: int)
    requires
        0 <= i < statuses.len(),
    ensures
        statuses[i] != CompactionStatus::Completed && statuses[i] != CompactionStatus::Failed
            ==> some_pending(statuses),
        some_pending(statuses) ==> exists|k: int|
            0 <= k < statuses.len() && #[trigger] statuses[k] != CompactionStatus::Completed
                && statuses[k] != CompactionStatus::Failed,
        none_failed(statuses, statuses.len() as int) ==> statuses[i] != CompactionStatus::Failed,
{
    if statuses[i] != CompactionStatus::Completed && statuses[i] != CompactionStatus::Failed {
        assert(statuses[i].pending());
    }
    if some_pending(statuses) {
        let k = choose|k: int| 0 <= k < statuses.len() && (#[trigger] statuses[k]).pending();
        assert(statuses[k] != CompactionStatus::Completed);
    }
}

} // verus!
