//! Correctness counters of clients, apart from what is published.

use crate::count;
use crate::count::{max_of, plus};
use crate::system::{Activity, ApplicationRecorder, ApplicationRegistry};
use crate::workloads::durability::AcceptedWrite;
use vstd::prelude::*;

verus! {

/// Counters of one client, used to validate a workload after a phase.
#[derive(Debug, Clone, Copy, PartialEq, Eq, Structural)]
pub struct WorkerStats {
    /// Failed calls and unexpected missing values.
    pub errors: u64,
    /// Reads that returned values.
    pub read_hits: u64,
    /// Reads that returned no value.
    pub read_misses: u64,
    /// Records that scans returned.
    pub scan_records: u64,
    /// Scans that reached the end of the database.
    pub scan_end_calls: u64,
    /// Writes accepted for durability tracking.
    pub writes: u64,
    /// Greatest sequence of an accepted write.
    pub last_write_sequence: Option<u64>,
    /// Transactions that were started.
    pub transaction_attempts: u64,
    /// Transactions that committed.
    pub transaction_commits: u64,
    /// Transactions that were rejected because of a conflict.
    pub transaction_conflicts: u64,
}

/// The later of two sequences, where there are any.
pub open spec fn later(a: Option<u64>, b: Option<u64>) -> Option<u64> {
    match (a, b) {
        (Some(x), Some(y)) => Some(count::larger(x, y)),
        (Some(x), None) => Some(x),
        (None, _) => b,
    }
}

impl WorkerStats {
    /// Counters of a client that did nothing.
    pub open spec fn zero() -> Self {
        WorkerStats {
            errors: 0,
            read_hits: 0,
            read_misses: 0,
            scan_records: 0,
            scan_end_calls: 0,
            writes: 0,
            last_write_sequence: None,
            transaction_attempts: 0,
            transaction_commits: 0,
            transaction_conflicts: 0,
        }
    }

    /// The counters of two clients together.
    pub open spec fn merged(self, other: Self) -> Self {
        WorkerStats {
            errors: count::capped_sum(self.errors, other.errors),
            read_hits: count::capped_sum(self.read_hits, other.read_hits),
            read_misses: count::capped_sum(self.read_misses, other.read_misses),
            scan_records: count::capped_sum(self.scan_records, other.scan_records),
            scan_end_calls: count::capped_sum(self.scan_end_calls, other.scan_end_calls),
            writes: count::capped_sum(self.writes, other.writes),
            last_write_sequence: later(self.last_write_sequence, other.last_write_sequence),
            transaction_attempts: count::capped_sum(
                self.transaction_attempts,
                other.transaction_attempts,
            ),
            transaction_commits: count::capped_sum(
                self.transaction_commits,
                other.transaction_commits,
            ),
            transaction_conflicts: count::capped_sum(
                self.transaction_conflicts,
                other.transaction_conflicts,
            ),
        }
    }

    /// The counters after one more error.
    pub open spec fn with_error(self) -> Self {
        WorkerStats { errors: count::capped_sum(self.errors, 1), ..self }
    }

    /// The counters after an accepted write.
    pub open spec fn with_write(self, sequence: u64) -> Self {
        WorkerStats {
            writes: count::capped_sum(self.writes, 1),
            last_write_sequence: later(self.last_write_sequence, Some(sequence)),
            ..self
        }
    }

    /// Counters that start from zero.
    pub fn new() -> (r: Self)
        ensures
            r == WorkerStats::zero(),
    {
        WorkerStats {
            errors: 0,
            read_hits: 0,
            read_misses: 0,
            scan_records: 0,
            scan_end_calls: 0,
            writes: 0,
            last_write_sequence: None,
            transaction_attempts: 0,
            transaction_commits: 0,
            transaction_conflicts: 0,
        }
    }

    /// Adds the counters of another client.
    pub fn merge(&mut self, other: &Self)
        ensures
            *final(self) == old(self).merged(*other),
    {
        self.errors = plus(self.errors, other.errors);
        self.read_hits = plus(self.read_hits, other.read_hits);
        self.read_misses = plus(self.read_misses, other.read_misses);
        self.scan_records = plus(self.scan_records, other.scan_records);
        self.scan_end_calls = plus(self.scan_end_calls, other.scan_end_calls);
        self.writes = plus(self.writes, other.writes);
        self.last_write_sequence = match (self.last_write_sequence, other.last_write_sequence) {
            (Some(left), Some(right)) => Some(max_of(left, right)),
            (Some(left), None) => Some(left),
            (None, right) => right,
        };
        self.transaction_attempts = plus(self.transaction_attempts, other.transaction_attempts);
        self.transaction_commits = plus(self.transaction_commits, other.transaction_commits);
        self.transaction_conflicts = plus(self.transaction_conflicts, other.transaction_conflicts);
    }

    /// Counts an accepted write, and returns what durability tracking needs of it.
    pub fn record_write(&mut self, sequence: u64, returned_at: u64) -> (r: AcceptedWrite)
        ensures
            *final(self) == old(self).with_write(sequence),
            r == (AcceptedWrite { sequence, returned_at }),
    {
        self.writes = plus(self.writes, 1);
        self.last_write_sequence = match self.last_write_sequence {
            Some(current) => Some(max_of(current, sequence)),
            None => Some(sequence),
        };
        AcceptedWrite { sequence, returned_at }
    }

    /// Counts an error.
    pub fn count_error(&mut self)
        ensures
            *final(self) == old(self).with_error(),
    {
        self.errors = plus(self.errors, 1);
    }
}

impl Default for WorkerStats {
    fn default() -> (r: Self)
        ensures
            r == WorkerStats::zero(),
    {
        WorkerStats::new()
    }
}

/// What the shards of a registry hold after a call, which is recorded where there is a recorder.
pub open spec fn after_call(
    activities: Seq<Activity>,
    recorder: Option<ApplicationRecorder>,
    api: Seq<char>,
    latency_ns: u64,
    logical_bytes: u64,
    failed: bool,
) -> Seq<Activity> {
    match recorder {
        Some(r) => activities.update(
            r.position(),
            activities[r.position()].with_call(api, latency_ns, logical_bytes, failed),
        ),
        None => activities,
    }
}

/// Whether a registry is in order and knows a recorder.
pub open spec fn records(registry: &ApplicationRegistry, recorder: Option<ApplicationRecorder>) -> bool {
    &&& registry.wf()
    &&& recorder matches Some(r) ==> 0 <= r.position() < registry.activities().len()
}

/// Records a successful call while measurement is enabled.
pub fn record_success(
    recorder: Option<ApplicationRecorder>,
    registry: &mut ApplicationRegistry,
    api: &str,
    latency_ns: u64,
    logical_bytes: u64,
)
    requires
        records(old(registry), recorder),
    ensures
        records(final(registry), recorder),
        final(registry).activities() == after_call(
            old(registry).activities(),
            recorder,
            api@,
            latency_ns,
            logical_bytes,
            false,
        ),
{
    if let Some(r) = recorder {
        r.record_success(registry, api, latency_ns, logical_bytes);
    }
}

/// Counts an error, and records the failed call while measurement is enabled.
pub fn record_error(
    stats: &mut WorkerStats,
    recorder: Option<ApplicationRecorder>,
    registry: &mut ApplicationRegistry,
    api: &str,
    latency_ns: u64,
)
    requires
        records(old(registry), recorder),
    ensures
        records(final(registry), recorder),
        *final(stats) == old(stats).with_error(),
        final(registry).activities() == after_call(
            old(registry).activities(),
            recorder,
            api@,
            latency_ns,
            0,
            true,
        ),
{
    stats.count_error();
    if let Some(r) = recorder {
        r.record_error(registry, api, latency_ns);
    }
}

/// Counters can be merged in any order.
pub proof fn merging_commutes(a: WorkerStats, b: WorkerStats)
    ensures
        a.merged(b) == b.merged(a),
{
}

/// Counters can be merged in any grouping.
pub proof fn merging_associates(a: WorkerStats, b: WorkerStats, c: WorkerStats)
    ensures
        a.merged(b).merged(c) == a.merged(b.merged(c)),
{
}

/// A client that did nothing adds nothing.
pub proof fn merging_nothing_changes_nothing(a: WorkerStats)
    ensures
        a.merged(WorkerStats::zero()) == a,
        WorkerStats::zero().merged(a) == a,
{
}

/// The counters of two clients add up, and the last write of both is the later one.
pub proof fn merged_counters_hold_both(a: WorkerStats, b: WorkerStats)
    ensures
        ({
            let m = a.merged(b);
            &&& a.errors + b.errors <= u64::MAX ==> m.errors == a.errors + b.errors
            &&& a.read_hits + b.read_hits <= u64::MAX ==> m.read_hits == a.read_hits + b.read_hits
            &&& a.read_misses + b.read_misses <= u64::MAX ==> m.read_misses
                == a.read_misses + b.read_misses
            &&& a.scan_records + b.scan_records <= u64::MAX ==> m.scan_records
                == a.scan_records + b.scan_records
            &&& a.scan_end_calls + b.scan_end_calls <= u64::MAX ==> m.scan_end_calls
                == a.scan_end_calls + b.scan_end_calls
            &&& a.writes + b.writes <= u64::MAX ==> m.writes == a.writes + b.writes
            &&& a.transaction_attempts + b.transaction_attempts <= u64::MAX
                ==> m.transaction_attempts == a.transaction_attempts + b.transaction_attempts
            &&& a.transaction_commits + b.transaction_commits <= u64::MAX ==> m.transaction_commits
                == a.transaction_commits + b.transaction_commits
            &&& a.transaction_conflicts + b.transaction_conflicts <= u64::MAX
                ==> m.transaction_conflicts == a.transaction_conflicts + b.transaction_conflicts
            &&& a.last_write_sequence is None ==> m.last_write_sequence == b.last_write_sequence
            &&& b.last_write_sequence is None ==> m.last_write_sequence == a.last_write_sequence
            &&& a.last_write_sequence is Some && b.last_write_sequence is Some ==> {
                &&& m.last_write_sequence is Some
                &&& m.last_write_sequence->0 >= a.last_write_sequence->0
                &&& m.last_write_sequence->0 >= b.last_write_sequence->0
                &&& m.last_write_sequence == a.last_write_sequence || m.last_write_sequence
                    == b.last_write_sequence
            }
        }),
{
}

/// An error or a write adds one to its counter, a write moves the last sequence forward, and
/// nothing else changes.
pub proof fn counters_count_one_at_a_time(s: WorkerStats, sequence: u64)
    requires
        s.errors < u64::MAX,
        s.writes < u64::MAX,
    ensures
        s.with_error() == (WorkerStats { errors: (s.errors + 1) as u64, ..s }),
        ({
            let w = s.with_write(sequence);
            &&& w == (WorkerStats {
                writes: (s.writes + 1) as u64,
                last_write_sequence: w.last_write_sequence,
                ..s
            })
            &&& w.last_write_sequence is Some && w.last_write_sequence->0 >= sequence
            &&& s.last_write_sequence is None ==> w.last_write_sequence->0 == sequence
            &&& s.last_write_sequence matches Some(last) ==> w.last_write_sequence->0 >= last && (
            w.last_write_sequence->0 == last || w.last_write_sequence->0 == sequence)
        }),
{
}

/// A call is recorded by the client's own recorder and by no other, and not at all without one.
pub proof fn calls_go_to_their_recorder(
    activities: Seq<Activity>,
    recorder: Option<ApplicationRecorder>,
    api: Seq<char>,
    latency_ns: u64,
    bytes: u64,
    failed: bool,
    i: int,
)
    requires
        0 <= i < activities.len(),
        recorder matches Some(r) ==> 0 <= r.position() < activities.len(),
    ensures
        ({
            let after = after_call(activities, recorder, api, latency_ns, bytes, failed);
            &&& after.len() == activities.len()
            &&& recorder is None ==> after == activities
            &&& recorder matches Some(r) ==> {
                &&& i != r.position() ==> after[i] == activities[i]
                &&& i == r.position() ==> after[i] == activities[i].with_call(
                    api,
                    latency_ns,
                    bytes,
                    failed,
                )
            }
        }),
{
}

} // verus!
