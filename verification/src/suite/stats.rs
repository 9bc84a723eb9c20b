//! What the clients of a suite count and measure.

use crate::count;
use crate::count::{max_of, min_of, plus};
use crate::histogram;
use crate::histogram::{HistogramSet, Recorded};
use crate::named::Named;
use crate::suite::encoding;
use crate::suite::encoding::{summarize, summarize_with_prefix, LatencySummary};
use crate::workloads::stats;
use vstd::prelude::*;

verus! {

/// Counters of a client.
#[derive(Debug, Clone, Copy, PartialEq, Eq, Structural)]
pub struct Counts {
    pub total: u64,
    pub successful: u64,
    pub errors: u64,
    pub payload_bytes: u64,
    pub writes: u64,
    pub offered: u64,
    pub dropped: u64,
    pub batch_keys: u64,
    pub transaction_commits: u64,
    pub transaction_aborts: u64,
    pub transaction_conflicts: u64,
    pub backpressure_ns: u64,
    /// When the first write returned, in nanoseconds.
    pub first_write_return: Option<u64>,
    pub last_write_sequence: Option<u64>,
}

/// The earlier of two times, where there are any.
pub open spec fn earlier(a: Option<u64>, b: Option<u64>) -> Option<u64> {
    match (a, b) {
        (Some(x), Some(y)) => Some(count::smaller(x, y)),
        (Some(x), None) => Some(x),
        (None, _) => b,
    }
}

fn earlier_of(a: Option<u64>, b: Option<u64>) -> (r: Option<u64>)
    ensures
        r == earlier(a, b),
{
    match (a, b) {
        (Some(x), Some(y)) => Some(min_of(x, y)),
        (Some(x), None) => Some(x),
        (None, right) => right,
    }
}

fn later_of(a: Option<u64>, b: Option<u64>) -> (r: Option<u64>)
    ensures
        r == stats::later(a, b),
{
    match (a, b) {
        (Some(x), Some(y)) => Some(max_of(x, y)),
        (Some(x), None) => Some(x),
        (None, right) => right,
    }
}

impl Counts {
    /// The counters of a client that did nothing.
    pub open spec fn zero() -> Self {
        Counts {
            total: 0,
            successful: 0,
            errors: 0,
            payload_bytes: 0,
            writes: 0,
            offered: 0,
            dropped: 0,
            batch_keys: 0,
            transaction_commits: 0,
            transaction_aborts: 0,
            transaction_conflicts: 0,
            backpressure_ns: 0,
            first_write_return: None,
            last_write_sequence: None,
        }
    }

    /// The counters after a successful operation.
    pub open spec fn with_success(self, payload_bytes: u64) -> Self {
        Counts {
            total: count::capped_sum(self.total, 1),
            successful: count::capped_sum(self.successful, 1),
            payload_bytes: count::capped_sum(self.payload_bytes, payload_bytes),
            ..self
        }
    }

    /// The counters after a failed operation.
    pub open spec fn with_error(self) -> Self {
        Counts {
            total: count::capped_sum(self.total, 1),
            errors: count::capped_sum(self.errors, 1),
            ..self
        }
    }

    /// The counters after a transaction that met a conflict.
    pub open spec fn with_conflict(self) -> Self {
        Counts {
            total: count::capped_sum(self.total, 1),
            transaction_aborts: count::capped_sum(self.transaction_aborts, 1),
            transaction_conflicts: count::capped_sum(self.transaction_conflicts, 1),
            ..self
        }
    }

    /// The counters after an accepted write.
    pub open spec fn with_write(self, returned_at: u64, sequence: u64) -> Self {
        Counts {
            writes: count::capped_sum(self.writes, 1),
            first_write_return: earlier(self.first_write_return, Some(returned_at)),
            last_write_sequence: stats::later(self.last_write_sequence, Some(sequence)),
            ..self
        }
    }

    /// The counters of two clients together.
    pub open spec fn merged(self, other: Self) -> Self {
        Counts {
            total: count::capped_sum(self.total, other.total),
            successful: count::capped_sum(self.successful, other.successful),
            errors: count::capped_sum(self.errors, other.errors),
            payload_bytes: count::capped_sum(self.payload_bytes, other.payload_bytes),
            writes: count::capped_sum(self.writes, other.writes),
            offered: count::capped_sum(self.offered, other.offered),
            dropped: count::capped_sum(self.dropped, other.dropped),
            batch_keys: count::capped_sum(self.batch_keys, other.batch_keys),
            transaction_commits: count::capped_sum(
                self.transaction_commits,
                other.transaction_commits,
            ),
            transaction_aborts: count::capped_sum(
                self.transaction_aborts,
                other.transaction_aborts,
            ),
            transaction_conflicts: count::capped_sum(
                self.transaction_conflicts,
                other.transaction_conflicts,
            ),
            backpressure_ns: count::capped_sum(self.backpressure_ns, other.backpressure_ns),
            first_write_return: earlier(self.first_write_return, other.first_write_return),
            last_write_sequence: stats::later(self.last_write_sequence, other.last_write_sequence),
        }
    }

    /// The counters with the arrivals of a schedule, of which some were dropped.
    pub open spec fn with_schedule(self, offered: u64, dropped: u64) -> Self {
        Counts { offered, dropped, total: count::capped_sum(self.total, dropped), ..self }
    }
}

/// What a client counted and measured.
pub struct WorkerStats {
    pub counts: Counts,
    pub histograms: HistogramSet,
}

/// What a client counted and measured, as values.
#[verifier::ext_equal]
pub struct StatsView {
    pub counts: Counts,
    pub histograms: Map<Seq<char>, Recorded>,
}

impl View for WorkerStats {
    type V = StatsView;

    open spec fn view(&self) -> StatsView {
        StatsView { counts: self.counts, histograms: self.histograms@ }
    }
}

/// The histograms after an operation returned.
pub open spec fn returned(
    m: Map<Seq<char>, Recorded>,
    operation: Seq<char>,
    latency_ns: u64,
) -> Map<Seq<char>, Recorded> {
    histogram::with_observation(
        histogram::with_observation(m, "return"@, latency_ns),
        "return/"@ + operation,
        latency_ns,
    )
}

/// What is known of the transactions of a client that made any.
#[derive(Debug, Clone, Copy, PartialEq, Eq, Structural)]
pub struct Transactions {
    pub commits: u64,
    pub aborts: u64,
    pub conflicts: u64,
    /// Commits and aborts together.
    pub attempts: u64,
}

/// What clients did, before it is put in relation to time.
pub struct ApplicationTotals {
    pub total_operations: u64,
    pub successful_operations: u64,
    /// Arrivals of a schedule, and those that found no room.
    pub offered: Option<u64>,
    pub dropped: Option<u64>,
    pub payload_bytes: u64,
    pub errors: u64,
    pub return_latency: LatencySummary,
    pub return_latency_by_operation: Named<LatencySummary>,
    pub response_latency: Option<LatencySummary>,
    pub scheduling_delay: Option<LatencySummary>,
    pub batch_latency: Option<LatencySummary>,
    pub batch_keys: Option<u64>,
    pub transactions: Option<Transactions>,
}

/// The summary under a name, where there is one.
pub open spec fn summary_under(m: Map<Seq<char>, Recorded>, name: Seq<char>) -> Option<
    LatencySummary,
> {
    if m.dom().contains(name) {
        Some(encoding::summary_of(m[name]))
    } else {
        None
    }
}

/// Whether totals are those of a client.
pub open spec fn totals_of(t: ApplicationTotals, s: StatsView, open_loop: bool) -> bool {
    let attempts = count::capped_sum(s.counts.transaction_commits, s.counts.transaction_aborts);
    &&& t.total_operations == s.counts.total
    &&& t.successful_operations == s.counts.successful
    &&& t.offered == (if open_loop {
        Some(s.counts.offered)
    } else {
        None
    })
    &&& t.dropped == (if open_loop {
        Some(s.counts.dropped)
    } else {
        None
    })
    &&& t.payload_bytes == s.counts.payload_bytes
    &&& t.errors == s.counts.errors
    &&& t.return_latency == encoding::summary_of(histogram::recorded_as(s.histograms, "return"@))
    &&& t.return_latency_by_operation.wf()
    &&& forall|n: Seq<char>|
        t.return_latency_by_operation.map().dom().contains(n)
            <==> #[trigger] s.histograms.dom().contains("return/"@ + n)
    &&& forall|n: Seq<char>| #[trigger]
        t.return_latency_by_operation.map().dom().contains(n)
            ==> t.return_latency_by_operation.map()[n] == encoding::summary_of(
            s.histograms["return/"@ + n],
        )
    &&& t.response_latency == (if open_loop {
        summary_under(s.histograms, "response"@)
    } else {
        None
    })
    &&& t.scheduling_delay == (if open_loop {
        summary_under(s.histograms, "scheduling_delay"@)
    } else {
        None
    })
    &&& t.batch_latency == summary_under(s.histograms, "batch"@)
    &&& t.batch_keys == (if s.counts.batch_keys > 0 {
        Some(s.counts.batch_keys)
    } else {
        None
    })
    &&& t.transactions == (if attempts > 0 {
        Some(
            (Transactions {
                commits: s.counts.transaction_commits,
                aborts: s.counts.transaction_aborts,
                conflicts: s.counts.transaction_conflicts,
                attempts,
            }),
        )
    } else {
        None
    })
}

impl WorkerStats {
    /// Nothing counted and nothing measured.
    pub fn new() -> (r: Self)
        ensures
            r.histograms.wf(),
            r.counts == Counts::zero(),
            r@.histograms == Map::<Seq<char>, Recorded>::empty(),
    {
        WorkerStats {
            counts: Counts {
                total: 0,
                successful: 0,
                errors: 0,
                payload_bytes: 0,
                writes: 0,
                offered: 0,
                dropped: 0,
                batch_keys: 0,
                transaction_commits: 0,
                transaction_aborts: 0,
                transaction_conflicts: 0,
                backpressure_ns: 0,
                first_write_return: None,
                last_write_sequence: None,
            },
            histograms: HistogramSet::new(),
        }
    }

    fn record_return(&mut self, operation: &str, latency_ns: u64)
        requires
            old(self).histograms.wf(),
        ensures
            final(self).histograms.wf(),
            final(self).counts == old(self).counts,
            final(self)@.histograms == returned(old(self)@.histograms, operation@, latency_ns),
    {
        self.histograms.record("return", latency_ns);
        let name = "return/".to_string().concat(operation);
        self.histograms.record(name.as_str(), latency_ns);
    }

    /// Records a successful operation.
    pub fn record_success(&mut self, operation: &str, latency_ns: u64, payload_bytes: u64)
        requires
            old(self).histograms.wf(),
        ensures
            final(self).histograms.wf(),
            final(self).counts == old(self).counts.with_success(payload_bytes),
            final(self)@.histograms == returned(old(self)@.histograms, operation@, latency_ns),
    {
        self.counts.total = plus(self.counts.total, 1);
        self.counts.successful = plus(self.counts.successful, 1);
        self.counts.payload_bytes = plus(self.counts.payload_bytes, payload_bytes);
        self.record_return(operation, latency_ns);
    }

    /// Records a failed operation.
    pub fn record_error(&mut self, operation: &str, latency_ns: u64)
        requires
            old(self).histograms.wf(),
        ensures
            final(self).histograms.wf(),
            final(self).counts == old(self).counts.with_error(),
            final(self)@.histograms == returned(old(self)@.histograms, operation@, latency_ns),
    {
        self.counts.total = plus(self.counts.total, 1);
        self.counts.errors = plus(self.counts.errors, 1);
        self.record_return(operation, latency_ns);
    }

    /// Records a transaction that met a conflict: it is neither a success nor an error.
    pub fn record_conflict(&mut self, latency_ns: u64)
        requires
            old(self).histograms.wf(),
        ensures
            final(self).histograms.wf(),
            final(self).counts == old(self).counts.with_conflict(),
            final(self)@.histograms == returned(
                old(self)@.histograms,
                "transaction"@,
                latency_ns,
            ),
    {
        self.counts.total = plus(self.counts.total, 1);
        self.counts.transaction_aborts = plus(self.counts.transaction_aborts, 1);
        self.counts.transaction_conflicts = plus(self.counts.transaction_conflicts, 1);
        self.record_return("transaction", latency_ns);
    }

    /// Records an accepted write.
    pub fn record_write(&mut self, returned_at: u64, sequence: u64)
        ensures
            final(self).counts == old(self).counts.with_write(returned_at, sequence),
            final(self).histograms == old(self).histograms,
    {
        self.counts.writes = plus(self.counts.writes, 1);
        self.counts.first_write_return =
        earlier_of(self.counts.first_write_return, Some(returned_at));
        self.counts.last_write_sequence = later_of(self.counts.last_write_sequence, Some(sequence));
    }

    /// Records time that a write was held back.
    pub fn record_backpressure(&mut self, elapsed_ns: u64)
        ensures
            final(self).counts == (Counts {
                backpressure_ns: count::capped_sum(old(self).counts.backpressure_ns, elapsed_ns),
                ..old(self).counts
            }),
            final(self).histograms == old(self).histograms,
    {
        self.counts.backpressure_ns = plus(self.counts.backpressure_ns, elapsed_ns);
    }

    /// Adds what another client counted and measured.
    pub fn merge(&mut self, other: &Self)
        requires
            old(self).histograms.wf(),
            other.histograms.wf(),
        ensures
            final(self).histograms.wf(),
            final(self).counts == old(self).counts.merged(other.counts),
            final(self)@.histograms == histogram::combined_sets(
                old(self)@.histograms,
                other@.histograms,
            ),
    {
        self.counts = Counts {
            total: plus(self.counts.total, other.counts.total),
            successful: plus(self.counts.successful, other.counts.successful),
            errors: plus(self.counts.errors, other.counts.errors),
            payload_bytes: plus(self.counts.payload_bytes, other.counts.payload_bytes),
            writes: plus(self.counts.writes, other.counts.writes),
            offered: plus(self.counts.offered, other.counts.offered),
            dropped: plus(self.counts.dropped, other.counts.dropped),
            batch_keys: plus(self.counts.batch_keys, other.counts.batch_keys),
            transaction_commits: plus(
                self.counts.transaction_commits,
                other.counts.transaction_commits,
            ),
            transaction_aborts: plus(
                self.counts.transaction_aborts,
                other.counts.transaction_aborts,
            ),
            transaction_conflicts: plus(
                self.counts.transaction_conflicts,
                other.counts.transaction_conflicts,
            ),
            backpressure_ns: plus(self.counts.backpressure_ns, other.counts.backpressure_ns),
            first_write_return: earlier_of(
                self.counts.first_write_return,
                other.counts.first_write_return,
            ),
            last_write_sequence: later_of(
                self.counts.last_write_sequence,
                other.counts.last_write_sequence,
            ),
        };
        self.histograms.combine(&other.histograms);
    }

    fn summary_named(&self, name: &str) -> (r: Option<LatencySummary>)
        requires
            self.histograms.wf(),
            histogram::within_range(self@.histograms),
        ensures
            r == summary_under(self@.histograms, name@),
    {
        match self.histograms.get(name) {
            Some(h) => Some(summarize(h)),
            None => None,
        }
    }

    /// Adds up what was done.
    pub fn application(&self, open_loop: bool) -> (r: ApplicationTotals)
        requires
            self.histograms.wf(),
            histogram::within_range(self@.histograms),
        ensures
            totals_of(r, self@, open_loop),
    {
        let return_latency = match self.summary_named("return") {
            Some(summary) => summary,
            None => LatencySummary {
                count: 0,
                p50_ns: 0,
                p95_ns: 0,
                p99_ns: 0,
                p999_ns: 0,
                max_ns: 0,
            },
        };
        let attempts: u64 = plus(self.counts.transaction_commits, self.counts.transaction_aborts);
        ApplicationTotals {
            total_operations: self.counts.total,
            successful_operations: self.counts.successful,
            offered: if open_loop {
                Some(self.counts.offered)
            } else {
                None
            },
            dropped: if open_loop {
                Some(self.counts.dropped)
            } else {
                None
            },
            payload_bytes: self.counts.payload_bytes,
            errors: self.counts.errors,
            return_latency,
            return_latency_by_operation: summarize_with_prefix(&self.histograms, "return/"),
            response_latency: if open_loop {
                self.summary_named("response")
            } else {
                None
            },
            scheduling_delay: if open_loop {
                self.summary_named("scheduling_delay")
            } else {
                None
            },
            batch_latency: self.summary_named("batch"),
            batch_keys: if self.counts.batch_keys > 0 {
                Some(self.counts.batch_keys)
            } else {
                None
            },
            transactions: if attempts > 0 {
                Some(
                    Transactions {
                        commits: self.counts.transaction_commits,
                        aborts: self.counts.transaction_aborts,
                        conflicts: self.counts.transaction_conflicts,
                        attempts,
                    },
                )
            } else {
                None
            },
        }
    }
}

/// Counters that are merged do not depend on the order of the clients.
pub proof fn merging_commutes(a: Counts, b: Counts)
    ensures
        a.merged(b) == b.merged(a),
{
}

/// Counters that are merged do not depend on how the clients are grouped.
pub proof fn merging_associates(a: Counts, b: Counts, c: Counts)
    ensures
        a.merged(b).merged(c) == a.merged(b.merged(c)),
{
}

/// A client that did nothing adds nothing.
pub proof fn idle_clients_add_nothing(a: Counts)
    ensures
        a.merged(Counts::zero()) == a,
        Counts::zero().merged(a) == a,
{
}

/// Each operation is a success, an error, or an abort, and merging keeps it so.
pub proof fn operations_stay_accounted_for(a: Counts, b: Counts)
    requires
        a.total == a.successful + a.errors + a.transaction_aborts,
        b.total == b.successful + b.errors + b.transaction_aborts,
        a.total + b.total <= u64::MAX,
    ensures
        a.merged(b).total == a.merged(b).successful + a.merged(b).errors + a.merged(
            b,
        ).transaction_aborts,
        a.total < u64::MAX ==> {
            &&& a.with_success(0).total == a.with_success(0).successful + a.with_success(0).errors
                + a.with_success(0).transaction_aborts
            &&& a.with_error().total == a.with_error().successful + a.with_error().errors
                + a.with_error().transaction_aborts
            &&& a.with_conflict().total == a.with_conflict().successful + a.with_conflict().errors
                + a.with_conflict().transaction_aborts
        },
{
}

/// The counts of two clients add up; their first write is the earlier one, and their last the
/// later.
pub proof fn merged_counts_hold_both(a: Counts, b: Counts)
    ensures
        ({
            let m = a.merged(b);
            &&& a.total + b.total <= u64::MAX ==> m.total == a.total + b.total
            &&& a.successful + b.successful <= u64::MAX ==> m.successful
                == a.successful + b.successful
            &&& a.errors + b.errors <= u64::MAX ==> m.errors == a.errors + b.errors
            &&& a.payload_bytes + b.payload_bytes <= u64::MAX ==> m.payload_bytes
                == a.payload_bytes + b.payload_bytes
            &&& a.writes + b.writes <= u64::MAX ==> m.writes == a.writes + b.writes
            &&& a.offered + b.offered <= u64::MAX ==> m.offered == a.offered + b.offered
            &&& a.dropped + b.dropped <= u64::MAX ==> m.dropped == a.dropped + b.dropped
            &&& a.batch_keys + b.batch_keys <= u64::MAX ==> m.batch_keys
                == a.batch_keys + b.batch_keys
            &&& a.transaction_commits + b.transaction_commits <= u64::MAX ==> m.transaction_commits
                == a.transaction_commits + b.transaction_commits
            &&& a.transaction_aborts + b.transaction_aborts <= u64::MAX ==> m.transaction_aborts
                == a.transaction_aborts + b.transaction_aborts
            &&& a.transaction_conflicts + b.transaction_conflicts <= u64::MAX
                ==> m.transaction_conflicts == a.transaction_conflicts + b.transaction_conflicts
            &&& a.backpressure_ns + b.backpressure_ns <= u64::MAX ==> m.backpressure_ns
                == a.backpressure_ns + b.backpressure_ns
            &&& a.first_write_return is None ==> m.first_write_return == b.first_write_return
            &&& b.first_write_return is None ==> m.first_write_return == a.first_write_return
            &&& a.first_write_return is Some && b.first_write_return is Some ==> {
                &&& m.first_write_return is Some
                &&& m.first_write_return->0 <= a.first_write_return->0
                &&& m.first_write_return->0 <= b.first_write_return->0
                &&& m.first_write_return == a.first_write_return || m.first_write_return
                    == b.first_write_return
            }
            &&& a.last_write_sequence is None ==> m.last_write_sequence == b.last_write_sequence
            &&& b.last_write_sequence is None ==> m.last_write_sequence == a.last_write_sequence
            &&& a.last_write_sequence is Some && b.last_write_sequence is Some ==> {
                &&& m.last_write_sequence is Some
                &&& m.last_write_sequence->0 >= a.last_write_sequence->0
                &&& m.last_write_sequence->0 >= b.last_write_sequence->0
            }
        }),
{
}

/// An operation counts once: as a success with its bytes, as an error, or as a conflict that ends
/// its transaction; a write counts apart, and arrivals that were dropped count as operations.
pub proof fn operations_count_once(c: Counts, bytes: u64, returned_at: u64, sequence: u64)
    requires
        c.total < u64::MAX,
        c.successful < u64::MAX,
        c.errors < u64::MAX,
        c.writes < u64::MAX,
        c.transaction_aborts < u64::MAX,
        c.transaction_conflicts < u64::MAX,
        c.payload_bytes + bytes <= u64::MAX,
    ensures
        c.with_success(bytes) == (Counts {
            total: (c.total + 1) as u64,
            successful: (c.successful + 1) as u64,
            payload_bytes: (c.payload_bytes + bytes) as u64,
            ..c
        }),
        c.with_error() == (Counts {
            total: (c.total + 1) as u64,
            errors: (c.errors + 1) as u64,
            ..c
        }),
        c.with_conflict() == (Counts {
            total: (c.total + 1) as u64,
            transaction_aborts: (c.transaction_aborts + 1) as u64,
            transaction_conflicts: (c.transaction_conflicts + 1) as u64,
            ..c
        }),
        ({
            let w = c.with_write(returned_at, sequence);
            &&& w == (Counts {
                writes: (c.writes + 1) as u64,
                first_write_return: w.first_write_return,
                last_write_sequence: w.last_write_sequence,
                ..c
            })
            &&& w.first_write_return is Some && w.first_write_return->0 <= returned_at
            &&& c.first_write_return is None ==> w.first_write_return->0 == returned_at
            &&& w.last_write_sequence is Some && w.last_write_sequence->0 >= sequence
            &&& c.last_write_sequence is None ==> w.last_write_sequence->0 == sequence
        }),
{
}

/// The latency of an operation is recorded among all and among those of its kind, and under no
/// other name.
pub proof fn returns_are_recorded_twice(
    m: Map<Seq<char>, Recorded>,
    operation: Seq<char>,
    latency_ns: u64,
    other: Seq<char>,
)
    requires
        other != "return"@,
        other != "return/"@ + operation,
        histogram::recorded_as(m, "return"@).total < u64::MAX,
        histogram::recorded_as(m, "return/"@ + operation).total < u64::MAX,
    ensures
        ({
            let after = returned(m, operation, latency_ns);
            &&& histogram::recorded_as(after, "return"@).total == histogram::recorded_as(
                m,
                "return"@,
            ).total + 1
            &&& histogram::recorded_as(after, "return/"@ + operation).total
                == histogram::recorded_as(m, "return/"@ + operation).total + 1
            &&& histogram::recorded_as(after, other) == histogram::recorded_as(m, other)
        }),
{
    reveal_strlit("return");
    reveal_strlit("return/");
    assert(("return/"@ + operation).len() > "return"@.len());
}

/// The totals of a workload report its counts as they are: arrivals only where there is a schedule,
/// batches and transactions only where there are some, with every attempt a commit or an abort.
pub proof fn totals_report_the_counts(t: ApplicationTotals, s: StatsView, open_loop: bool)
    requires
        totals_of(t, s, open_loop),
        s.counts.transaction_commits + s.counts.transaction_aborts <= u64::MAX,
    ensures
        t.total_operations == s.counts.total,
        t.successful_operations == s.counts.successful,
        t.errors == s.counts.errors,
        t.payload_bytes == s.counts.payload_bytes,
        open_loop ==> t.offered == Some(s.counts.offered) && t.dropped == Some(s.counts.dropped),
        !open_loop ==> t.offered is None && t.dropped is None && t.response_latency is None
            && t.scheduling_delay is None,
        s.counts.batch_keys > 0 ==> t.batch_keys == Some(s.counts.batch_keys),
        s.counts.batch_keys == 0 ==> t.batch_keys is None,
        t.transactions is Some <==> s.counts.transaction_commits + s.counts.transaction_aborts > 0,
        t.transactions matches Some(x) ==> {
            &&& x.commits == s.counts.transaction_commits
            &&& x.aborts == s.counts.transaction_aborts
            &&& x.conflicts == s.counts.transaction_conflicts
            &&& x.attempts == x.commits + x.aborts
        },
{
}

} // verus!
