//! What the object store does without a database.

use crate::count::plus;
use crate::histogram;
use crate::histogram::{LatencyHistogram, Recorded};
use crate::named::Named;
use crate::suite::config::ProbeConfig;
use crate::suite::encoding;
use crate::suite::encoding::{encode, summarize, CountTooLarge, EncodedHistogram, LatencySummary};
use vstd::prelude::*;

verus! {

/// What a probe does next.
#[derive(Debug, Clone, Copy, PartialEq, Eq, Structural)]
pub enum ProbeAction {
    /// Put the small object of a number.
    Put(u64),
    /// Get the small object of a number.
    Get(u64),
    /// Put large objects for a while.
    Upload { measured: bool },
    /// Put the large objects to get.
    PrepareDownloads,
    /// Get large objects for a while.
    Download { measured: bool },
    /// Nothing.
    Finish,
}

/// What came of it.
#[derive(Debug, Clone, Copy, PartialEq, Eq, Structural)]
pub enum ProbeEvent {
    /// An object was put, in a time.
    Stored { latency_ns: u64 },
    /// An object of a size was got, in a time.
    Fetched { size: usize, latency_ns: u64 },
    /// Bytes were moved, in a time.
    Moved { bytes: u64, elapsed_ns: u64 },
    /// The objects are there.
    Prepared,
    /// The store failed.
    Failed,
}

/// Why a probe ends early.
#[derive(Debug, Clone, Copy, PartialEq, Eq, Structural)]
pub enum ProbeFault {
    /// The store failed.
    Store,
    /// An object came back in another size.
    ObjectSize,
    /// The event does not belong to what was asked for.
    OutOfOrder,
}

/// How much was moved, and how long it took.
#[derive(Debug, Clone, Copy, PartialEq, Eq, Structural)]
pub struct Transfer {
    pub bytes: u64,
    pub elapsed_ns: u64,
}

/// The state of a probe, as values.
#[verifier::ext_equal]
pub struct ProbeView {
    pub action: ProbeAction,
    pub put: Recorded,
    pub get: Recorded,
    pub upload: Transfer,
    pub download: Transfer,
}

/// What follows after a number of puts.
pub open spec fn after_puts(i: u64, operations: u64) -> ProbeAction {
    if i < operations {
        ProbeAction::Put(i)
    } else {
        after_gets(0, operations)
    }
}

/// What follows after a number of gets.
pub open spec fn after_gets(i: u64, operations: u64) -> ProbeAction {
    if i < operations {
        ProbeAction::Get(i)
    } else {
        ProbeAction::Upload { measured: false }
    }
}

/// The state after an event.
pub open spec fn stepped(v: ProbeView, config: ProbeConfig, event: ProbeEvent) -> Result<
    ProbeView,
    ProbeFault,
> {
    match (v.action, event) {
        (_, ProbeEvent::Failed) => Err(ProbeFault::Store),
        (ProbeAction::Put(i), ProbeEvent::Stored { latency_ns }) => Ok(
            ProbeView {
                put: v.put.with(histogram::clamped_micros(latency_ns), 1),
                action: after_puts((i + 1) as u64, config.latency_operations),
                ..v
            },
        ),
        (ProbeAction::Get(i), ProbeEvent::Fetched { size, latency_ns }) => if size
            != config.latency_object_bytes {
            Err(ProbeFault::ObjectSize)
        } else {
            Ok(
                ProbeView {
                    get: v.get.with(histogram::clamped_micros(latency_ns), 1),
                    action: after_gets((i + 1) as u64, config.latency_operations),
                    ..v
                },
            )
        },
        (
            ProbeAction::Upload { measured },
            ProbeEvent::Moved { bytes, elapsed_ns },
        ) => if measured {
            Ok(
                ProbeView {
                    upload: Transfer { bytes, elapsed_ns },
                    action: ProbeAction::PrepareDownloads,
                    ..v
                },
            )
        } else {
            Ok(ProbeView { action: ProbeAction::Upload { measured: true }, ..v })
        },
        (ProbeAction::PrepareDownloads, ProbeEvent::Prepared) => Ok(
            ProbeView { action: ProbeAction::Download { measured: false }, ..v },
        ),
        (
            ProbeAction::Download { measured },
            ProbeEvent::Moved { bytes, elapsed_ns },
        ) => if measured {
            Ok(
                ProbeView {
                    download: Transfer { bytes, elapsed_ns },
                    action: ProbeAction::Finish,
                    ..v
                },
            )
        } else {
            Ok(ProbeView { action: ProbeAction::Download { measured: true }, ..v })
        },
        _ => Err(ProbeFault::OutOfOrder),
    }
}

/// A probe of an object store.
pub struct Probe {
    config: ProbeConfig,
    action: ProbeAction,
    put: LatencyHistogram,
    get: LatencyHistogram,
    upload: Transfer,
    download: Transfer,
}

/// What a probe found.
pub struct ProbeResult {
    pub put_latency: LatencySummary,
    pub get_latency: LatencySummary,
    pub upload: Transfer,
    pub download: Transfer,
    pub histograms: Named<EncodedHistogram>,
}

impl View for Probe {
    type V = ProbeView;

    closed spec fn view(&self) -> ProbeView {
        ProbeView {
            action: self.action,
            put: self.put@,
            get: self.get@,
            upload: self.upload,
            download: self.download,
        }
    }
}

/// Whether a probe has recorded what it did.
pub open spec fn consistent(v: ProbeView, operations: u64) -> bool {
    match v.action {
        ProbeAction::Put(i) => i < operations && v.put.total == i && v.get.total == 0,
        ProbeAction::Get(i) => i < operations && v.put.total == operations && v.get.total == i,
        _ => v.put.total == operations && v.get.total == operations,
    }
}

impl Probe {
    /// How the store is probed.
    pub closed spec fn settings(&self) -> ProbeConfig {
        self.config
    }

    /// Every latency was recorded once.
    pub open spec fn wf(&self) -> bool {
        consistent(self@, self.settings().latency_operations)
    }

    /// Starts a probe.
    pub fn start(config: ProbeConfig) -> (r: Self)
        ensures
            r.wf(),
            r.settings() == config,
            r@ == (ProbeView {
                action: after_puts(0, config.latency_operations),
                put: Recorded::none(),
                get: Recorded::none(),
                upload: Transfer { bytes: 0, elapsed_ns: 0 },
                download: Transfer { bytes: 0, elapsed_ns: 0 },
            }),
    {
        let action = if config.latency_operations > 0 {
            ProbeAction::Put(0)
        } else {
            ProbeAction::Upload { measured: false }
        };
        Probe {
            config,
            action,
            put: LatencyHistogram::new(),
            get: LatencyHistogram::new(),
            upload: Transfer { bytes: 0, elapsed_ns: 0 },
            download: Transfer { bytes: 0, elapsed_ns: 0 },
        }
    }

    /// Returns what to do next.
    pub fn action(&self) -> (r: ProbeAction)
        ensures
            r == self@.action,
    {
        self.action
    }

    /// Takes note of an event, and returns what to do next.
    pub fn advance(&mut self, event: ProbeEvent) -> (r: Result<ProbeAction, ProbeFault>)
        requires
            old(self).wf(),
        ensures
            final(self).wf(),
            final(self).settings() == old(self).settings(),
            r is Ok <==> stepped(old(self)@, old(self).settings(), event) is Ok,
            r matches Ok(action) ==> final(self)@ == stepped(
                old(self)@,
                old(self).settings(),
                event,
            )->Ok_0 && action == final(self)@.action,
            r matches Err(fault) ==> *final(self) == *old(self) && stepped(
                old(self)@,
                old(self).settings(),
                event,
            ) == Err::<ProbeView, ProbeFault>(fault),
    {
        let operations: u64 = self.config.latency_operations;
        match (self.action, event) {
            (_, ProbeEvent::Failed) => {
                return Err(ProbeFault::Store);
            },
            (ProbeAction::Put(i), ProbeEvent::Stored { latency_ns }) => {
                self.put.record(latency_ns);
                self.action = if i + 1 < operations {
                    ProbeAction::Put(i + 1)
                } else {
                    ProbeAction::Get(0)
                };
            },
            (ProbeAction::Get(i), ProbeEvent::Fetched { size, latency_ns }) => {
                if size != self.config.latency_object_bytes {
                    return Err(ProbeFault::ObjectSize);
                }
                self.get.record(latency_ns);
                self.action = if i + 1 < operations {
                    ProbeAction::Get(i + 1)
                } else {
                    ProbeAction::Upload { measured: false }
                };
            },
            (ProbeAction::Upload { measured }, ProbeEvent::Moved { bytes, elapsed_ns }) => {
                if measured {
                    self.upload = Transfer { bytes, elapsed_ns };
                    self.action = ProbeAction::PrepareDownloads;
                } else {
                    self.action = ProbeAction::Upload { measured: true };
                }
            },
            (ProbeAction::PrepareDownloads, ProbeEvent::Prepared) => {
                self.action = ProbeAction::Download { measured: false };
            },
            (ProbeAction::Download { measured }, ProbeEvent::Moved { bytes, elapsed_ns }) => {
                if measured {
                    self.download = Transfer { bytes, elapsed_ns };
                    self.action = ProbeAction::Finish;
                } else {
                    self.action = ProbeAction::Download { measured: true };
                }
            },
            _ => {
                return Err(ProbeFault::OutOfOrder);
            },
        }
        Ok(self.action)
    }

    /// Returns what was found.
    pub fn result(&self) -> (r: Result<ProbeResult, CountTooLarge>)
        requires
            self@.put.total < u64::MAX,
            self@.get.total < u64::MAX,
        ensures
            r is Ok <==> histogram::serialized(self@.put.counts) is Some && histogram::serialized(
                self@.get.counts,
            ) is Some,
            self@.put.total <= i64::MAX && self@.get.total <= i64::MAX ==> r is Ok,
            r matches Ok(found) ==> {
                &&& found.put_latency == encoding::summary_of(self@.put)
                &&& found.get_latency == encoding::summary_of(self@.get)
                &&& found.upload == self@.upload
                &&& found.download == self@.download
                &&& found.histograms.wf()
                &&& found.histograms.map().dom() =~= set!["object_store/put"@, "object_store/get"@]
                &&& encoding::encodes(found.histograms.map()["object_store/put"@], self@.put)
                &&& encoding::encodes(found.histograms.map()["object_store/get"@], self@.get)
                &&& encoding::reading_of(Some(found.histograms.map()["object_store/put"@]))
                    == encoding::Reading::Summary(found.put_latency)
                &&& encoding::reading_of(Some(found.histograms.map()["object_store/get"@]))
                    == encoding::Reading::Summary(found.get_latency)
            },
    {
        let put = match encode(&self.put) {
            Ok(encoded) => encoded,
            Err(e) => {
                return Err(e);
            },
        };
        let get = match encode(&self.get) {
            Ok(encoded) => encoded,
            Err(e) => {
                return Err(e);
            },
        };
        let mut histograms: Named<EncodedHistogram> = Named::new();
        histograms.put("object_store/put".to_string(), put);
        histograms.put("object_store/get".to_string(), get);
        proof {
            reveal_strlit("object_store/put");
            reveal_strlit("object_store/get");
            assert("object_store/put"@[13] != "object_store/get"@[13]);
        }
        Ok(
            ProbeResult {
                put_latency: summarize(&self.put),
                get_latency: summarize(&self.get),
                upload: self.upload,
                download: self.download,
                histograms,
            },
        )
    }
}

/// A probe that comes to its end has measured every operation that it was asked for.
pub proof fn probes_measure_every_operation(v: ProbeView, config: ProbeConfig, event: ProbeEvent)
    requires
        consistent(v, config.latency_operations),
        stepped(v, config, event) is Ok,
        config.latency_operations < u64::MAX,
    ensures
        consistent(stepped(v, config, event)->Ok_0, config.latency_operations),
        stepped(v, config, event)->Ok_0.action == ProbeAction::Finish ==> stepped(
            v,
            config,
            event,
        )->Ok_0.put.total == config.latency_operations && stepped(v, config, event)->Ok_0.get.total
            == config.latency_operations,
{
}

/// The bytes that some workers moved.
pub open spec fn moved_bytes(workers: Seq<u64>) -> int
    decreases workers.len(),
{
    if workers.len() == 0 {
        0
    } else {
        moved_bytes(workers.drop_last()) + workers.last()
    }
}

/// Adds up what workers moved, as far as a counter goes.
pub fn total_bytes(workers: &Vec<u64>) -> (r: u64)
    ensures
        r == (if moved_bytes(workers@) > u64::MAX {
            u64::MAX as int
        } else {
            moved_bytes(workers@)
        }),
{
    let mut total: u64 = 0;
    let mut i: usize = 0;
    assert(workers@.take(0).len() == 0);
    while i < workers.len()
        invariant
            i <= workers.len(),
            moved_bytes(workers@.take(i as int)) >= 0,
            total == (if moved_bytes(workers@.take(i as int)) > u64::MAX {
                u64::MAX as int
            } else {
                moved_bytes(workers@.take(i as int))
            }),
        decreases workers.len() - i,
    {
        proof {
            assert(workers@.take(i + 1).drop_last() =~= workers@.take(i as int));
        }
        total = plus(total, workers[i]);
        i += 1;
    }
    assert(workers@.take(i as int) =~= workers@);
    total
}

/// What is reported of some work and the cleanup after it: what the work came to, unless only the
/// cleanup failed.
pub open spec fn reported<T, E>(work: Result<T, E>, cleanup: Result<(), E>) -> Result<T, E> {
    match (work, cleanup) {
        (Ok(value), Ok(_)) => Ok(value),
        (Err(e), _) => Err(e),
        (Ok(_), Err(e)) => Err(e),
    }
}

/// Reports some work and the cleanup after it.
pub fn after_cleanup<T, E>(work: Result<T, E>, cleanup: Result<(), E>) -> (r: Result<T, E>)
    ensures
        r == reported(work, cleanup),
{
    match (work, cleanup) {
        (Ok(value), Ok(_)) => Ok(value),
        (Err(e), _) => Err(e),
        (Ok(_), Err(e)) => Err(e),
    }
}

/// A probe puts and gets objects one after the other, each measured once, uploads and downloads
/// once without measuring and once with, and ends; an object of another size is refused.
pub proof fn probes_go_step_by_step(
    v: ProbeView,
    config: ProbeConfig,
    i: u64,
    latency_ns: u64,
    size: usize,
    bytes: u64,
    elapsed_ns: u64,
)
    requires
        i < config.latency_operations < u64::MAX,
        v.put.total < u64::MAX,
        v.get.total < u64::MAX,
    ensures
        v.action == ProbeAction::Put(i) ==> {
            let n = stepped(v, config, ProbeEvent::Stored { latency_ns });
            &&& n is Ok
            &&& n->Ok_0.put.total == v.put.total + 1
            &&& n->Ok_0.put == v.put.with(histogram::clamped_micros(latency_ns), 1)
            &&& i + 1 < config.latency_operations ==> n->Ok_0.action == ProbeAction::Put(
                (i + 1) as u64,
            )
            &&& i + 1 == config.latency_operations ==> n->Ok_0.action == ProbeAction::Get(0)
        },
        v.action == ProbeAction::Get(i) && size == config.latency_object_bytes ==> {
            let n = stepped(v, config, ProbeEvent::Fetched { size, latency_ns });
            &&& n is Ok
            &&& n->Ok_0.get.total == v.get.total + 1
            &&& n->Ok_0.get == v.get.with(histogram::clamped_micros(latency_ns), 1)
            &&& i + 1 < config.latency_operations ==> n->Ok_0.action == ProbeAction::Get(
                (i + 1) as u64,
            )
            &&& i + 1 == config.latency_operations ==> n->Ok_0.action == (ProbeAction::Upload {
                measured: false,
            })
        },
        v.action == ProbeAction::Get(i) && size != config.latency_object_bytes ==> stepped(
            v,
            config,
            ProbeEvent::Fetched { size, latency_ns },
        ) == Err::<ProbeView, ProbeFault>(ProbeFault::ObjectSize),
        v.action == (ProbeAction::Upload { measured: false }) ==> {
            let n = stepped(v, config, ProbeEvent::Moved { bytes, elapsed_ns });
            n is Ok && n->Ok_0.action == (ProbeAction::Upload { measured: true }) && n->Ok_0.upload
                == v.upload
        },
        v.action == (ProbeAction::Upload { measured: true }) ==> {
            let n = stepped(v, config, ProbeEvent::Moved { bytes, elapsed_ns });
            n is Ok && n->Ok_0.action == ProbeAction::PrepareDownloads && n->Ok_0.upload == (
            Transfer { bytes, elapsed_ns })
        },
        v.action == (ProbeAction::Download { measured: false }) ==> {
            let n = stepped(v, config, ProbeEvent::Moved { bytes, elapsed_ns });
            n is Ok && n->Ok_0.action == (ProbeAction::Download { measured: true })
                && n->Ok_0.download == v.download
        },
        v.action == (ProbeAction::Download { measured: true }) ==> {
            let n = stepped(v, config, ProbeEvent::Moved { bytes, elapsed_ns });
            n is Ok && n->Ok_0.action == ProbeAction::Finish && n->Ok_0.download == (Transfer {
                bytes,
                elapsed_ns,
            })
        },
        stepped(v, config, ProbeEvent::Failed) == Err::<ProbeView, ProbeFault>(ProbeFault::Store),
{
}

/// The bytes that were moved are those of every worker.
pub proof fn every_worker_moves_bytes(workers: Seq<u64>, bytes: u64)
    ensures
        moved_bytes(workers.push(bytes)) == moved_bytes(workers) + bytes,
        moved_bytes(Seq::<u64>::empty()) == 0,
{
    assert(workers.push(bytes).drop_last() =~= workers);
}

} // verus!
