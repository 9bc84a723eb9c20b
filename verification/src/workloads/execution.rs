//! The course of one workload: warmup, measurement, draining of writes, and the checks at the end.

use crate::config::TaskConfig;
use crate::count;
use crate::count::{max_of, plus};
use crate::system;
use crate::system::{ApplicationRecorder, ApplicationRegistry, SampledMeasurement};
use crate::text::same_text;
use crate::workloads::durability::DurabilityResult;
use crate::workloads::stats;
use crate::workloads::stats::{record_error, record_success, WorkerStats};
use vstd::prelude::*;

verus! {

/// What reads of a workload must come to.
#[derive(Debug, Clone, Copy, PartialEq, Eq, Structural)]
pub enum ReadRule {
    /// The workload does not read.
    Free,
    /// Every read must find its value.
    HitsOnly,
    /// No read may find a value, and there must be some.
    MissesOnly,
}

/// What a configuration asks of its workload.
#[derive(Debug, Clone, Copy, PartialEq, Eq, Structural)]
pub struct Rules {
    pub writes: bool,
    pub warmup_ms: u64,
    pub measurement_ms: u64,
    pub reads: ReadRule,
    pub transactions: bool,
}

/// What is wrong with the counters of a phase.
#[derive(Debug, Clone, Copy, PartialEq, Eq, Structural)]
pub enum StatsError {
    OperationErrors(u64),
    MissingReads { hits: u64, misses: u64 },
    UnexpectedMisses(u64),
    UnreconciledTransactions,
}

/// What a configuration asks of its workload.
pub open spec fn rules_of(config: &TaskConfig) -> Rules {
    Rules {
        writes: config.task.writes(),
        warmup_ms: config.warmup_ms,
        measurement_ms: config.measurement_ms,
        reads: if !config.mixes("get"@) {
            ReadRule::Free
        } else if config.key_selection@ == "uniform-absent"@ {
            ReadRule::MissesOnly
        } else {
            ReadRule::HitsOnly
        },
        transactions: config.mixes("transaction"@),
    }
}

/// Reads off a configuration what it asks of its workload.
pub fn rules(config: &TaskConfig) -> (r: Rules)
    requires
        config.wf(),
    ensures
        r == rules_of(config),
{
    let reads = if config.operation_mix.get("get").is_none() {
        ReadRule::Free
    } else if same_text(config.key_selection.as_str(), "uniform-absent") {
        ReadRule::MissesOnly
    } else {
        ReadRule::HitsOnly
    };
    Rules {
        writes: config.task.may_write(),
        warmup_ms: config.warmup_ms,
        measurement_ms: config.measurement_ms,
        reads,
        transactions: config.operation_mix.get("transaction").is_some(),
    }
}

impl Rules {
    /// The first thing that is wrong with the counters of a phase.
    pub open spec fn stats_fault(self, s: WorkerStats) -> Option<StatsError> {
        if s.errors > 0 {
            Some(StatsError::OperationErrors(s.errors))
        } else if self.reads == ReadRule::MissesOnly && (s.read_hits > 0 || s.read_misses == 0) {
            Some(StatsError::MissingReads { hits: s.read_hits, misses: s.read_misses })
        } else if self.reads == ReadRule::HitsOnly && s.read_misses > 0 {
            Some(StatsError::UnexpectedMisses(s.read_misses))
        } else if self.transactions && s.transaction_attempts != count::capped_sum(
            s.transaction_commits,
            s.transaction_conflicts,
        ) {
            Some(StatsError::UnreconciledTransactions)
        } else {
            None
        }
    }

    fn check_stats(self, s: &WorkerStats) -> (r: Option<StatsError>)
        ensures
            r == self.stats_fault(*s),
    {
        if s.errors > 0 {
            return Some(StatsError::OperationErrors(s.errors));
        }
        match self.reads {
            ReadRule::MissesOnly => {
                if s.read_hits > 0 || s.read_misses == 0 {
                    return Some(
                        StatsError::MissingReads { hits: s.read_hits, misses: s.read_misses },
                    );
                }
            },
            ReadRule::HitsOnly => {
                if s.read_misses > 0 {
                    return Some(StatsError::UnexpectedMisses(s.read_misses));
                }
            },
            ReadRule::Free => {},
        }
        if self.transactions && s.transaction_attempts != plus(
            s.transaction_commits,
            s.transaction_conflicts,
        ) {
            return Some(StatsError::UnreconciledTransactions);
        }
        None
    }
}

/// Checks the counters of a phase against what its configuration asks.
pub fn validate_stats(config: &TaskConfig, s: &WorkerStats) -> (r: Result<(), StatsError>)
    requires
        config.wf(),
    ensures
        rules_of(config).stats_fault(*s) matches Some(e) ==> r == Err::<(), StatsError>(e),
        rules_of(config).stats_fault(*s) is None ==> r == Ok::<(), StatsError>(()),
        r is Ok <==> {
            let reads = config.operation_mix.map().dom().contains("get"@);
            let absent = config.key_selection@ == "uniform-absent"@;
            &&& s.errors == 0
            &&& reads && absent ==> s.read_hits == 0 && s.read_misses > 0
            &&& reads && !absent ==> s.read_misses == 0
            &&& config.operation_mix.map().dom().contains("transaction"@)
                ==> s.transaction_attempts == count::capped_sum(
                s.transaction_commits,
                s.transaction_conflicts,
            )
        },
{
    match rules(config).check_stats(s) {
        Some(e) => Err(e),
        None => Ok(()),
    }
}

/// The shares to compare where a workload mixes gets and puts.
///
/// The observed share is `gets` over `calls`, the expected one that of `expected_get` in the sum of
/// both fractions. They may differ by one hundredth.
#[derive(Debug, Clone, Copy, PartialEq, Eq, Structural)]
pub struct MixShares {
    /// Bit pattern of the configured fraction of gets.
    pub expected_get: u64,
    /// Bit pattern of the configured fraction of puts.
    pub expected_put: u64,
    pub gets: u64,
    pub calls: u64,
}

/// Collects the shares to compare, where a workload mixes gets and puts.
pub fn mix_shares(config: &TaskConfig, measurement: &SampledMeasurement) -> (r: Option<MixShares>)
    requires
        config.wf(),
        measurement.wf(),
    ensures
        !(config.mixes("get"@) && config.mixes("put"@)) ==> r is None,
        config.mixes("get"@) && config.mixes("put"@) ==> ({
            let gets = system::calls_under(measurement@.total.operations, "get"@).calls;
            let puts = system::calls_under(measurement@.total.operations, "put"@).calls;
            r == Some(
                MixShares {
                    expected_get: config.operation_mix.at("get"@),
                    expected_put: config.operation_mix.at("put"@),
                    gets,
                    calls: count::larger(count::capped_sum(gets, puts), 1),
                },
            )
        }),
{
    match (config.operation_mix.get("get"), config.operation_mix.get("put")) {
        (Some(expected_get), Some(expected_put)) => {
            let gets: u64 = measurement.operation_total("get");
            let puts: u64 = measurement.operation_total("put");
            Some(
                MixShares {
                    expected_get: *expected_get,
                    expected_put: *expected_put,
                    gets,
                    calls: max_of(plus(gets, puts), 1),
                },
            )
        },
        _ => None,
    }
}

/// Why an execution fails.
#[derive(Debug, Clone, Copy, PartialEq, Eq, Structural)]
pub enum ExecutionError {
    WarmupErrors(u64),
    WarmupFlushFailed,
    PhaseFailed,
    SamplerFailed,
    FlushFailed,
    DurabilityFailed,
    CoverageMismatch { writes: u64, samples: u64 },
    FrontierBehind { frontier: u64, last_write: u64 },
    Stats(StatsError),
    MixOutOfTolerance,
    ApplicationErrors(u64),
}

/// How long the parts of an execution took.
#[derive(Debug, Clone, Copy, PartialEq, Eq, Structural)]
pub struct ExecutionTimes {
    pub client_measurement_ns: u64,
    pub durability_drain_ns: u64,
}

/// How an execution stands when its sampler stops.
#[derive(Debug, Clone, Copy, PartialEq, Eq, Structural)]
pub enum Ending {
    Failed(ExecutionError),
    Judged { stats: WorkerStats, durable: Option<DurabilityResult>, times: ExecutionTimes },
}

/// The parts of an execution.
#[derive(Debug, Clone, Copy, PartialEq, Eq, Structural)]
pub enum Stage {
    Warming,
    FlushingWarmup,
    Measuring,
    Flushing { stats: WorkerStats, client_ns: u64 },
    Draining { stats: WorkerStats, client_ns: u64 },
    Stopping(Ending),
    Ended,
}

/// What is to be done next.
#[derive(Debug, Clone, Copy, PartialEq, Eq)]
pub enum Action {
    /// Run clients without recording.
    Warm { duration_ms: u64 },
    /// Flush the writes of the warmup.
    FlushWarmup,
    /// Start the sampler, then durability tracking where asked, then run clients.
    Measure { duration_ms: u64, track: bool },
    /// Flush the measured writes, and record the flush.
    Flush,
    /// Wait until the measured writes are durable.
    FinishDurability,
    /// Stop the sampler, after giving up durability tracking where asked.
    StopSampling { abandon: bool },
    /// The execution is over.
    Done(Result<ExecutionTimes, ExecutionError>),
}

/// What was done.
#[derive(Debug, Clone, Copy, PartialEq, Eq, Structural)]
pub enum Event {
    PhaseEnded { stats: Option<WorkerStats>, elapsed_ns: u64 },
    FlushEnded { flushed: bool },
    DurabilityEnded { result: Option<DurabilityResult>, drain_ns: u64 },
    SamplingStopped { application_errors: u64, mix_in_tolerance: bool },
    SamplingFailed,
}

/// Whether an event can come in a stage.
pub open spec fn fits(stage: Stage, event: Event) -> bool {
    match stage {
        Stage::Warming | Stage::Measuring => event is PhaseEnded,
        Stage::FlushingWarmup | Stage::Flushing { .. } => event is FlushEnded,
        Stage::Draining { .. } => event is DurabilityEnded,
        Stage::Stopping(_) => event is SamplingStopped || event is SamplingFailed,
        Stage::Ended => false,
    }
}

/// What is wrong with the durability of measured writes.
pub open spec fn durability_fault(s: WorkerStats, durable: Option<DurabilityResult>) -> Option<
    ExecutionError,
> {
    match durable {
        None => None,
        Some(d) => if d.count != s.writes {
            Some(ExecutionError::CoverageMismatch { writes: s.writes, samples: d.count })
        } else {
            match s.last_write_sequence {
                Some(last) => if d.final_durable_sequence < last {
                    Some(
                        ExecutionError::FrontierBehind {
                            frontier: d.final_durable_sequence,
                            last_write: last,
                        },
                    )
                } else {
                    None
                },
                None => None,
            }
        },
    }
}

impl Rules {
    /// The stage and action after the warmup.
    pub open spec fn measuring(self) -> (Stage, Action) {
        (
            Stage::Measuring,
            Action::Measure { duration_ms: self.measurement_ms, track: self.writes },
        )
    }

    /// The stage and action that an execution starts with.
    pub open spec fn opening(self) -> (Stage, Action) {
        if self.warmup_ms > 0 {
            (Stage::Warming, Action::Warm { duration_ms: self.warmup_ms })
        } else {
            self.measuring()
        }
    }

    /// What an execution comes to when its sampler has stopped.
    pub open spec fn verdict(self, ending: Ending, event: Event) -> Result<
        ExecutionTimes,
        ExecutionError,
    > {
        match event {
            Event::SamplingStopped { application_errors, mix_in_tolerance } => match ending {
                Ending::Failed(e) => Err(e),
                Ending::Judged { stats, durable, times } => if durability_fault(
                    stats,
                    durable,
                ) is Some {
                    Err(durability_fault(stats, durable)->0)
                } else if self.stats_fault(stats) is Some {
                    Err(ExecutionError::Stats(self.stats_fault(stats)->0))
                } else if !mix_in_tolerance {
                    Err(ExecutionError::MixOutOfTolerance)
                } else if application_errors > 0 {
                    Err(ExecutionError::ApplicationErrors(application_errors))
                } else {
                    Ok(times)
                },
            },
            _ => Err(ExecutionError::SamplerFailed),
        }
    }

    /// The stage and action after an event.
    pub open spec fn following(self, stage: Stage, event: Event) -> (Stage, Action) {
        match (stage, event) {
            (Stage::Warming, Event::PhaseEnded { stats: None, .. }) => (
                Stage::Ended,
                Action::Done(Err(ExecutionError::PhaseFailed)),
            ),
            (Stage::Warming, Event::PhaseEnded { stats: Some(s), .. }) => if s.errors > 0 {
                (Stage::Ended, Action::Done(Err(ExecutionError::WarmupErrors(s.errors))))
            } else if self.stats_fault(s) is Some {
                (
                    Stage::Ended,
                    Action::Done(Err(ExecutionError::Stats(self.stats_fault(s)->0))),
                )
            } else if self.writes {
                (Stage::FlushingWarmup, Action::FlushWarmup)
            } else {
                self.measuring()
            },
            (Stage::FlushingWarmup, Event::FlushEnded { flushed }) => if flushed {
                self.measuring()
            } else {
                (Stage::Ended, Action::Done(Err(ExecutionError::WarmupFlushFailed)))
            },
            (Stage::Measuring, Event::PhaseEnded { stats: None, .. }) => (
                Stage::Stopping(Ending::Failed(ExecutionError::PhaseFailed)),
                Action::StopSampling { abandon: self.writes },
            ),
            (Stage::Measuring, Event::PhaseEnded { stats: Some(s), elapsed_ns }) => if self.writes {
                (Stage::Flushing { stats: s, client_ns: elapsed_ns }, Action::Flush)
            } else {
                (
                    Stage::Stopping(
                        Ending::Judged {
                            stats: s,
                            durable: None,
                            times: ExecutionTimes {
                                client_measurement_ns: elapsed_ns,
                                durability_drain_ns: 0,
                            },
                        },
                    ),
                    Action::StopSampling { abandon: false },
                )
            },
            (Stage::Flushing { stats, client_ns }, Event::FlushEnded { flushed }) => if flushed {
                (Stage::Draining { stats, client_ns }, Action::FinishDurability)
            } else {
                (
                    Stage::Stopping(Ending::Failed(ExecutionError::FlushFailed)),
                    Action::StopSampling { abandon: true },
                )
            },
            (
                Stage::Draining { stats, client_ns },
                Event::DurabilityEnded { result: Some(d), drain_ns },
            ) => (
                Stage::Stopping(
                    Ending::Judged {
                        stats,
                        durable: Some(d),
                        times: ExecutionTimes {
                            client_measurement_ns: client_ns,
                            durability_drain_ns: drain_ns,
                        },
                    },
                ),
                Action::StopSampling { abandon: false },
            ),
            (Stage::Draining { .. }, Event::DurabilityEnded { result: None, .. }) => (
                Stage::Stopping(Ending::Failed(ExecutionError::DurabilityFailed)),
                Action::StopSampling { abandon: false },
            ),
            (Stage::Stopping(ending), e) => (Stage::Ended, Action::Done(self.verdict(ending, e))),
            _ => (stage, Action::Done(Err(ExecutionError::PhaseFailed))),
        }
    }
}

fn check_durability(s: &WorkerStats, durable: Option<DurabilityResult>) -> (r: Option<
    ExecutionError,
>)
    ensures
        r == durability_fault(*s, durable),
{
    if let Some(d) = durable {
        if d.count != s.writes {
            return Some(ExecutionError::CoverageMismatch { writes: s.writes, samples: d.count });
        }
        if let Some(last) = s.last_write_sequence {
            if d.final_durable_sequence < last {
                return Some(
                    ExecutionError::FrontierBehind {
                        frontier: d.final_durable_sequence,
                        last_write: last,
                    },
                );
            }
        }
    }
    None
}

/// One workload on its way from warmup to verdict.
pub struct Execution {
    rules: Rules,
    stage: Stage,
}

impl Execution {
    /// What the configuration asks.
    pub closed spec fn rules(&self) -> Rules {
        self.rules
    }

    /// Where the execution stands.
    pub closed spec fn stage(&self) -> Stage {
        self.stage
    }

    /// Starts an execution, and says what is to be done first.
    pub fn start(config: &TaskConfig) -> (r: (Self, Action))
        requires
            config.wf(),
        ensures
            r.0.rules() == rules_of(config),
            (r.0.stage(), r.1) == rules_of(config).opening(),
    {
        let rules = rules(config);
        if rules.warmup_ms > 0 {
            (
                Execution { rules, stage: Stage::Warming },
                Action::Warm { duration_ms: rules.warmup_ms },
            )
        } else {
            (
                Execution { rules, stage: Stage::Measuring },
                Action::Measure { duration_ms: rules.measurement_ms, track: rules.writes },
            )
        }
    }

    fn go(&mut self, stage: Stage, action: Action) -> (r: Action)
        ensures
            final(self).rules() == old(self).rules(),
            (final(self).stage(), r) == (stage, action),
    {
        self.stage = stage;
        action
    }

    fn fail(&mut self, error: ExecutionError) -> (r: Action)
        ensures
            final(self).rules() == old(self).rules(),
            (final(self).stage(), r) == (Stage::Ended, Action::Done(Err(error))),
    {
        self.go(Stage::Ended, Action::Done(Err(error)))
    }

    fn measure(&mut self) -> (r: Action)
        ensures
            final(self).rules() == old(self).rules(),
            (final(self).stage(), r) == old(self).rules().measuring(),
    {
        let duration_ms: u64 = self.rules.measurement_ms;
        let track = self.rules.writes;
        self.go(Stage::Measuring, Action::Measure { duration_ms, track })
    }

    fn judge(&self, ending: Ending, event: Event) -> (r: Result<ExecutionTimes, ExecutionError>)
        ensures
            r == self.rules().verdict(ending, event),
    {
        let (application_errors, mix_in_tolerance): (u64, bool) = match event {
            Event::SamplingStopped { application_errors, mix_in_tolerance } => (
                application_errors,
                mix_in_tolerance,
            ),
            _ => {
                return Err(ExecutionError::SamplerFailed);
            },
        };
        match ending {
            Ending::Failed(e) => Err(e),
            Ending::Judged { stats, durable, times } => {
                if let Some(e) = check_durability(&stats, durable) {
                    return Err(e);
                }
                if let Some(e) = self.rules.check_stats(&stats) {
                    return Err(ExecutionError::Stats(e));
                }
                if !mix_in_tolerance {
                    return Err(ExecutionError::MixOutOfTolerance);
                }
                if application_errors > 0 {
                    return Err(ExecutionError::ApplicationErrors(application_errors));
                }
                Ok(times)
            },
        }
    }

    /// Takes note of what was done, and says what is to be done next.
    pub fn advance(&mut self, event: Event) -> (r: Action)
        requires
            fits(old(self).stage(), event),
        ensures
            final(self).rules() == old(self).rules(),
            (final(self).stage(), r) == old(self).rules().following(old(self).stage(), event),
    {
        let writes = self.rules.writes;
        match self.stage {
            Stage::Warming => match event {
                Event::PhaseEnded { stats: Some(s), .. } => {
                    if s.errors > 0 {
                        self.fail(ExecutionError::WarmupErrors(s.errors))
                    } else if let Some(e) = self.rules.check_stats(&s) {
                        self.fail(ExecutionError::Stats(e))
                    } else if writes {
                        self.go(Stage::FlushingWarmup, Action::FlushWarmup)
                    } else {
                        self.measure()
                    }
                },
                _ => self.fail(ExecutionError::PhaseFailed),
            },
            Stage::FlushingWarmup => match event {
                Event::FlushEnded { flushed: true } => self.measure(),
                _ => self.fail(ExecutionError::WarmupFlushFailed),
            },
            Stage::Measuring => match event {
                Event::PhaseEnded { stats: Some(s), elapsed_ns } => {
                    if writes {
                        self.go(Stage::Flushing { stats: s, client_ns: elapsed_ns }, Action::Flush)
                    } else {
                        let times = ExecutionTimes {
                            client_measurement_ns: elapsed_ns,
                            durability_drain_ns: 0,
                        };
                        self.go(
                            Stage::Stopping(Ending::Judged { stats: s, durable: None, times }),
                            Action::StopSampling { abandon: false },
                        )
                    }
                },
                _ => self.go(
                    Stage::Stopping(Ending::Failed(ExecutionError::PhaseFailed)),
                    Action::StopSampling { abandon: writes },
                ),
            },
            Stage::Flushing { stats, client_ns } => match event {
                Event::FlushEnded { flushed: true } => self.go(
                    Stage::Draining { stats, client_ns },
                    Action::FinishDurability,
                ),
                _ => self.go(
                    Stage::Stopping(Ending::Failed(ExecutionError::FlushFailed)),
                    Action::StopSampling { abandon: true },
                ),
            },
            Stage::Draining { stats, client_ns } => match event {
                Event::DurabilityEnded { result: Some(d), drain_ns } => {
                    let times = ExecutionTimes {
                        client_measurement_ns: client_ns,
                        durability_drain_ns: drain_ns,
                    };
                    self.go(
                        Stage::Stopping(Ending::Judged { stats, durable: Some(d), times }),
                        Action::StopSampling { abandon: false },
                    )
                },
                _ => self.go(
                    Stage::Stopping(Ending::Failed(ExecutionError::DurabilityFailed)),
                    Action::StopSampling { abandon: false },
                ),
            },
            Stage::Stopping(ending) => {
                let verdict = self.judge(ending, event);
                self.go(Stage::Ended, Action::Done(verdict))
            },
            Stage::Ended => Action::Done(Err(ExecutionError::PhaseFailed)),
        }
    }
}

/// Records the flush at the end of a measurement.
pub fn record_flush(
    recorder: ApplicationRecorder,
    registry: &mut ApplicationRegistry,
    flushed: bool,
    latency_ns: u64,
)
    requires
        stats::records(old(registry), Some(recorder)),
    ensures
        stats::records(final(registry), Some(recorder)),
        final(registry).activities() == stats::after_call(
            old(registry).activities(),
            Some(recorder),
            "flush"@,
            latency_ns,
            0,
            !flushed,
        ),
{
    if flushed {
        recorder.record_success(registry, "flush", latency_ns, 0);
    } else {
        recorder.record_error(registry, "flush", latency_ns);
    }
}

/// Counters are accepted exactly where no operation failed, reads found what the configuration
/// asks for, and transactions add up: a configuration with gets allows no read of a record to miss,
/// unless its keys are absent, in which case every read must miss and there must be some.
pub proof fn counters_are_judged_by_the_configuration(config: &TaskConfig, s: WorkerStats)
    ensures
        s.errors > 0 ==> rules_of(config).stats_fault(s) == Some(
            StatsError::OperationErrors(s.errors),
        ),
        s.errors == 0 && config.operation_mix.map().dom().contains("get"@) ==> {
            &&& config.key_selection@ != "uniform-absent"@ && s.read_misses > 0 ==> rules_of(
                config,
            ).stats_fault(s) == Some(StatsError::UnexpectedMisses(s.read_misses))
            &&& config.key_selection@ == "uniform-absent"@ && (s.read_hits > 0 || s.read_misses
                == 0) ==> rules_of(config).stats_fault(s) == Some(
                StatsError::MissingReads { hits: s.read_hits, misses: s.read_misses },
            )
        },
        config.operation_mix.map().dom().contains("transaction"@) && s.transaction_commits
            + s.transaction_conflicts <= u64::MAX && s.transaction_commits
            + s.transaction_conflicts != s.transaction_attempts ==> rules_of(config).stats_fault(
            s,
        ) is Some,
        rules_of(config).stats_fault(s) is Some ==> {
            ||| s.errors > 0
            ||| config.operation_mix.map().dom().contains("get"@) && config.key_selection@
                != "uniform-absent"@ && s.read_misses > 0
            ||| config.operation_mix.map().dom().contains("get"@) && config.key_selection@
                == "uniform-absent"@ && (s.read_hits > 0 || s.read_misses == 0)
            ||| config.operation_mix.map().dom().contains("transaction"@)
                && s.transaction_attempts != s.transaction_commits + s.transaction_conflicts
        },
{
}

/// An execution succeeds only from counters without errors that meet the configuration, with every
/// accepted write durable and no failed call.
pub proof fn successful_executions_are_sound(rules: Rules, stage: Stage, event: Event)
    requires
        fits(stage, event),
        rules.following(stage, event).1 is Done,
        rules.following(stage, event).1->Done_0 is Ok,
    ensures
        stage is Stopping,
        stage->Stopping_0 is Judged,
        event is SamplingStopped,
        event->application_errors == 0,
        event->mix_in_tolerance,
        ({
            let s = stage->Stopping_0->stats;
            let durable = stage->Stopping_0->durable;
            &&& s.errors == 0
            &&& rules.stats_fault(s) is None
            &&& durable is Some ==> durable->0.count == s.writes && (s.last_write_sequence is Some
                ==> durable->0.final_durable_sequence >= s.last_write_sequence->0)
        }),
{
}

/// A workload that writes is judged with what durability tracking found.
pub proof fn writers_are_judged_with_their_durability(rules: Rules, stage: Stage, event: Event)
    requires
        fits(stage, event),
        rules.writes,
        rules.following(stage, event).0 is Stopping,
        rules.following(stage, event).0->Stopping_0 is Judged,
    ensures
        rules.following(stage, event).0->Stopping_0->durable is Some,
        stage is Draining,
{
}

/// Durability tracking that was started is finished or given up before the sampler stops, and
/// tracking that was not started is neither.
pub proof fn tracking_ends_before_sampling(rules: Rules, stage: Stage, event: Event)
    requires
        fits(stage, event),
        rules.following(stage, event).1 is StopSampling,
    ensures
        rules.following(stage, event).1->abandon ==> stage is Measuring && rules.writes
            || stage is Flushing,
        !rules.following(stage, event).1->abandon ==> stage is Draining || !rules.writes,
{
}

/// An execution warms up and measures for as long as its configuration says, and tracks durability
/// exactly where its task writes.
pub proof fn executions_follow_their_configuration(config: &TaskConfig)
    ensures
        ({
            let (stage, action) = rules_of(config).opening();
            &&& config.warmup_ms > 0 ==> stage == Stage::Warming && action == (Action::Warm {
                duration_ms: config.warmup_ms,
            })
            &&& config.warmup_ms == 0 ==> (stage, action) == rules_of(config).measuring()
        }),
        ({
            let (stage, action) = rules_of(config).measuring();
            &&& stage == Stage::Measuring
            &&& action == (Action::Measure {
                duration_ms: config.measurement_ms,
                track: rules_of(config).writes,
            })
        }),
        rules_of(config).writes <==> (config.task == crate::config::Task::BulkLoad || config.task
            == crate::config::Task::ReadHeavy || config.task == crate::config::Task::Balanced
            || config.task == crate::config::Task::UpdateHeavy || config.task
            == crate::config::Task::SustainedIngest || config.task
            == crate::config::Task::TransactionContention),
{
}

/// Measured writes are durable exactly where each has one durable latency and the frontier reached
/// the last of them.
pub proof fn durability_is_judged_by_coverage(s: WorkerStats, d: DurabilityResult)
    ensures
        durability_fault(s, Some(d)) is None <==> d.count == s.writes && (s.last_write_sequence
            matches Some(last) ==> d.final_durable_sequence >= last),
        d.count != s.writes ==> durability_fault(s, Some(d)) == Some(
            ExecutionError::CoverageMismatch { writes: s.writes, samples: d.count },
        ),
        durability_fault(s, None) is None,
{
}

/// An execution whose counters, durability, mix and calls are all in order succeeds, with the times
/// of its phase and of its drain.
pub proof fn sound_executions_succeed(
    rules: Rules,
    s: WorkerStats,
    durable: Option<DurabilityResult>,
    times: ExecutionTimes,
)
    requires
        rules.stats_fault(s) is None,
        durability_fault(s, durable) is None,
    ensures
        rules.following(
            Stage::Stopping(Ending::Judged { stats: s, durable, times }),
            Event::SamplingStopped { application_errors: 0, mix_in_tolerance: true },
        ) == (Stage::Ended, Action::Done(Ok(times))),
{
}

/// A phase that fails, a warmup with errors, a flush or a drain that fails, and a sampler that
/// fails each end the execution with their own error.
pub proof fn failures_end_executions(rules: Rules, s: WorkerStats, client_ns: u64, elapsed_ns: u64)
    ensures
        rules.following(Stage::Warming, Event::PhaseEnded { stats: None, elapsed_ns }).1
            == Action::Done(Err(ExecutionError::PhaseFailed)),
        s.errors > 0 ==> rules.following(
            Stage::Warming,
            Event::PhaseEnded { stats: Some(s), elapsed_ns },
        ).1 == Action::Done(Err(ExecutionError::WarmupErrors(s.errors))),
        rules.following(Stage::FlushingWarmup, Event::FlushEnded { flushed: false }).1
            == Action::Done(Err(ExecutionError::WarmupFlushFailed)),
        rules.following(Stage::Measuring, Event::PhaseEnded { stats: None, elapsed_ns }).0
            == Stage::Stopping(Ending::Failed(ExecutionError::PhaseFailed)),
        rules.following(
            Stage::Flushing { stats: s, client_ns },
            Event::FlushEnded { flushed: false },
        ).0 == Stage::Stopping(Ending::Failed(ExecutionError::FlushFailed)),
        rules.following(
            Stage::Draining { stats: s, client_ns },
            Event::DurabilityEnded { result: None, drain_ns: elapsed_ns },
        ).0 == Stage::Stopping(Ending::Failed(ExecutionError::DurabilityFailed)),
        rules.following(
            Stage::Stopping(Ending::Failed(ExecutionError::FlushFailed)),
            Event::SamplingStopped { application_errors: 0, mix_in_tolerance: true },
        ).1 == Action::Done(Err(ExecutionError::FlushFailed)),
        rules.following(
            Stage::Stopping(Ending::Failed(ExecutionError::PhaseFailed)),
            Event::SamplingFailed,
        ).1 == Action::Done(Err(ExecutionError::SamplerFailed)),
{
}

} // verus!
