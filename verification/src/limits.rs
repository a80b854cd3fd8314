//! The limits that stop a run.

use vstd::prelude::*;
use crate::egraph::{EGraph, Probe, Symbol};
use crate::memory::{IterationMemoryPeak, MemoryReport, MemorySamplePhase, MemoryTracker};

verus! {

/// Why a runner stopped.
#[derive(Debug, PartialEq, Eq)]
pub enum StopReason {
    /// The e-graph saturated, i.e., there was an iteration where we
    /// didn't learn anything new from applying the rules.
    Saturated,
    /// The iteration limit was hit. The data is the iteration limit.
    IterationLimit(usize),
    /// The e-node limit was hit. The data is the e-node limit.
    NodeLimit(usize),
    /// The time limit was hit. The data is the time limit in nanoseconds.
    TimeLimit(u64),
    /// The absolute process live-heap limit was reached or exceeded. The data
    /// is the observed absolute live heap in bytes.
    MemoryLimit(u64),
    /// Some other reason to stop.
    Other(String),
}

impl Clone for StopReason {
    fn clone(&self) -> (r: Self)
        ensures
            r == *self,
    {
        match self {
            StopReason::Saturated => StopReason::Saturated,
            StopReason::IterationLimit(limit) => StopReason::IterationLimit(*limit),
            StopReason::NodeLimit(limit) => StopReason::NodeLimit(*limit),
            StopReason::TimeLimit(limit) => StopReason::TimeLimit(*limit),
            StopReason::MemoryLimit(reading) => StopReason::MemoryLimit(*reading),
            StopReason::Other(message) => StopReason::Other(message.clone()),
        }
    }
}

/// The result of a step that may stop the runner.
pub type RunnerResult<T> = Result<T, StopReason>;

/// The time from `start` to `now`: zero where `now` is not later.
pub open spec fn elapsed_since(start: u64, now: u64) -> u64 {
    if now > start {
        (now - start) as u64
    } else {
        0
    }
}

/// Describes the limits that would stop a runner, and observes the process for
/// them.
#[derive(Debug)]
pub struct RunnerLimits<P> {
    iter_limit: usize,
    node_limit: usize,
    time_limit: u64,
    start_time: Option<u64>,
    memory: Option<MemoryTracker>,
    probe: P,
}

/// What [`RunnerLimits`] hold.
pub struct LimitsModel<P> {
    /// The number of iterations at which a run stops.
    pub iter_limit: usize,
    /// The largest e-graph size at which a run goes on.
    pub node_limit: usize,
    /// The longest time, in nanoseconds, for which a run goes on.
    pub time_limit: u64,
    /// When the run started, if it has.
    pub start_time: Option<u64>,
    /// The memory accounting, if there is any.
    pub memory: Option<MemoryTracker>,
    /// The process, as it was last observed.
    pub probe: P,
}

impl<P> View for RunnerLimits<P> {
    type V = LimitsModel<P>;

    closed spec fn view(&self) -> LimitsModel<P> {
        LimitsModel {
            iter_limit: self.iter_limit,
            node_limit: self.node_limit,
            time_limit: self.time_limit,
            start_time: self.start_time,
            memory: self.memory,
            probe: self.probe,
        }
    }
}

impl<P> LimitsModel<P> {
    /// What the limit check says at the start of iteration `iteration`, at
    /// time `now`, for an e-graph of size `size` and a memory reading. Time
    /// comes before size, size before iterations and iterations before memory.
    pub open spec fn check(
        self,
        iteration: usize,
        now: u64,
        size: usize,
        reading: Option<u64>,
    ) -> RunnerResult<()> {
        if elapsed_since(self.start_time->0, now) > self.time_limit {
            Err(StopReason::TimeLimit(self.time_limit))
        } else if size > self.node_limit {
            Err(StopReason::NodeLimit(self.node_limit))
        } else if iteration >= self.iter_limit {
            Err(StopReason::IterationLimit(self.iter_limit))
        } else if self.over_ceiling(reading) {
            Err(StopReason::MemoryLimit(reading->0))
        } else {
            Ok(())
        }
    }

    /// Whether a memory reading reaches a configured ceiling.
    pub open spec fn over_ceiling(self, reading: Option<u64>) -> bool {
        &&& self.memory is Some
        &&& self.memory->0.absolute_limit is Some
        &&& reading is Some
        &&& reading->0 >= self.memory->0.absolute_limit->0
    }

    /// The limits once an iteration has begun with a sample.
    pub open spec fn having_begun(self, sample: Option<u64>) -> Self {
        LimitsModel {
            memory: match self.memory {
                Some(memory) => Some(memory.having_begun(sample->0)),
                None => None,
            },
            ..self
        }
    }

    /// The limits once a sample has been taken at a boundary.
    pub open spec fn having_sampled(
        self,
        phase: MemorySamplePhase,
        rule: Option<Symbol>,
        sample: Option<u64>,
    ) -> Self {
        LimitsModel {
            memory: match self.memory {
                Some(memory) => Some(memory.having_sampled(phase, rule, sample->0)),
                None => None,
            },
            ..self
        }
    }

    /// The limits once the run has ended with a sample.
    pub open spec fn having_finished(self, sample: Option<u64>) -> Self {
        LimitsModel {
            memory: match self.memory {
                Some(memory) => Some(memory.having_finished(sample->0)),
                None => None,
            },
            ..self
        }
    }

    /// The most recent sample.
    pub open spec fn latest(self) -> Option<u64> {
        match self.memory {
            Some(memory) => Some(memory.latest),
            None => None,
        }
    }

    /// The peak of the current iteration.
    pub open spec fn iteration_peak(self) -> Option<IterationMemoryPeak> {
        match self.memory {
            Some(memory) => memory.iteration_peak,
            None => None,
        }
    }

    /// The ceiling on memory.
    pub open spec fn ceiling(self) -> Option<u64> {
        match self.memory {
            Some(memory) => memory.absolute_limit,
            None => None,
        }
    }

    /// The report of a finished run.
    pub open spec fn final_report(self) -> Option<MemoryReport> {
        match self.memory {
            Some(memory) => memory.report(),
            None => None,
        }
    }

    /// Both have the same limits.
    pub open spec fn same_limits(self, other: Self) -> bool {
        &&& self.iter_limit == other.iter_limit
        &&& self.node_limit == other.node_limit
        &&& self.time_limit == other.time_limit
        &&& self.memory is Some == other.memory is Some
        &&& self.ceiling() == other.ceiling()
    }

    /// Both have the same limits and start; only memory readings may differ.
    pub open spec fn same_settings(self, other: Self) -> bool {
        &&& self.same_limits(other)
        &&& self.start_time == other.start_time
    }
}

impl<P: Probe> LimitsModel<P> {
    /// Reading the clock can give `now` and leave `after`. Nothing but the observed
    /// process differs.
    pub open spec fn tells(self, now: u64, after: Self) -> bool {
        &&& P::tells(self.probe, now, after.probe)
        &&& after == (LimitsModel { probe: after.probe, ..self })
    }

    /// Sampling memory can give `sample` and leave `probe`. A sample is taken if and
    /// only if memory is tracked.
    pub open spec fn samples(self, sample: Option<u64>, probe: P) -> bool {
        match sample {
            Some(reading) => self.memory is Some && P::samples(self.probe, reading, probe),
            None => self.memory is None && probe == self.probe,
        }
    }
}

/// `size` is a size that the e-graph can report.
pub open spec fn reads_size<G: EGraph>(egraph: G, size: usize) -> bool {
    call_ensures(G::total_size, (&egraph,), size)
}

/// `after` and `result` are what a limit check can leave and say: the clock is read,
/// and the e-graph reports its size.
pub open spec fn checked<G: EGraph, P: Probe>(
    before: LimitsModel<P>,
    iteration: usize,
    egraph: G,
    reading: Option<u64>,
    after: LimitsModel<P>,
    result: RunnerResult<()>,
) -> bool {
    exists|now: u64, size: usize|
        #![trigger before.tells(now, after), reads_size(egraph, size)]
        {
            &&& before.tells(now, after)
            &&& reads_size(egraph, size)
            &&& result == before.check(iteration, now, size, reading)
        }
}

/// `after` is what a memory sample at a boundary can leave.
pub open spec fn sampled_at<P: Probe>(
    before: LimitsModel<P>,
    phase: MemorySamplePhase,
    rule: Option<Symbol>,
    sample: Option<u64>,
    after: LimitsModel<P>,
) -> bool {
    &&& before.samples(sample, after.probe)
    &&& after == (LimitsModel { probe: after.probe, ..before.having_sampled(phase, rule, sample) })
}

/// `after` and `result` are what a limit check at a boundary can leave and say:
/// memory is sampled there, where it is tracked, and then the limits are checked.
pub open spec fn checked_at<G: EGraph, P: Probe>(
    before: LimitsModel<P>,
    iteration: usize,
    egraph: G,
    phase: MemorySamplePhase,
    rule: Option<Symbol>,
    after: LimitsModel<P>,
    result: RunnerResult<()>,
) -> bool {
    exists|sample: Option<u64>, between: LimitsModel<P>| #[trigger]
        sampled_at(before, phase, rule, sample, between) && checked(
            between,
            iteration,
            egraph,
            sample,
            after,
            result,
        )
}

/// `after` is what starting the clock can leave: the start stays, once there is
/// one.
pub open spec fn started<P: Probe>(before: LimitsModel<P>, after: LimitsModel<P>) -> bool {
    match before.start_time {
        Some(_) => after == before,
        None => exists|now: u64, between: LimitsModel<P>| #[trigger]
            before.tells(now, between) && after == (LimitsModel {
                start_time: Some(now),
                ..between
            }),
    }
}

/// `after` is what the memory sample at the start of an iteration can leave.
pub open spec fn sampled_at_start<P: Probe>(
    before: LimitsModel<P>,
    sample: Option<u64>,
    after: LimitsModel<P>,
) -> bool {
    &&& before.samples(sample, after.probe)
    &&& after == (LimitsModel { probe: after.probe, ..before.having_begun(sample) })
}

/// `after` and `result` are what beginning an iteration can leave and say.
pub open spec fn begun<G: EGraph, P: Probe>(
    before: LimitsModel<P>,
    iteration: usize,
    egraph: G,
    after: LimitsModel<P>,
    result: RunnerResult<()>,
) -> bool {
    exists|sample: Option<u64>, between: LimitsModel<P>| #[trigger]
        sampled_at_start(before, sample, between) && checked(
            between,
            iteration,
            egraph,
            sample,
            after,
            result,
        )
}

/// `after` is what the memory sample at the end of a run can leave.
pub open spec fn sampled_at_end<P: Probe>(
    before: LimitsModel<P>,
    sample: Option<u64>,
    after: LimitsModel<P>,
) -> bool {
    &&& before.samples(sample, after.probe)
    &&& after == (LimitsModel { probe: after.probe, ..before.having_finished(sample) })
}

impl<P: Probe> RunnerLimits<P> {
    /// Limits for a run that has not started.
    pub fn new(
        iter_limit: usize,
        node_limit: usize,
        time_limit: u64,
        memory: Option<MemoryTracker>,
        probe: P,
    ) -> (r: Self)
        ensures
            r@ == (LimitsModel {
                iter_limit,
                node_limit,
                time_limit,
                start_time: None,
                memory,
                probe,
            }),
    {
        RunnerLimits { iter_limit, node_limit, time_limit, start_time: None, memory, probe }
    }

    /// What the limit check says for given readings.
    pub fn limit_hit(&self, iteration: usize, now: u64, size: usize, memory_reading: Option<u64>)
        -> (r: RunnerResult<()>)
        requires
            self@.start_time is Some,
        ensures
            r == self@.check(iteration, now, size, memory_reading),
    {
        let start: u64 = self.start_time.unwrap();
        if now.saturating_sub(start) > self.time_limit {
            return Err(StopReason::TimeLimit(self.time_limit));
        }
        if size > self.node_limit {
            return Err(StopReason::NodeLimit(self.node_limit));
        }
        if iteration >= self.iter_limit {
            return Err(StopReason::IterationLimit(self.iter_limit));
        }
        if let (Some(memory), Some(reading)) = (&self.memory, memory_reading) {
            if let Some(limit) = memory.absolute_limit {
                if reading >= limit {
                    return Err(StopReason::MemoryLimit(reading));
                }
            }
        }
        Ok(())
    }
}

impl<P: Probe> RunnerLimits<P> {
    /// The time that the clock shows.
    pub fn read_clock(&mut self) -> (r: u64)
        ensures
            old(self)@.tells(r, final(self)@),
    {
        self.probe.now()
    }

    /// Checks the limits at the present time and size, with a memory reading
    /// that was taken before.
    pub fn check_reading<G: EGraph>(
        &mut self,
        iteration: usize,
        egraph: &G,
        memory_reading: Option<u64>,
    ) -> (r: RunnerResult<()>)
        requires
            old(self)@.start_time is Some,
        ensures
            checked(old(self)@, iteration, *egraph, memory_reading, final(self)@, r),
    {
        let now = self.read_clock();
        let size: usize = egraph.total_size();
        assert(reads_size(*egraph, size));
        self.limit_hit(iteration, now, size, memory_reading)
    }

    /// Starts an iteration: samples memory, starts the iteration's peak over
    /// and checks the limits.
    pub fn begin_iteration<G: EGraph>(&mut self, iteration: usize, egraph: &G) -> (r: RunnerResult<
        (),
    >)
        requires
            old(self)@.start_time is Some,
        ensures
            begun(old(self)@, iteration, *egraph, final(self)@, r),
    {
        let sample = match &mut self.memory {
            Some(memory) => Some(memory.begin_iteration(self.probe.live_heap())),
            None => None,
        };
        assert(sampled_at_start(old(self)@, sample, self@));
        self.check_reading(iteration, egraph, sample)
    }

    /// Check limits using one process-memory reading attributed to `phase`.
    pub fn check_limits_at<G: EGraph>(
        &mut self,
        iteration: usize,
        egraph: &G,
        phase: MemorySamplePhase,
        rule: Option<Symbol>,
    ) -> (r: RunnerResult<()>)
        requires
            old(self)@.start_time is Some,
        ensures
            checked_at(old(self)@, iteration, *egraph, phase, rule, final(self)@, r),
    {
        let sample = self.sample_memory(phase, rule);
        self.check_reading(iteration, egraph, sample)
    }

    /// Limit check for custom schedulers that cannot attribute a boundary to a
    /// specific rule.
    pub fn check_limits<G: EGraph>(&mut self, iteration: usize, egraph: &G) -> (r: RunnerResult<()>)
        requires
            old(self)@.start_time is Some,
        ensures
            checked_at(
                old(self)@,
                iteration,
                *egraph,
                MemorySamplePhase::AfterRuleSearch,
                None,
                final(self)@,
                r,
            ),
    {
        self.check_limits_at(iteration, egraph, MemorySamplePhase::AfterRuleSearch, None)
    }

    /// Takes, stores and returns a fresh sample attributed to `phase`, where
    /// memory is tracked.
    pub fn sample_memory(&mut self, phase: MemorySamplePhase, rule: Option<Symbol>) -> (r: Option<
        u64,
    >)
        ensures
            sampled_at(old(self)@, phase, rule, r, final(self)@),
    {
        match &mut self.memory {
            Some(memory) => Some(memory.sample_at(phase, rule, self.probe.live_heap())),
            None => None,
        }
    }

    /// Starts the clock, unless it runs already.
    pub fn try_start(&mut self)
        ensures
            started(old(self)@, final(self)@),
            final(self)@.start_time is Some,
    {
        if self.start_time.is_none() {
            let now = self.read_clock();
            self.start_time = Some(now);
        }
    }

    /// Takes and stores a sample at the end of a run, where memory is tracked.
    pub fn finish(&mut self)
        ensures
            exists|sample: Option<u64>| #[trigger]
                sampled_at_end(old(self)@, sample, final(self)@),
    {
        let ghost mut sample: Option<u64> = None;
        match &mut self.memory {
            Some(memory) => {
                let reading = self.probe.live_heap();
                proof {
                    sample = Some(reading);
                }
                memory.finish(reading);
            },
            None => {},
        }
        assert(sampled_at_end(old(self)@, sample, self@));
    }

    /// The most recent sample.
    pub fn memory_reading(&self) -> (r: Option<u64>)
        ensures
            r == self@.latest(),
    {
        match &self.memory {
            Some(memory) => Some(memory.latest),
            None => None,
        }
    }

    /// The current iteration's peak-memory telemetry.
    pub fn iteration_memory_peak(&self) -> (r: Option<IterationMemoryPeak>)
        ensures
            r == self@.iteration_peak(),
    {
        match &self.memory {
            Some(memory) => memory.iteration_peak(),
            None => None,
        }
    }

    /// The configured absolute process live-heap ceiling.
    pub fn absolute_memory_limit(&self) -> (r: Option<u64>)
        ensures
            r == self@.ceiling(),
    {
        match &self.memory {
            Some(memory) => memory.absolute_limit,
            None => None,
        }
    }

    /// The final report, once memory has been finalized.
    pub fn final_memory_report(&self) -> (r: Option<MemoryReport>)
        ensures
            r == self@.final_report(),
    {
        match &self.memory {
            Some(memory) => memory.final_report(),
            None => None,
        }
    }

    /// The same limits with another iteration limit.
    pub fn with_iter_limit(self, iter_limit: usize) -> (r: Self)
        ensures
            r@ == (LimitsModel { iter_limit, ..self@ }),
    {
        RunnerLimits { iter_limit, ..self }
    }

    /// The same limits with another e-node limit.
    pub fn with_node_limit(self, node_limit: usize) -> (r: Self)
        ensures
            r@ == (LimitsModel { node_limit, ..self@ }),
    {
        RunnerLimits { node_limit, ..self }
    }

    /// The same limits with another time limit, in nanoseconds.
    pub fn with_time_limit(self, time_limit: u64) -> (r: Self)
        ensures
            r@ == (LimitsModel { time_limit, ..self@ }),
    {
        RunnerLimits { time_limit, ..self }
    }
}

} // verus!
