//! What limit checks and memory samples give their callers, call by call.

use vstd::prelude::*;
use crate::egraph::{EGraph, Probe, Symbol};
use crate::limits::{
    begun, checked, checked_at, reads_size, sampled_at, sampled_at_start, LimitsModel,
    RunnerLimits, RunnerResult, StopReason,
};
use crate::memory::{IterationMemoryPeak, MemoryReport, MemorySamplePhase, MemoryTracker};

verus! {

/// `result` is the right answer to the question whether a run may go on: more time
/// than the time limit has passed, the e-graph holds more e-nodes than the node limit,
/// there have been as many iterations as the iteration limit, or the memory reading
/// has reached the ceiling. What comes first in this list is named, with the limit
/// that was hit, or with the reading.
pub open spec fn is_verdict<P>(
    limits: LimitsModel<P>,
    iteration: usize,
    now: u64,
    nodes: usize,
    reading: Option<u64>,
    result: RunnerResult<()>,
) -> bool {
    let late = now > limits.start_time->0 + limits.time_limit;
    let large = nodes > limits.node_limit;
    let many = iteration >= limits.iter_limit;
    let full = limits.memory is Some && limits.memory->0.absolute_limit is Some && reading is Some
        && limits.memory->0.absolute_limit->0 <= reading->0;
    &&& result is Ok <==> !(late || large || many || full)
    &&& late ==> result == Err::<(), _>(StopReason::TimeLimit(limits.time_limit))
    &&& large && !late ==> result == Err::<(), _>(StopReason::NodeLimit(limits.node_limit))
    &&& many && !late && !large ==> result == Err::<(), _>(
        StopReason::IterationLimit(limits.iter_limit),
    )
    &&& full && !late && !large && !many ==> result == Err::<(), _>(
        StopReason::MemoryLimit(reading->0),
    )
}

/// Nothing but the memory accounting and the observed process differs.
pub open spec fn same_but_memory<P>(a: LimitsModel<P>, b: LimitsModel<P>) -> bool {
    &&& a.iter_limit == b.iter_limit
    &&& a.node_limit == b.node_limit
    &&& a.time_limit == b.time_limit
    &&& a.start_time == b.start_time
}

/// The tracker has recorded the reading, and nothing else has happened to its totals.
pub open spec fn recorded(before: MemoryTracker, reading: u64, after: MemoryTracker) -> bool {
    &&& after.latest == reading
    &&& after.peak_reading == if before.peak_reading >= reading {
        before.peak_reading
    } else {
        reading
    }
    &&& after.absolute_limit == before.absolute_limit
}

/// The question whether given readings hit a limit is answered rightly.
pub proof fn law_limit_hit<P: Probe>(
    limits: RunnerLimits<P>,
    iteration: usize,
    now: u64,
    size: usize,
    reading: Option<u64>,
    result: RunnerResult<()>,
)
    requires
        limits@.start_time is Some,
        call_ensures(
            RunnerLimits::<P>::limit_hit,
            (&limits, iteration, now, size, reading),
            result,
        ),
    ensures
        is_verdict(limits@, iteration, now, size, reading, result),
{
}

/// What a check compares with the limits: a time that the clock tells and the number
/// of e-nodes that the e-graph reports as its total size, never another figure of it.
pub proof fn law_check_compares_total_size<G: EGraph, P: Probe>(
    before: LimitsModel<P>,
    iteration: usize,
    egraph: G,
    reading: Option<u64>,
    after: LimitsModel<P>,
    result: RunnerResult<()>,
) -> (seen: (u64, usize))
    requires
        checked(before, iteration, egraph, reading, after, result),
    ensures
        P::tells(before.probe, seen.0, after.probe),
        call_ensures(G::total_size, (&egraph,), seen.1),
        is_verdict(before, iteration, seen.0, seen.1, reading, result),
        result is Ok ==> seen.1 <= before.node_limit,
        result matches Err(StopReason::NodeLimit(_)) ==> seen.1 > before.node_limit,
        same_but_memory(before, after),
        after.memory == before.memory,
{
    let (now, size) = choose|now: u64, size: usize|
        #![trigger before.tells(now, after), reads_size(egraph, size)]
        {
            &&& before.tells(now, after)
            &&& reads_size(egraph, size)
            &&& result == before.check(iteration, now, size, reading)
        };
    (now, size)
}

/// A limit check reads the clock once, asks the e-graph for its total size, and
/// answers rightly.
pub proof fn law_check_reading<G: EGraph, P: Probe>(
    limits: &mut RunnerLimits<P>,
    iteration: usize,
    egraph: &G,
    reading: Option<u64>,
    result: RunnerResult<()>,
)
    requires
        old(limits)@.start_time is Some,
        call_ensures(
            RunnerLimits::<P>::check_reading::<G>,
            (limits, iteration, egraph, reading),
            result,
        ),
    ensures
        exists|now: u64, nodes: usize|
            #![trigger
                P::tells(old(limits)@.probe, now, final(limits)@.probe),
                call_ensures(G::total_size, (egraph,), nodes)]
            {
                &&& P::tells(old(limits)@.probe, now, final(limits)@.probe)
                &&& call_ensures(G::total_size, (egraph,), nodes)
                &&& is_verdict(old(limits)@, iteration, now, nodes, reading, result)
            },
        same_but_memory(old(limits)@, final(limits)@),
        final(limits)@.memory == old(limits)@.memory,
{
    let seen = law_check_compares_total_size(
        old(limits)@,
        iteration,
        *egraph,
        reading,
        final(limits)@,
        result,
    );
}

/// What is seen in a check with a sample: the sample and the process behind it, the
/// time and the total size.
pub struct Seen<P> {
    /// The sample, where memory is tracked.
    pub sample: Option<u64>,
    /// The process behind the sample.
    pub probe: P,
    /// The time.
    pub now: u64,
    /// The number of e-nodes.
    pub nodes: usize,
}

impl<P: Probe> Seen<P> {
    /// Memory is sampled where it is tracked, then the clock is read, and then the
    /// limits are checked against both and against the e-graph's total size.
    pub open spec fn answers<G: EGraph>(
        self,
        before: LimitsModel<P>,
        iteration: usize,
        egraph: G,
        after: LimitsModel<P>,
        result: RunnerResult<()>,
    ) -> bool {
        &&& self.sample is Some <==> before.memory is Some
        &&& self.sample matches Some(reading) ==> P::samples(before.probe, reading, self.probe)
        &&& self.sample is None ==> self.probe == before.probe
        &&& P::tells(self.probe, self.now, after.probe)
        &&& call_ensures(G::total_size, (&egraph,), self.nodes)
        &&& is_verdict(before, iteration, self.now, self.nodes, self.sample, result)
        &&& same_but_memory(before, after)
        &&& after.memory is Some <==> before.memory is Some
        &&& before.memory is Some ==> recorded(
            before.memory->0,
            self.sample->0,
            after.memory->0,
        )
    }
}

/// The iteration's peak after a sample at a boundary: a larger reading takes its
/// place, with boundary and rule, and any other leaves it.
pub open spec fn attributed(
    before: Option<IterationMemoryPeak>,
    phase: MemorySamplePhase,
    rule: Option<Symbol>,
    reading: u64,
    after: Option<IterationMemoryPeak>,
) -> bool {
    match before {
        None => after is None,
        Some(peak) => if reading > peak.iteration_peak_allocated {
            after == Some(
                IterationMemoryPeak {
                    iteration_start_allocated: peak.iteration_start_allocated,
                    iteration_peak_allocated: reading,
                    peak_phase: phase,
                    peak_rule: rule,
                },
            )
        } else {
            after == before
        },
    }
}

/// A check at a boundary attributes its sample to the boundary and the rule.
pub proof fn law_check_limits_at<G: EGraph, P: Probe>(
    limits: &mut RunnerLimits<P>,
    iteration: usize,
    egraph: &G,
    phase: MemorySamplePhase,
    rule: Option<Symbol>,
    result: RunnerResult<()>,
)
    requires
        old(limits)@.start_time is Some,
        call_ensures(
            RunnerLimits::<P>::check_limits_at::<G>,
            (limits, iteration, egraph, phase, rule),
            result,
        ),
    ensures
        exists|seen: Seen<P>|
            {
                &&& #[trigger] seen.answers(
                    old(limits)@,
                    iteration,
                    *egraph,
                    final(limits)@,
                    result,
                )
                &&& old(limits)@.memory matches Some(memory) ==> attributed(
                    memory.iteration_peak,
                    phase,
                    rule,
                    seen.sample->0,
                    final(limits)@.memory->0.iteration_peak,
                ) && final(limits)@.memory->0.final_report == memory.final_report
            },
{
    let seen = law_boundary_check(
        old(limits)@,
        iteration,
        *egraph,
        phase,
        rule,
        final(limits)@,
        result,
    );
}

/// What a check at a boundary sees, by what it leaves.
pub proof fn law_boundary_check<G: EGraph, P: Probe>(
    before: LimitsModel<P>,
    iteration: usize,
    egraph: G,
    phase: MemorySamplePhase,
    rule: Option<Symbol>,
    after: LimitsModel<P>,
    result: RunnerResult<()>,
) -> (seen: Seen<P>)
    requires
        checked_at(before, iteration, egraph, phase, rule, after, result),
    ensures
        seen.answers(before, iteration, egraph, after, result),
        before.memory matches Some(memory) ==> attributed(
            memory.iteration_peak,
            phase,
            rule,
            seen.sample->0,
            after.memory->0.iteration_peak,
        ) && after.memory->0.final_report == memory.final_report,
{
    let (sample, between) = choose|sample: Option<u64>, between: LimitsModel<P>| #[trigger]
        sampled_at(before, phase, rule, sample, between) && checked(
            between,
            iteration,
            egraph,
            sample,
            after,
            result,
        );
    let (now, nodes) = law_check_compares_total_size(
        between,
        iteration,
        egraph,
        sample,
        after,
        result,
    );
    Seen { sample, probe: between.probe, now, nodes }
}

/// A check without a rule attributes its sample to a search.
pub proof fn law_check_limits<G: EGraph, P: Probe>(
    limits: &mut RunnerLimits<P>,
    iteration: usize,
    egraph: &G,
    result: RunnerResult<()>,
)
    requires
        old(limits)@.start_time is Some,
        call_ensures(RunnerLimits::<P>::check_limits::<G>, (limits, iteration, egraph), result),
    ensures
        exists|seen: Seen<P>|
            {
                &&& #[trigger] seen.answers(
                    old(limits)@,
                    iteration,
                    *egraph,
                    final(limits)@,
                    result,
                )
                &&& old(limits)@.memory matches Some(memory) ==> attributed(
                    memory.iteration_peak,
                    MemorySamplePhase::AfterRuleSearch,
                    None,
                    seen.sample->0,
                    final(limits)@.memory->0.iteration_peak,
                )
            },
{
    let seen = law_boundary_check(
        old(limits)@,
        iteration,
        *egraph,
        MemorySamplePhase::AfterRuleSearch,
        None,
        final(limits)@,
        result,
    );
}

/// The check at the start of an iteration starts the iteration's peak over.
pub proof fn law_begin_iteration<G: EGraph, P: Probe>(
    limits: &mut RunnerLimits<P>,
    iteration: usize,
    egraph: &G,
    result: RunnerResult<()>,
)
    requires
        old(limits)@.start_time is Some,
        call_ensures(RunnerLimits::<P>::begin_iteration::<G>, (limits, iteration, egraph), result),
    ensures
        exists|seen: Seen<P>|
            {
                &&& #[trigger] seen.answers(
                    old(limits)@,
                    iteration,
                    *egraph,
                    final(limits)@,
                    result,
                )
                &&& old(limits)@.memory matches Some(memory) ==> {
                    let left = final(limits)@.memory->0;
                    &&& left.iteration_peak == Some(
                        IterationMemoryPeak {
                            iteration_start_allocated: seen.sample->0,
                            iteration_peak_allocated: seen.sample->0,
                            peak_phase: MemorySamplePhase::BeforeHooks,
                            peak_rule: None,
                        },
                    )
                    &&& left.final_report == memory.final_report
                }
            },
{
    let seen = law_start_check(old(limits)@, iteration, *egraph, final(limits)@, result);
}

/// What the check at the start of an iteration sees, by what it leaves.
pub proof fn law_start_check<G: EGraph, P: Probe>(
    before: LimitsModel<P>,
    iteration: usize,
    egraph: G,
    after: LimitsModel<P>,
    result: RunnerResult<()>,
) -> (seen: Seen<P>)
    requires
        begun(before, iteration, egraph, after, result),
    ensures
        seen.answers(before, iteration, egraph, after, result),
        before.memory matches Some(memory) ==> after.memory->0.iteration_peak == Some(
            IterationMemoryPeak {
                iteration_start_allocated: seen.sample->0,
                iteration_peak_allocated: seen.sample->0,
                peak_phase: MemorySamplePhase::BeforeHooks,
                peak_rule: None,
            },
        ) && after.memory->0.final_report == memory.final_report,
{
    let (sample, between) = choose|sample: Option<u64>, between: LimitsModel<P>| #[trigger]
        sampled_at_start(before, sample, between) && checked(
            between,
            iteration,
            egraph,
            sample,
            after,
            result,
        );
    let (now, nodes) = law_check_compares_total_size(
        between,
        iteration,
        egraph,
        sample,
        after,
        result,
    );
    Seen { sample, probe: between.probe, now, nodes }
}

/// A sample is what the process shows, and is recorded and attributed. Without
/// accounting nothing is sampled.
pub proof fn law_sample_memory<P: Probe>(
    limits: &mut RunnerLimits<P>,
    phase: MemorySamplePhase,
    rule: Option<Symbol>,
    sample: Option<u64>,
)
    requires
        call_ensures(RunnerLimits::<P>::sample_memory, (limits, phase, rule), sample),
    ensures
        same_but_memory(old(limits)@, final(limits)@),
        match old(limits)@.memory {
            None => sample is None && final(limits)@ == old(limits)@,
            Some(memory) => {
                &&& sample is Some
                &&& P::samples(old(limits)@.probe, sample->0, final(limits)@.probe)
                &&& final(limits)@.memory is Some
                &&& recorded(memory, sample->0, final(limits)@.memory->0)
                &&& attributed(
                    memory.iteration_peak,
                    phase,
                    rule,
                    sample->0,
                    final(limits)@.memory->0.iteration_peak,
                )
                &&& final(limits)@.memory->0.final_report == memory.final_report
            },
        },
{
}

/// The clock is read once, and nothing else changes.
pub proof fn law_read_clock<P: Probe>(limits: &mut RunnerLimits<P>, now: u64)
    requires
        call_ensures(RunnerLimits::<P>::read_clock, (limits,), now),
    ensures
        P::tells(old(limits)@.probe, now, final(limits)@.probe),
        same_but_memory(old(limits)@, final(limits)@),
        final(limits)@.memory == old(limits)@.memory,
{
}

/// A run starts when the clock is first read for it, and keeps that start.
pub proof fn law_try_start<P: Probe>(limits: &mut RunnerLimits<P>)
    requires
        call_ensures(RunnerLimits::<P>::try_start, (limits,), ()),
    ensures
        final(limits)@.iter_limit == old(limits)@.iter_limit,
        final(limits)@.node_limit == old(limits)@.node_limit,
        final(limits)@.time_limit == old(limits)@.time_limit,
        final(limits)@.memory == old(limits)@.memory,
        match old(limits)@.start_time {
            Some(start) => final(limits)@ == old(limits)@,
            None => final(limits)@.start_time is Some && P::tells(
                old(limits)@.probe,
                final(limits)@.start_time->0,
                final(limits)@.probe,
            ),
        },
{
}

/// The end of a run takes one more sample, where memory is tracked, and fixes the
/// report: that sample, the largest reading up to it, and the ceiling.
pub proof fn law_finish<P: Probe>(limits: &mut RunnerLimits<P>)
    requires
        call_ensures(RunnerLimits::<P>::finish, (limits,), ()),
    ensures
        same_but_memory(old(limits)@, final(limits)@),
        match old(limits)@.memory {
            None => final(limits)@ == old(limits)@,
            Some(memory) => {
                let sample = final(limits)@.memory->0.latest;
                &&& P::samples(old(limits)@.probe, sample, final(limits)@.probe)
                &&& final(limits)@.memory is Some
                &&& recorded(memory, sample, final(limits)@.memory->0)
                &&& final(limits)@.memory->0.iteration_peak == memory.iteration_peak
                &&& final(limits)@.memory->0.final_report == Some(
                    MemoryReport {
                        final_reading: sample,
                        peak_reading: final(limits)@.memory->0.peak_reading,
                        absolute_limit: memory.absolute_limit,
                    },
                )
            },
        },
{
}

/// Limits are asked back as they are held.
pub proof fn law_limits_are_asked_back<P: Probe>(
    limits: RunnerLimits<P>,
    reading: Option<u64>,
    peak: Option<IterationMemoryPeak>,
    ceiling: Option<u64>,
    report: Option<MemoryReport>,
)
    requires
        call_ensures(RunnerLimits::<P>::memory_reading, (&limits,), reading),
        call_ensures(RunnerLimits::<P>::iteration_memory_peak, (&limits,), peak),
        call_ensures(RunnerLimits::<P>::absolute_memory_limit, (&limits,), ceiling),
        call_ensures(RunnerLimits::<P>::final_memory_report, (&limits,), report),
    ensures
        limits@.memory is None ==> reading is None && peak is None && ceiling is None
            && report is None,
        limits@.memory matches Some(memory) ==> {
            &&& reading == Some(memory.latest)
            &&& peak == memory.iteration_peak
            &&& ceiling == memory.absolute_limit
            &&& report == memory.final_report
        },
{
}

/// Making and setting limits sets what is named and leaves the rest.
pub proof fn law_limits_are_set<P: Probe>(
    iter_limit: usize,
    node_limit: usize,
    time_limit: u64,
    memory: Option<MemoryTracker>,
    probe: P,
    made: RunnerLimits<P>,
    n: usize,
    t: u64,
    fewer: RunnerLimits<P>,
    smaller: RunnerLimits<P>,
    shorter: RunnerLimits<P>,
)
    requires
        call_ensures(
            RunnerLimits::<P>::new,
            (iter_limit, node_limit, time_limit, memory, probe),
            made,
        ),
        call_ensures(RunnerLimits::<P>::with_iter_limit, (made, n), fewer),
        call_ensures(RunnerLimits::<P>::with_node_limit, (made, n), smaller),
        call_ensures(RunnerLimits::<P>::with_time_limit, (made, t), shorter),
    ensures
        made@.iter_limit == iter_limit,
        made@.node_limit == node_limit,
        made@.time_limit == time_limit,
        made@.start_time is None,
        made@.memory == memory,
        made@.probe == probe,
        fewer@.iter_limit == n,
        fewer@ == (LimitsModel { iter_limit: fewer@.iter_limit, ..made@ }),
        smaller@.node_limit == n,
        smaller@ == (LimitsModel { node_limit: smaller@.node_limit, ..made@ }),
        shorter@.time_limit == t,
        shorter@ == (LimitsModel { time_limit: shorter@.time_limit, ..made@ }),
{
}

/// A tracker begins with its first reading as the latest and the largest.
pub proof fn law_new_tracker(initial: u64, ceiling: Option<u64>, tracker: MemoryTracker)
    requires
        call_ensures(MemoryTracker::new, (initial, ceiling), tracker),
    ensures
        tracker.latest == initial,
        tracker.peak_reading == initial,
        tracker.absolute_limit == ceiling,
        tracker.final_report is None,
        tracker.iteration_peak is None,
{
}

/// A tracker records each reading once, and keeps the rest.
pub proof fn law_tracker_records(tracker: &mut MemoryTracker, reading: u64, given: u64)
    requires
        call_ensures(MemoryTracker::raw_sample, (tracker, reading), given),
    ensures
        given == reading,
        recorded(*old(tracker), reading, *final(tracker)),
        final(tracker).iteration_peak == old(tracker).iteration_peak,
        final(tracker).final_report == old(tracker).final_report,
{
}

/// A tracker starts an iteration's peak with the iteration's first reading.
pub proof fn law_tracker_begins(tracker: &mut MemoryTracker, reading: u64, given: u64)
    requires
        call_ensures(MemoryTracker::begin_iteration, (tracker, reading), given),
    ensures
        given == reading,
        recorded(*old(tracker), reading, *final(tracker)),
        final(tracker).final_report == old(tracker).final_report,
        final(tracker).iteration_peak == Some(
            IterationMemoryPeak {
                iteration_start_allocated: reading,
                iteration_peak_allocated: reading,
                peak_phase: MemorySamplePhase::BeforeHooks,
                peak_rule: None,
            },
        ),
{
}

/// A tracker attributes a sample to its boundary and rule.
pub proof fn law_tracker_samples(
    tracker: &mut MemoryTracker,
    phase: MemorySamplePhase,
    rule: Option<Symbol>,
    reading: u64,
    given: u64,
)
    requires
        call_ensures(MemoryTracker::sample_at, (tracker, phase, rule, reading), given),
    ensures
        given == reading,
        recorded(*old(tracker), reading, *final(tracker)),
        final(tracker).final_report == old(tracker).final_report,
        attributed(
            old(tracker).iteration_peak,
            phase,
            rule,
            reading,
            final(tracker).iteration_peak,
        ),
{
}

/// A tracker fixes the report when a run ends, and hands out what it holds.
pub proof fn law_tracker_finishes(
    tracker: &mut MemoryTracker,
    reading: u64,
    held: MemoryTracker,
    report: Option<MemoryReport>,
    peak: Option<IterationMemoryPeak>,
)
    requires
        call_ensures(MemoryTracker::finish, (tracker, reading), ()),
        call_ensures(MemoryTracker::final_report, (&held,), report),
        call_ensures(MemoryTracker::iteration_peak, (&held,), peak),
    ensures
        recorded(*old(tracker), reading, *final(tracker)),
        final(tracker).iteration_peak == old(tracker).iteration_peak,
        final(tracker).final_report == Some(
            MemoryReport {
                final_reading: reading,
                peak_reading: final(tracker).peak_reading,
                absolute_limit: old(tracker).absolute_limit,
            },
        ),
        report == held.final_report,
        peak == held.iteration_peak,
{
}

/// Copies of stop reasons and of peaks are equal to what they are copies of.
pub proof fn law_copies_are_equal(
    reason: StopReason,
    same_reason: StopReason,
    peak: IterationMemoryPeak,
    same_peak: IterationMemoryPeak,
)
    requires
        call_ensures(<StopReason as Clone>::clone, (&reason,), same_reason),
        call_ensures(<IterationMemoryPeak as Clone>::clone, (&peak,), same_peak),
    ensures
        same_reason == reason,
        same_peak == peak,
{
}

} // verus!
