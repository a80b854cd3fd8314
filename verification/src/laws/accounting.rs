//! What holds of memory accounting and of the limits.

use vstd::prelude::*;
use crate::egraph::Symbol;
use crate::limits::{elapsed_since, LimitsModel, StopReason};
use crate::memory::{larger, IterationMemoryPeak, MemoryReport, MemorySamplePhase, MemoryTracker};

verus! {

/// A boundary, the rule it belongs to, and the reading there.
pub struct Sample {
    /// The boundary.
    pub phase: MemorySamplePhase,
    /// The rule, where there is one.
    pub rule: Option<Symbol>,
    /// The reading.
    pub reading: u64,
}

/// The tracker after one sample after the other.
pub open spec fn having_taken(tracker: MemoryTracker, samples: Seq<Sample>) -> MemoryTracker
    decreases samples.len(),
{
    if samples.len() == 0 {
        tracker
    } else {
        having_taken(tracker, samples.drop_last()).having_sampled(
            samples.last().phase,
            samples.last().rule,
            samples.last().reading,
        )
    }
}

/// A tracker that was made with a first reading.
pub open spec fn new_tracker(initial: u64, ceiling: Option<u64>) -> MemoryTracker {
    MemoryTracker {
        absolute_limit: ceiling,
        latest: initial,
        peak_reading: initial,
        final_report: None,
        iteration_peak: None,
    }
}

/// The peak of an iteration is the largest of its readings. It is attributed to
/// the boundary and the rule where that reading was first observed, which is the
/// start of the iteration where no reading exceeds the first. It does not depend
/// on earlier iterations.
pub proof fn law_iteration_peak(tracker: MemoryTracker, start: u64, samples: Seq<Sample>)
    ensures
        having_taken(tracker.having_begun(start), samples).iteration_peak is Some,
        ({
            let peak = having_taken(tracker.having_begun(start), samples).iteration_peak->0;
            &&& peak.iteration_start_allocated == start
            &&& peak.iteration_peak_allocated >= start
            &&& forall|j: int|
                0 <= j < samples.len() ==> (#[trigger] samples[j]).reading
                    <= peak.iteration_peak_allocated
            &&& if peak.iteration_peak_allocated == start {
                peak == IterationMemoryPeak::starting(start)
            } else {
                exists|k: int|
                    {
                        &&& 0 <= k < samples.len()
                        &&& (#[trigger] samples[k]).reading == peak.iteration_peak_allocated
                        &&& samples[k].phase == peak.peak_phase
                        &&& samples[k].rule == peak.peak_rule
                        &&& forall|j: int|
                            0 <= j < k ==> (#[trigger] samples[j]).reading
                                < peak.iteration_peak_allocated
                    }
            }
        }),
    decreases samples.len(),
{
    if samples.len() > 0 {
        let fewer = samples.drop_last();
        let last = samples.last();
        law_iteration_peak(tracker, start, fewer);
        let old_peak = having_taken(tracker.having_begun(start), fewer).iteration_peak->0;
        let peak = having_taken(tracker.having_begun(start), samples).iteration_peak->0;
        assert forall|j: int| 0 <= j < samples.len() implies (#[trigger] samples[j]).reading
            <= peak.iteration_peak_allocated by {
            if j < fewer.len() {
                assert(fewer[j] == samples[j]);
            }
        }
        if last.reading > old_peak.iteration_peak_allocated {
            let k = samples.len() - 1;
            assert(samples[k] == last);
            assert forall|j: int| 0 <= j < k implies (#[trigger] samples[j]).reading
                < peak.iteration_peak_allocated by {
                assert(fewer[j] == samples[j]);
            }
        } else if peak.iteration_peak_allocated != start {
            let k = choose|k: int|
                {
                    &&& 0 <= k < fewer.len()
                    &&& (#[trigger] fewer[k]).reading == old_peak.iteration_peak_allocated
                    &&& fewer[k].phase == old_peak.peak_phase
                    &&& fewer[k].rule == old_peak.peak_rule
                    &&& forall|j: int|
                        0 <= j < k ==> (#[trigger] fewer[j]).reading
                            < old_peak.iteration_peak_allocated
                };
            assert(samples[k] == fewer[k]);
            assert forall|j: int| 0 <= j < k implies (#[trigger] samples[j]).reading
                < peak.iteration_peak_allocated by {
                assert(fewer[j] == samples[j]);
            }
        }
    }
}

/// The peak of a run is the largest of all readings so far, those of earlier
/// iterations too. The latest reading is the last one.
pub proof fn law_peak_reading(tracker: MemoryTracker, samples: Seq<Sample>)
    ensures
        ({
            let after = having_taken(tracker, samples);
            &&& after.peak_reading >= tracker.peak_reading
            &&& forall|j: int|
                0 <= j < samples.len() ==> (#[trigger] samples[j]).reading <= after.peak_reading
            &&& after.peak_reading == tracker.peak_reading || exists|j: int|
                0 <= j < samples.len() && (#[trigger] samples[j]).reading == after.peak_reading
            &&& after.latest == if samples.len() == 0 {
                tracker.latest
            } else {
                samples.last().reading
            }
            &&& after.absolute_limit == tracker.absolute_limit
            &&& after.final_report == tracker.final_report
        }),
    decreases samples.len(),
{
    if samples.len() > 0 {
        let fewer = samples.drop_last();
        law_peak_reading(tracker, fewer);
        let before = having_taken(tracker, fewer);
        let after = having_taken(tracker, samples);
        assert(samples[samples.len() - 1] == samples.last());
        assert forall|j: int| 0 <= j < samples.len() implies (#[trigger] samples[j]).reading
            <= after.peak_reading by {
            if j < fewer.len() {
                assert(fewer[j] == samples[j]);
            }
        }
        if after.peak_reading != tracker.peak_reading && after.peak_reading
            == before.peak_reading {
            let j = choose|j: int|
                0 <= j < fewer.len() && (#[trigger] fewer[j]).reading == before.peak_reading;
            assert(samples[j] == fewer[j]);
        }
    }
}

/// The figures of a tracker belong together: no reading exceeds the peak of the
/// run, and the peak of an iteration is no lower than its start.
pub open spec fn coherent(tracker: MemoryTracker) -> bool {
    &&& tracker.latest <= tracker.peak_reading
    &&& tracker.iteration_peak matches Some(peak) ==> peak.iteration_start_allocated
        <= peak.iteration_peak_allocated <= tracker.peak_reading
    &&& tracker.final_report matches Some(report) ==> report.final_reading
        <= report.peak_reading <= tracker.peak_reading
}

/// The figures of a tracker belong together from its first reading on, whatever
/// is read later.
pub proof fn law_tracker_stays_coherent(
    tracker: MemoryTracker,
    phase: MemorySamplePhase,
    rule: Option<Symbol>,
    reading: u64,
)
    requires
        coherent(tracker),
    ensures
        coherent(tracker.having_read(reading)),
        coherent(tracker.having_begun(reading)),
        coherent(tracker.having_sampled(phase, rule, reading)),
        coherent(tracker.having_finished(reading)),
        coherent(new_tracker(reading, tracker.absolute_limit)),
{
}

/// The report of a run holds the last reading, the largest of all readings and
/// the configured ceiling, and a tracker has none before its first run is
/// finished.
pub proof fn law_final_report(
    tracker: MemoryTracker,
    samples: Seq<Sample>,
    reading: u64,
    initial: u64,
    ceiling: Option<u64>,
)
    ensures
        tracker.having_finished(reading).report() == Some(
            MemoryReport {
                final_reading: reading,
                peak_reading: larger(tracker.peak_reading, reading),
                absolute_limit: tracker.absolute_limit,
            },
        ),
        tracker.having_finished(reading).iteration_peak == tracker.iteration_peak,
        having_taken(new_tracker(initial, ceiling), samples).report() is None,
{
    law_peak_reading(new_tracker(initial, ceiling), samples);
}

/// The report of a finished run stays as it is, whatever is sampled afterwards and
/// wherever: only the end of another run replaces it.
pub proof fn law_final_report_is_fixed(
    tracker: MemoryTracker,
    reading: u64,
    phase: MemorySamplePhase,
    rule: Option<Symbol>,
    later: u64,
    samples: Seq<Sample>,
)
    ensures
        ({
            let done = tracker.having_finished(reading);
            &&& done.having_read(later).report() == done.report()
            &&& done.having_sampled(phase, rule, later).report() == done.report()
            &&& done.having_begun(later).report() == done.report()
            &&& having_taken(done, samples).report() == done.report()
            &&& having_taken(done.having_begun(later), samples).report() == done.report()
        }),
{
    law_peak_reading(tracker.having_finished(reading), samples);
    law_peak_reading(tracker.having_finished(reading).having_begun(later), samples);
}

/// Something that a tracker records.
pub enum Event {
    /// A reading.
    Read(u64),
    /// The reading at the start of an iteration.
    Begin(u64),
    /// The reading at a boundary.
    Sample(Sample),
    /// The reading at the end of a run.
    Finish(u64),
}

impl Event {
    /// The reading that is recorded.
    pub open spec fn reading(self) -> u64 {
        match self {
            Event::Read(reading) => reading,
            Event::Begin(reading) => reading,
            Event::Sample(sample) => sample.reading,
            Event::Finish(reading) => reading,
        }
    }
}

/// The tracker after one event after the other.
pub open spec fn having_recorded(tracker: MemoryTracker, events: Seq<Event>) -> MemoryTracker
    decreases events.len(),
{
    if events.len() == 0 {
        tracker
    } else {
        let before = having_recorded(tracker, events.drop_last());
        match events.last() {
            Event::Read(reading) => before.having_read(reading),
            Event::Begin(reading) => before.having_begun(reading),
            Event::Sample(sample) => before.having_sampled(
                sample.phase,
                sample.rule,
                sample.reading,
            ),
            Event::Finish(reading) => before.having_finished(reading),
        }
    }
}

/// `peak` is the largest of the first reading and the readings of these events.
pub open spec fn is_peak(initial: u64, events: Seq<Event>, peak: u64) -> bool {
    &&& initial <= peak
    &&& forall|j: int| 0 <= j < events.len() ==> (#[trigger] events[j]).reading() <= peak
    &&& peak == initial || exists|j: int|
        0 <= j < events.len() && (#[trigger] events[j]).reading() == peak
}

/// `k` is the last event at which a run ended.
pub open spec fn is_last_finish(events: Seq<Event>, k: int) -> bool {
    &&& 0 <= k < events.len()
    &&& events[k] is Finish
    &&& forall|j: int| k < j < events.len() ==> !((#[trigger] events[j]) is Finish)
}

/// The peak after one more event.
proof fn lemma_peak_push(initial: u64, events: Seq<Event>, peak: u64)
    requires
        events.len() > 0,
        is_peak(initial, events.drop_last(), peak),
    ensures
        is_peak(initial, events, larger(peak, events.last().reading())),
{
    let fewer = events.drop_last();
    let n = events.len() - 1;
    assert(events[n] == events.last());
    assert forall|j: int| 0 <= j < n implies events[j] == fewer[j] by {}
    if larger(peak, events.last().reading()) == peak && peak != initial {
        let j = choose|j: int| 0 <= j < fewer.len() && (#[trigger] fewer[j]).reading() == peak;
        assert(events[j].reading() == peak);
    }
}

/// The peak of a tracker is the largest reading that it has recorded, its first one
/// and those at the starts of iterations among them, and its latest reading is the
/// last one.
pub proof fn law_peak_of_all_readings(initial: u64, ceiling: Option<u64>, events: Seq<Event>)
    ensures
        ({
            let tracker = having_recorded(new_tracker(initial, ceiling), events);
            &&& is_peak(initial, events, tracker.peak_reading)
            &&& tracker.absolute_limit == ceiling
            &&& tracker.latest == if events.len() == 0 {
                initial
            } else {
                events.last().reading()
            }
        }),
    decreases events.len(),
{
    if events.len() > 0 {
        law_peak_of_all_readings(initial, ceiling, events.drop_last());
        let before = having_recorded(new_tracker(initial, ceiling), events.drop_last());
        lemma_peak_push(initial, events, before.peak_reading);
    }
}

/// Whatever a tracker has recorded, it has a report if and only if a run has ended.
/// The report holds the reading at the end of the latest run, the largest reading up
/// to there, and the ceiling.
pub proof fn law_report_of_a_run(initial: u64, ceiling: Option<u64>, events: Seq<Event>)
    ensures
        ({
            let report = having_recorded(new_tracker(initial, ceiling), events).report();
            &&& report is None <==> forall|j: int|
                0 <= j < events.len() ==> !((#[trigger] events[j]) is Finish)
            &&& forall|k: int| #[trigger]
                is_last_finish(events, k) ==> {
                    &&& report is Some
                    &&& report->0.final_reading == events[k].reading()
                    &&& is_peak(initial, events.take(k + 1), report->0.peak_reading)
                    &&& report->0.absolute_limit == ceiling
                }
        }),
    decreases events.len(),
{
    let new = new_tracker(initial, ceiling);
    let report = having_recorded(new, events).report();
    if events.len() > 0 {
        let fewer = events.drop_last();
        let n = events.len() - 1;
        law_report_of_a_run(initial, ceiling, fewer);
        law_peak_of_all_readings(initial, ceiling, events);
        assert(events[n] == events.last());
        assert forall|j: int| 0 <= j < n implies events[j] == fewer[j] by {}
        if events.last() is Finish {
            assert(events.take(n + 1) =~= events);
            assert(having_recorded(new, events).peak_reading == report->0.peak_reading);
            assert(having_recorded(new, events).absolute_limit == ceiling);
        } else {
            assert(report == having_recorded(new, fewer).report());
            if report is None {
                assert forall|j: int| 0 <= j < events.len() implies !(
                (#[trigger] events[j]) is Finish) by {
                    if j < n {
                        assert(!(fewer[j] is Finish));
                    }
                }
            } else {
                let j = choose|j: int| 0 <= j < fewer.len() && (#[trigger] fewer[j]) is Finish;
                assert(events[j] is Finish);
            }
            assert forall|k: int| #[trigger] is_last_finish(events, k) implies {
                &&& report is Some
                &&& report->0.final_reading == events[k].reading()
                &&& is_peak(initial, events.take(k + 1), report->0.peak_reading)
                &&& report->0.absolute_limit == ceiling
            } by {
                assert(is_last_finish(fewer, k)) by {
                    assert(fewer[k] == events[k]);
                    assert forall|j: int| k < j < fewer.len() implies !(
                    (#[trigger] fewer[j]) is Finish) by {
                        assert(!(events[j] is Finish));
                    }
                }
                assert(fewer.take(k + 1) =~= events.take(k + 1));
            }
        }
    }
}

/// Sampling memory, and beginning an iteration, leave the report of a finished run
/// as it is.
pub proof fn law_sampling_keeps_the_report<P>(
    limits: LimitsModel<P>,
    phase: MemorySamplePhase,
    rule: Option<Symbol>,
    sample: Option<u64>,
)
    ensures
        limits.having_sampled(phase, rule, sample).final_report() == limits.final_report(),
        limits.having_begun(sample).final_report() == limits.final_report(),
{
}

/// A run goes on if and only if no limit is hit. Where more than one is, time
/// comes before size, size before iterations and iterations before memory.
pub proof fn law_limits<P>(
    limits: LimitsModel<P>,
    iteration: usize,
    now: u64,
    size: usize,
    reading: Option<u64>,
)
    ensures
        ({
            let result = limits.check(iteration, now, size, reading);
            let late = elapsed_since(limits.start_time->0, now) > limits.time_limit;
            let large = size > limits.node_limit;
            let many = iteration >= limits.iter_limit;
            let full = limits.over_ceiling(reading);
            &&& result is Ok <==> !late && !large && !many && !full
            &&& result == Err::<(), _>(StopReason::TimeLimit(limits.time_limit)) <==> late
            &&& result == Err::<(), _>(StopReason::NodeLimit(limits.node_limit)) <==> !late
                && large
            &&& result == Err::<(), _>(StopReason::IterationLimit(limits.iter_limit)) <==> !late
                && !large && many
            &&& result == Err::<(), _>(StopReason::MemoryLimit(reading->0)) <==> !late && !large
                && !many && full
        }),
{
}

/// A limit that is not hit is not hit by any smaller reading either.
pub proof fn law_limits_are_monotone<P>(
    limits: LimitsModel<P>,
    iteration: usize,
    now: u64,
    size: usize,
    reading: u64,
    earlier: usize,
    before: u64,
    smaller: usize,
    less: u64,
)
    requires
        limits.check(iteration, now, size, Some(reading)) is Ok,
        earlier <= iteration,
        before <= now,
        smaller <= size,
        less <= reading,
    ensures
        limits.check(earlier, before, smaller, Some(less)) is Ok,
{
}

/// Where the check lets the run go on, the reading is below the ceiling.
pub proof fn law_ceiling<P>(
    limits: LimitsModel<P>,
    iteration: usize,
    now: u64,
    size: usize,
    reading: u64,
)
    requires
        limits.check(iteration, now, size, Some(reading)) is Ok,
        limits.ceiling() is Some,
    ensures
        reading < limits.ceiling()->0,
{
}

/// Without memory accounting, or without a ceiling, memory never stops a run.
pub proof fn law_no_ceiling<P>(
    limits: LimitsModel<P>,
    iteration: usize,
    now: u64,
    size: usize,
    reading: Option<u64>,
)
    requires
        limits.ceiling() is None,
    ensures
        !(limits.check(iteration, now, size, reading) matches Err(StopReason::MemoryLimit(_))),
{
}

} // verus!
