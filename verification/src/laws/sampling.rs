//! How often, where and for which rule a run samples memory.

use vstd::prelude::*;
use crate::egraph::{EGraph, Rewrite, SearchMatches};
use crate::iteration::{ApplyTrace, Calls, HookTrace, Moments};
use crate::laws::accounting::{having_taken, Sample};
use crate::laws::limiting::{
    apply_trace, hooks_keep_settings, law_iteration_keeps_limits, lemma_step_parts,
    searches_in_turn,
};
use crate::laws::runs::{hook_trace, search_trace};
use crate::limits::{
    begun, checked, sampled_at, sampled_at_end, sampled_at_start, started, LimitsModel, StopReason,
};
use crate::maps::count_entries;
use crate::memory::{MemorySamplePhase, MemoryTracker};
use crate::report::Iteration;
use crate::runner::{finished, rebuilt, IterationData, RunTrace, Runner};
use crate::scheduler::{searched_in_turn, RewriteScheduler, SearchTrace};

verus! {

/// The memory samples of one iteration.
pub struct Round {
    /// The reading at the start.
    pub start: u64,
    /// The samples after it.
    pub samples: Seq<Sample>,
}

impl Round {
    /// After the start there is a sample behind the search of each rewrite, one
    /// behind the application of each, and one at the end, and no other.
    pub open spec fn covers<R>(self, rewrites: Seq<Rewrite<R>>) -> bool {
        let n = rewrites.len();
        &&& self.samples.len() == 2 * n + 1
        &&& forall|j: int|
            0 <= j < n ==> (#[trigger] self.samples[j]).phase == MemorySamplePhase::AfterRuleSearch
                && self.samples[j].rule == Some(rewrites[j].name)
        &&& forall|j: int|
            n <= j < 2 * n ==> (#[trigger] self.samples[j]).phase
                == MemorySamplePhase::AfterRuleApplication && self.samples[j].rule == Some(
                rewrites[j - n].name,
            )
        &&& self.samples.last().phase == MemorySamplePhase::AfterRebuildFinalization
        &&& self.samples.last().rule is None
    }

    /// The number of samples.
    pub open spec fn count(self) -> nat {
        1 + self.samples.len()
    }
}

/// The tracker after one iteration after the other.
pub open spec fn having_gone_through(tracker: MemoryTracker, rounds: Seq<Round>) -> MemoryTracker
    decreases rounds.len(),
{
    if rounds.len() == 0 {
        tracker
    } else {
        having_taken(
            having_gone_through(tracker, rounds.drop_last()).having_begun(rounds.last().start),
            rounds.last().samples,
        )
    }
}

/// The number of samples in all iterations.
pub open spec fn samples_in(rounds: Seq<Round>) -> nat
    decreases rounds.len(),
{
    if rounds.len() == 0 {
        0
    } else {
        samples_in(rounds.drop_last()) + rounds.last().count()
    }
}

/// Samples and then more are all of them in turn.
proof fn lemma_taken_in_turn(tracker: MemoryTracker, first: Seq<Sample>, second: Seq<Sample>)
    ensures
        having_taken(having_taken(tracker, first), second) == having_taken(tracker, first + second),
    decreases second.len(),
{
    if second.len() == 0 {
        assert(first + second =~= first);
    } else {
        lemma_taken_in_turn(tracker, first, second.drop_last());
        assert((first + second).drop_last() =~= first + second.drop_last());
        assert((first + second).last() == second.last());
    }
}

/// The samples of a search in turn.
proof fn lemma_search_samples<S, G: EGraph>(
    step: spec_fn(S, Rewrite<G::Rule>, S, Seq<SearchMatches<G::Subst>>) -> bool,
    trace: SearchTrace<S, G::Subst, G::Probe>,
    iteration: usize,
    egraph: G,
    rewrites: Seq<Rewrite<G::Rule>>,
    n: int,
) -> (samples: Seq<Sample>)
    requires
        trace.follows(step, iteration, egraph, rewrites),
        trace.limits[0].memory is Some,
        0 <= n <= trace.matches.len(),
    ensures
        samples.len() == n,
        forall|j: int|
            0 <= j < n ==> (#[trigger] samples[j]).phase == MemorySamplePhase::AfterRuleSearch
                && samples[j].rule == Some(rewrites[j].name),
        trace.limits[n].memory == Some(having_taken(trace.limits[0].memory->0, samples)),
    decreases n,
{
    if n == 0 {
        Seq::empty()
    } else {
        let fewer = lemma_search_samples(step, trace, iteration, egraph, rewrites, n - 1);
        let found = trace.matches[n - 1];
        let before = trace.limits[n - 1];
        let phase = MemorySamplePhase::AfterRuleSearch;
        let rule = Some(rewrites[n - 1].name);
        let (sample, between) = choose|sample: Option<u64>, between: LimitsModel<G::Probe>|
            #[trigger] sampled_at(before, phase, rule, sample, between) && checked(
                between,
                iteration,
                egraph,
                sample,
                trace.limits[n],
                trace.checks[n - 1],
            );
        let samples = fewer.push(Sample { phase, rule, reading: sample->0 });
        assert(samples.drop_last() =~= fewer);
        samples
    }
}

/// The samples of applications.
proof fn lemma_apply_samples<G: EGraph, S, H, D>(
    calls: Calls<G, S, H, D>,
    trace: ApplyTrace<G, S>,
    iteration: usize,
    rewrites: Seq<Rewrite<G::Rule>>,
    matches: Seq<Vec<SearchMatches<G::Subst>>>,
    n: int,
) -> (samples: Seq<Sample>)
    requires
        trace.follows(calls.apply, iteration, rewrites, matches),
        trace.limits[0].memory is Some,
        0 <= n <= trace.counts.len(),
    ensures
        samples.len() == n,
        forall|j: int|
            0 <= j < n ==> (#[trigger] samples[j]).phase == MemorySamplePhase::AfterRuleApplication
                && samples[j].rule == Some(rewrites[j].name),
        trace.limits[n].memory == Some(having_taken(trace.limits[0].memory->0, samples)),
    decreases n,
{
    if n == 0 {
        Seq::empty()
    } else {
        let fewer = lemma_apply_samples(calls, trace, iteration, rewrites, matches, n - 1);
        let count = trace.counts[n - 1];
        let before = trace.limits[n - 1];
        let phase = MemorySamplePhase::AfterRuleApplication;
        let rule = Some(rewrites[n - 1].name);
        let (sample, between) = choose|sample: Option<u64>, between: LimitsModel<G::Probe>|
            #[trigger] sampled_at(before, phase, rule, sample, between) && checked(
                between,
                iteration,
                trace.egraphs[n],
                sample,
                trace.limits[n],
                trace.checks[n - 1],
            );
        let samples = fewer.push(Sample { phase, rule, reading: sample->0 });
        assert(samples.drop_last() =~= fewer);
        samples
    }
}

/// Hooks take no samples.
pub open spec fn hooks_keep_readings<G: EGraph, S, H, D>(calls: Calls<G, S, H, D>) -> bool {
    forall|
        hook: H,
        runner: Runner<G, S, H, D>,
        hook_after: H,
        runner_after: Runner<G, S, H, D>,
        outcome: Result<(), String>,
    | #[trigger]
        (calls.hook)(hook, runner, hook_after, runner_after, outcome) ==> runner_after.limits@
            == runner.limits@
}

/// One hook after the other takes no samples, where no hook does.
proof fn lemma_hooks_keep_readings<G: EGraph, S, H, D>(
    calls: Calls<G, S, H, D>,
    trace: HookTrace<G, S, H, D>,
    hooks: Seq<H>,
    n: int,
)
    requires
        hooks_keep_readings(calls),
        trace.follows(calls.hook, hooks),
        0 <= n <= trace.outcomes.len(),
    ensures
        trace.runners[n].limits@ == trace.runners[0].limits@,
    decreases n,
{
    if n > 0 {
        lemma_hooks_keep_readings(calls, trace, hooks, n - 1);
        let outcome = trace.outcomes[n - 1];
    }
}

/// An iteration that nothing stops on its way samples memory at its start, behind
/// the search of each rewrite, behind the application of each, and at its end. Its
/// limit checks take no other samples, and without hooks that sample there is none.
pub proof fn law_iteration_samples<G: EGraph, S: RewriteScheduler<G>, H, D>(
    moments: Moments<G, S, H, D>,
    calls: Calls<G, S, H, D>,
    rewrites: Seq<Rewrite<G::Rule>>,
    before: Runner<G, S, H, D>,
    after: Runner<G, S, H, D>,
    record: Iteration<D>,
) -> (round: Round)
    requires
        moments.explain(calls, rewrites, before, after, record),
        hooks_keep_readings(calls),
        searches_in_turn(calls, rewrites),
        before.limits@.memory is Some,
        moments.apply_result is Ok,
    ensures
        round.covers(rewrites),
        round.count() == 2 + 2 * rewrites.len(),
        after.limits@.memory == Some(
            having_taken(before.limits@.memory->0.having_begun(round.start), round.samples),
        ),
{
    let iteration = before.iterations.len();
    let n = rewrites.len() as int;
    let tracker = before.limits@.memory->0;
    let limits = choose|limits: LimitsModel<G::Probe>| #[trigger]
        started(moments.opened.limits@, limits) && begun(
            limits,
            iteration,
            before.egraph,
            moments.begun.limits@,
            moments.begin_result,
        );
    let (first, between) = choose|sample: Option<u64>, between: LimitsModel<G::Probe>| #[trigger]
        sampled_at_start(limits, sample, between) && checked(
            between,
            iteration,
            before.egraph,
            sample,
            moments.begun.limits@,
            moments.begin_result,
        );
    let start = first->0;
    assert(moments.begun.limits@.memory == Some(tracker.having_begun(start)));
    let hooks = hook_trace(moments, calls);
    lemma_hooks_keep_readings(calls, hooks, moments.hook_from.hooks@, hooks.outcomes.len() as int);
    assert(moments.hooked.limits@ == moments.hook_from.limits@);
    let step = choose|
        step: spec_fn(S, Rewrite<G::Rule>, S, Seq<SearchMatches<G::Subst>>) -> bool,
    | #[trigger]
        searched_in_turn(
            step,
            moments.search_from.scheduler,
            moments.search_from.limits@,
            iteration,
            moments.search_from.egraph,
            rewrites,
            moments.searched.scheduler,
            moments.searched.limits@,
            moments.search_result,
        );
    let searches = search_trace(
        step,
        moments.search_from.scheduler,
        moments.search_from.limits@,
        iteration,
        moments.search_from.egraph,
        rewrites,
        moments.searched.scheduler,
        moments.searched.limits@,
        moments.search_result,
    );
    let searched = lemma_search_samples(
        step,
        searches,
        iteration,
        moments.search_from.egraph,
        rewrites,
        n,
    );
    let matches = moments.search_result->Ok_0@;
    let applications = apply_trace(
        moments,
        calls,
        iteration,
        rewrites,
        count_entries(record.applied),
    );
    let applied = lemma_apply_samples(calls, applications, iteration, rewrites, matches, n);
    let (sample, between) = choose|sample: Option<u64>, between: LimitsModel<G::Probe>| #[trigger]
        sampled_at(
            moments.rebuild_to.limits@,
            MemorySamplePhase::AfterRebuildFinalization,
            None,
            sample,
            between,
        ) && checked(
            between,
            iteration,
            moments.ended.egraph,
            sample,
            moments.ended.limits@,
            moments.final_check,
        );
    let last = Sample {
        phase: MemorySamplePhase::AfterRebuildFinalization,
        rule: None,
        reading: sample->0,
    };
    let samples = (searched + applied).push(last);
    lemma_taken_in_turn(tracker.having_begun(start), searched, applied);
    assert(samples.drop_last() =~= searched + applied);
    let round = Round { start, samples };
    assert forall|j: int| n <= j < 2 * n implies (#[trigger] samples[j]).phase
        == MemorySamplePhase::AfterRuleApplication && samples[j].rule == Some(
        rewrites[j - n].name,
    ) by {
        assert(samples[j] == applied[j - n]);
    }
    assert forall|j: int| 0 <= j < n implies (#[trigger] samples[j]).phase
        == MemorySamplePhase::AfterRuleSearch && samples[j].rule == Some(rewrites[j].name) by {
        assert(samples[j] == searched[j]);
    }
    round
}

/// The samples of a run so far.
proof fn lemma_rounds_so_far<
    G: EGraph,
    S: RewriteScheduler<G>,
    H,
    D: IterationData<G, S, H>,
>(
    calls: Calls<G, S, H, D>,
    rewrites: Seq<Rewrite<G::Rule>>,
    trace: RunTrace<G, S, H, D>,
    n: int,
) -> (rounds: Seq<Round>)
    requires
        hooks_keep_readings(calls),
        searches_in_turn(calls, rewrites),
        trace.follows(calls, rewrites),
        trace.runners[0].limits@.memory is Some,
        undisturbed(trace),
        0 <= n <= trace.records.len(),
    ensures
        rounds.len() == n,
        forall|j: int| 0 <= j < n ==> (#[trigger] rounds[j]).covers(rewrites),
        samples_in(rounds) == n * (2 + 2 * rewrites.len()),
        trace.runners[n].limits@.memory == Some(
            having_gone_through(trace.runners[0].limits@.memory->0, rounds),
        ),
    decreases n,
{
    if n == 0 {
        Seq::empty()
    } else {
        let fewer = lemma_rounds_so_far(calls, rewrites, trace, n - 1);
        let before = trace.runners[n - 1];
        let record = trace.records[n - 1];
        let after = trace.runners[n];
        let (ran, moments) = lemma_step_parts(
            calls,
            rewrites,
            before,
            record,
            after,
            trace.stops[n - 1],
        );
        assert(hooks_keep_settings(calls));
        law_iteration_keeps_limits(moments, calls, rewrites, before, ran, record);
        let round = law_iteration_samples(moments, calls, rewrites, before, ran, record);
        let rounds = fewer.push(round);
        assert(rounds.drop_last() =~= fewer);
        let each = 2 + 2 * rewrites.len();
        assert((n - 1) * each + each == n * each) by (nonlinear_arith);
        rounds
    }
}

/// No hook and no check inside an iteration stops the run: where an iteration has a
/// reason of its own to stop, it is that the run has saturated.
pub open spec fn undisturbed<G: EGraph, S, H, D>(trace: RunTrace<G, S, H, D>) -> bool {
    forall|j: int|
        0 <= j < trace.records.len() ==> {
            ||| (#[trigger] trace.records[j]).stop_reason is None
            ||| trace.records[j].stop_reason == Some(StopReason::Saturated)
        }
}

/// A run of `m` iterations over `n` rewrites that nothing stops inside an iteration
/// takes `m * (2 + 2 * n)` memory samples and one more at its end. The checks between
/// iterations take none.
pub proof fn law_run_samples<G: EGraph, S: RewriteScheduler<G>, H, D: IterationData<G, S, H>>(
    calls: Calls<G, S, H, D>,
    rewrites: Seq<Rewrite<G::Rule>>,
    before: Runner<G, S, H, D>,
    trace: RunTrace<G, S, H, D>,
    after: Runner<G, S, H, D>,
) -> (rounds: Seq<Round>)
    requires
        hooks_keep_readings(calls),
        searches_in_turn(calls, rewrites),
        trace.follows(calls, rewrites),
        rebuilt(calls, before, trace.runners.first()),
        trace.stops.len() > 0,
        finished(trace.runners.last(), trace.stops.last(), after),
        before.limits@.memory is Some,
        undisturbed(trace),
    ensures
        rounds.len() == trace.records.len(),
        forall|j: int| 0 <= j < rounds.len() ==> (#[trigger] rounds[j]).covers(rewrites),
        samples_in(rounds) == trace.records.len() * (2 + 2 * rewrites.len()),
        exists|reading: u64|
            after.limits@.memory == Some(
                #[trigger] having_gone_through(
                    before.limits@.memory->0,
                    rounds,
                ).having_finished(reading),
            ),
{
    let n = trace.records.len() as int;
    let rounds = lemma_rounds_so_far(calls, rewrites, trace, n);
    let last = trace.runners.last();
    let sample = choose|sample: Option<u64>| #[trigger]
        sampled_at_end(last.limits@, sample, after.limits@);
    let done = having_gone_through(before.limits@.memory->0, rounds).having_finished(sample->0);
    assert(after.limits@.memory == Some(done));
    rounds
}

} // verus!
