//! What holds of the times in a record, on a clock that does not run backward.

use vstd::prelude::*;
use crate::egraph::{EGraph, Probe, Rewrite, SearchMatches, Symbol};
use crate::iteration::{ApplyTrace, Calls, HookTrace, Moments};
use crate::laws::limiting::{apply_trace, searches_in_turn};
use crate::laws::runs::{hook_trace, search_trace};
use crate::limits::{
    begun, checked, checked_at, sampled_at, sampled_at_start, started, LimitsModel, RunnerResult,
};
use crate::maps::count_entries;
use crate::memory::MemorySamplePhase;
use crate::report::Iteration;
use crate::runner::Runner;
use crate::scheduler::{searched_in_turn, RewriteScheduler, SearchTrace};

verus! {

/// The clock does not run backward: every state of the process has a time, which
/// observations only move forward, and what the clock shows lies between the times
/// before and after it is read.
pub open spec fn runs_forward<P: Probe>(time: spec_fn(P) -> u64) -> bool {
    &&& forall|before: P, now: u64, after: P| #[trigger]
        P::tells(before, now, after) ==> time(before) <= now <= time(after)
    &&& forall|before: P, reading: u64, after: P| #[trigger]
        P::samples(before, reading, after) ==> time(before) <= time(after)
}

/// Hooks do not set the clock back.
pub open spec fn hooks_run_forward<G: EGraph, S, H, D>(
    calls: Calls<G, S, H, D>,
    time: spec_fn(G::Probe) -> u64,
) -> bool {
    forall|
        hook: H,
        runner: Runner<G, S, H, D>,
        hook_after: H,
        runner_after: Runner<G, S, H, D>,
        outcome: Result<(), String>,
    | #[trigger]
        (calls.hook)(hook, runner, hook_after, runner_after, outcome) ==> time(
            runner.limits@.probe,
        ) <= time(runner_after.limits@.probe)
}

/// A search does not set the clock back.
pub open spec fn searches_run_forward<G: EGraph, S, H, D>(
    calls: Calls<G, S, H, D>,
    time: spec_fn(G::Probe) -> u64,
) -> bool {
    forall|
        iteration: usize,
        scheduler: S,
        limits: LimitsModel<G::Probe>,
        egraph: G,
        scheduler_after: S,
        limits_after: LimitsModel<G::Probe>,
        result: RunnerResult<Vec<Vec<SearchMatches<G::Subst>>>>,
    | #[trigger]
        (calls.search)(
            iteration,
            scheduler,
            limits,
            egraph,
            scheduler_after,
            limits_after,
            result,
        ) ==> time(limits.probe) <= time(limits_after.probe)
}

/// A limit check does not set the clock back.
proof fn lemma_check_runs_forward<G: EGraph>(
    time: spec_fn(G::Probe) -> u64,
    before: LimitsModel<G::Probe>,
    iteration: usize,
    egraph: G,
    phase: MemorySamplePhase,
    rule: Option<Symbol>,
    after: LimitsModel<G::Probe>,
    result: RunnerResult<()>,
)
    requires
        runs_forward(time),
        checked_at(before, iteration, egraph, phase, rule, after, result),
    ensures
        time(before.probe) <= time(after.probe),
{
    let (sample, between) = choose|sample: Option<u64>, between: LimitsModel<G::Probe>| #[trigger]
        sampled_at(before, phase, rule, sample, between) && checked(
            between,
            iteration,
            egraph,
            sample,
            after,
            result,
        );
    assert(before.samples(sample, between.probe));
    assert(time(before.probe) <= time(between.probe));
}

/// Searches in turn do not set the clock back.
proof fn lemma_searches_run_forward<S, G: EGraph>(
    time: spec_fn(G::Probe) -> u64,
    step: spec_fn(S, Rewrite<G::Rule>, S, Seq<SearchMatches<G::Subst>>) -> bool,
    trace: SearchTrace<S, G::Subst, G::Probe>,
    iteration: usize,
    egraph: G,
    rewrites: Seq<Rewrite<G::Rule>>,
    n: int,
)
    requires
        runs_forward(time),
        trace.follows(step, iteration, egraph, rewrites),
        0 <= n <= trace.matches.len(),
    ensures
        time(trace.limits[0].probe) <= time(trace.limits[n].probe),
    decreases n,
{
    if n > 0 {
        lemma_searches_run_forward(time, step, trace, iteration, egraph, rewrites, n - 1);
        let found = trace.matches[n - 1];
        lemma_check_runs_forward(
            time,
            trace.limits[n - 1],
            iteration,
            egraph,
            MemorySamplePhase::AfterRuleSearch,
            Some(rewrites[n - 1].name),
            trace.limits[n],
            trace.checks[n - 1],
        );
    }
}

/// A search of rewrites in turn does not set the clock back.
pub proof fn law_search_in_turn_runs_forward<G: EGraph, S, H, D>(
    calls: Calls<G, S, H, D>,
    rewrites: Seq<Rewrite<G::Rule>>,
    time: spec_fn(G::Probe) -> u64,
)
    requires
        runs_forward(time),
        searches_in_turn(calls, rewrites),
    ensures
        searches_run_forward(calls, time),
{
    assert forall|
        iteration: usize,
        scheduler: S,
        limits: LimitsModel<G::Probe>,
        egraph: G,
        scheduler_after: S,
        limits_after: LimitsModel<G::Probe>,
        result: RunnerResult<Vec<Vec<SearchMatches<G::Subst>>>>,
    | #[trigger]
        (calls.search)(
            iteration,
            scheduler,
            limits,
            egraph,
            scheduler_after,
            limits_after,
            result,
        ) implies time(limits.probe) <= time(limits_after.probe) by {
        let step = choose|
            step: spec_fn(S, Rewrite<G::Rule>, S, Seq<SearchMatches<G::Subst>>) -> bool,
        | #[trigger]
            searched_in_turn(
                step,
                scheduler,
                limits,
                iteration,
                egraph,
                rewrites,
                scheduler_after,
                limits_after,
                result,
            );
        let trace = search_trace(
            step,
            scheduler,
            limits,
            iteration,
            egraph,
            rewrites,
            scheduler_after,
            limits_after,
            result,
        );
        lemma_searches_run_forward(
            time,
            step,
            trace,
            iteration,
            egraph,
            rewrites,
            trace.matches.len() as int,
        );
    }
}

/// One hook after the other does not set the clock back, where none does.
proof fn lemma_hooks_run_forward<G: EGraph, S, H, D>(
    calls: Calls<G, S, H, D>,
    time: spec_fn(G::Probe) -> u64,
    trace: HookTrace<G, S, H, D>,
    hooks: Seq<H>,
    n: int,
)
    requires
        hooks_run_forward(calls, time),
        trace.follows(calls.hook, hooks),
        0 <= n <= trace.outcomes.len(),
    ensures
        time(trace.runners[0].limits@.probe) <= time(trace.runners[n].limits@.probe),
    decreases n,
{
    if n > 0 {
        lemma_hooks_run_forward(calls, time, trace, hooks, n - 1);
        let outcome = trace.outcomes[n - 1];
    }
}

/// Applications do not set the clock back.
proof fn lemma_applications_run_forward<G: EGraph, S, H, D>(
    calls: Calls<G, S, H, D>,
    time: spec_fn(G::Probe) -> u64,
    trace: ApplyTrace<G, S>,
    iteration: usize,
    rewrites: Seq<Rewrite<G::Rule>>,
    matches: Seq<Vec<SearchMatches<G::Subst>>>,
    n: int,
)
    requires
        runs_forward(time),
        trace.follows(calls.apply, iteration, rewrites, matches),
        0 <= n <= trace.counts.len(),
    ensures
        time(trace.limits[0].probe) <= time(trace.limits[n].probe),
    decreases n,
{
    if n > 0 {
        lemma_applications_run_forward(
            calls,
            time,
            trace,
            iteration,
            rewrites,
            matches,
            n - 1,
        );
        let count = trace.counts[n - 1];
        lemma_check_runs_forward(
            time,
            trace.limits[n - 1],
            iteration,
            trace.egraphs[n],
            MemorySamplePhase::AfterRuleApplication,
            Some(rewrites[n - 1].name),
            trace.limits[n],
            trace.checks[n - 1],
        );
    }
}

/// Beginning an iteration does not set the clock back.
proof fn lemma_begin_runs_forward<G: EGraph, S: RewriteScheduler<G>, H, D>(
    moments: Moments<G, S, H, D>,
    calls: Calls<G, S, H, D>,
    rewrites: Seq<Rewrite<G::Rule>>,
    before: Runner<G, S, H, D>,
    after: Runner<G, S, H, D>,
    record: Iteration<D>,
    time: spec_fn(G::Probe) -> u64,
)
    requires
        moments.explain(calls, rewrites, before, after, record),
        runs_forward(time),
    ensures
        time(moments.opened.limits@.probe) <= time(moments.begun.limits@.probe),
{
    let iteration = before.iterations.len();
    let limits = choose|limits: LimitsModel<G::Probe>| #[trigger]
        started(moments.opened.limits@, limits) && begun(
            limits,
            iteration,
            before.egraph,
            moments.begun.limits@,
            moments.begin_result,
        );
    assert(time(moments.opened.limits@.probe) <= time(limits.probe));
    let (sample, between) = choose|sample: Option<u64>, between: LimitsModel<G::Probe>| #[trigger]
        sampled_at_start(limits, sample, between) && checked(
            between,
            iteration,
            before.egraph,
            sample,
            moments.begun.limits@,
            moments.begin_result,
        );
    assert(limits.samples(sample, between.probe));
    assert(time(limits.probe) <= time(between.probe));
}

/// On a clock that does not run backward, the readings of an iteration are in order.
/// So the total time of an iteration covers its parts: hooks, search, applications
/// and rebuild. The data generation is covered too.
pub proof fn law_total_time_covers_the_parts<G: EGraph, S: RewriteScheduler<G>, H, D>(
    moments: Moments<G, S, H, D>,
    calls: Calls<G, S, H, D>,
    rewrites: Seq<Rewrite<G::Rule>>,
    before: Runner<G, S, H, D>,
    after: Runner<G, S, H, D>,
    record: Iteration<D>,
    time: spec_fn(G::Probe) -> u64,
)
    requires
        moments.explain(calls, rewrites, before, after, record),
        runs_forward(time),
        hooks_run_forward(calls, time),
        searches_run_forward(calls, time),
    ensures
        moments.readings.in_order(),
        record.total_time >= record.hook_time + record.search_time + record.apply_time
            + record.rebuild_time,
{
    let iteration = before.iterations.len();
    lemma_begin_runs_forward(moments, calls, rewrites, before, after, record, time);
    if moments.begin_result is Ok {
        let hooks = hook_trace(moments, calls);
        lemma_hooks_run_forward(
            calls,
            time,
            hooks,
            moments.hook_from.hooks@,
            hooks.outcomes.len() as int,
        );
    }
    assert(time(moments.hook_from.limits@.probe) <= time(moments.hooked.limits@.probe));
    assert(time(moments.search_from.limits@.probe) <= time(moments.searched.limits@.probe));
    if moments.search_result is Ok {
        let trace = apply_trace(
            moments,
            calls,
            iteration,
            rewrites,
            count_entries(record.applied),
        );
        lemma_applications_run_forward(
            calls,
            time,
            trace,
            iteration,
            rewrites,
            moments.search_result->Ok_0@,
            trace.counts.len() as int,
        );
    }
    assert(time(moments.apply_from.limits@.probe) <= time(moments.applied.limits@.probe));
    lemma_check_runs_forward(
        time,
        moments.rebuild_to.limits@,
        iteration,
        moments.ended.egraph,
        MemorySamplePhase::AfterRebuildFinalization,
        None,
        moments.ended.limits@,
        moments.final_check,
    );
}

} // verus!
