//! What holds of a run that a limit stops.

use vstd::prelude::*;
use crate::backoff::BackoffScheduler;
use crate::egraph::{EGraph, Rewrite, SearchMatches};
use crate::iteration::{iterated, reason_of, tally, ApplyTrace, Calls, HookTrace, Moments};
use crate::laws::runs::{
    hook_trace, hooks_keep_records, hooks_keep_snapshot, is_limit, lemma_records_so_far,
    search_trace,
};
use crate::limits::{checked, LimitsModel, RunnerLimits, RunnerResult, StopReason};
use crate::maps::count_entries;
use crate::report::Iteration;
use crate::runner::{
    finished, ran, rebuilt, stamped, stepped, Hook, IterationData, RunTrace, Runner,
};
use crate::scheduler::{searched_in_turn, RewriteScheduler, SearchTrace, SimpleScheduler};

verus! {

/// Hooks leave the limits as they are, but for memory readings.
pub open spec fn hooks_keep_settings<G: EGraph, S, H, D>(calls: Calls<G, S, H, D>) -> bool {
    forall|
        hook: H,
        runner: Runner<G, S, H, D>,
        hook_after: H,
        runner_after: Runner<G, S, H, D>,
        outcome: Result<(), String>,
    | #[trigger]
        (calls.hook)(hook, runner, hook_after, runner_after, outcome)
            ==> runner_after.limits@.same_settings(runner.limits@)
}

/// The scheduler searches one rewrite after the other, with a limit check behind
/// each, as schedulers do that do not bring a way of their own.
pub open spec fn searches_in_turn<G: EGraph, S, H, D>(
    calls: Calls<G, S, H, D>,
    rewrites: Seq<Rewrite<G::Rule>>,
) -> bool {
    forall|
        iteration: usize,
        scheduler: S,
        limits: LimitsModel<G::Probe>,
        egraph: G,
        scheduler_after: S,
        limits_after: LimitsModel<G::Probe>,
        result: RunnerResult<Vec<Vec<SearchMatches<G::Subst>>>>,
    | #[trigger]
        (calls.search)(
            iteration,
            scheduler,
            limits,
            egraph,
            scheduler_after,
            limits_after,
            result,
        ) ==> exists|step: spec_fn(S, Rewrite<G::Rule>, S, Seq<SearchMatches<G::Subst>>) -> bool|
            #[trigger] searched_in_turn(
                step,
                scheduler,
                limits,
                iteration,
                egraph,
                rewrites,
                scheduler_after,
                limits_after,
                result,
            )
}

/// Whatever hooks do, they leave the limits as they are, but for memory readings.
pub proof fn law_hooks_keep_settings<G: EGraph, S, H: Hook<G, S, D>, D>(calls: Calls<G, S, H, D>)
    ensures
        hooks_keep_settings(
            Calls {
                hook: |
                    hook: H,
                    runner: Runner<G, S, H, D>,
                    hook_after: H,
                    runner_after: Runner<G, S, H, D>,
                    outcome: Result<(), String>,
                |
                    exists|h: &mut H, m: &mut Runner<G, S, H, D>|
                        *h == hook && *final(h) == hook_after && *m == runner
                            && *final(m) == runner_after
                            && #[trigger] call_ensures(H::call, (h, m), outcome),
                ..calls
            },
        ),
{
}

/// The hook that does nothing leaves records and snapshot as they are.
pub proof fn law_idle_hooks_keep_records<G: EGraph, S, D>(calls: Calls<G, S, (), D>)
    ensures
        ({
            let idle = Calls {
                hook: |
                    hook: (),
                    runner: Runner<G, S, (), D>,
                    hook_after: (),
                    runner_after: Runner<G, S, (), D>,
                    outcome: Result<(), String>,
                |
                    exists|h: &mut (), m: &mut Runner<G, S, (), D>|
                        *h == hook && *final(h) == hook_after && *m == runner
                            && *final(m) == runner_after
                            && #[trigger] call_ensures(
                            <() as Hook<G, S, D>>::call,
                            (h, m),
                            outcome,
                        ),
                ..calls
            };
            &&& hooks_keep_records(idle)
            &&& hooks_keep_snapshot(idle)
        }),
{
}

/// The backoff scheduler searches one rewrite after the other.
pub proof fn law_backoff_searches_in_turn<G: EGraph, H, D>(
    calls: Calls<G, BackoffScheduler, H, D>,
    rules: &[Rewrite<G::Rule>],
)
    ensures
        searches_in_turn(
            Calls {
                search: |
                    iteration: usize,
                    scheduler: BackoffScheduler,
                    limits: LimitsModel<G::Probe>,
                    egraph: G,
                    scheduler_after: BackoffScheduler,
                    limits_after: LimitsModel<G::Probe>,
                    result: RunnerResult<Vec<Vec<SearchMatches<G::Subst>>>>,
                |
                    exists|s: &mut BackoffScheduler, l: &mut RunnerLimits<G::Probe>|
                        *s == scheduler && *final(s) == scheduler_after && l@ == limits
                            && final(l)@ == limits_after && #[trigger] call_ensures(
                            <BackoffScheduler as RewriteScheduler<G>>::search_rewrites,
                            (s, iteration, &egraph, rules, l),
                            result,
                        ),
                ..calls
            },
            rules@,
        ),
{
}

/// The simple scheduler searches one rewrite after the other.
pub proof fn law_simple_scheduler_searches_in_turn<G: EGraph, H, D>(
    calls: Calls<G, SimpleScheduler, H, D>,
    rules: &[Rewrite<G::Rule>],
)
    ensures
        searches_in_turn(
            Calls {
                search: |
                    iteration: usize,
                    scheduler: SimpleScheduler,
                    limits: LimitsModel<G::Probe>,
                    egraph: G,
                    scheduler_after: SimpleScheduler,
                    limits_after: LimitsModel<G::Probe>,
                    result: RunnerResult<Vec<Vec<SearchMatches<G::Subst>>>>,
                |
                    exists|s: &mut SimpleScheduler, l: &mut RunnerLimits<G::Probe>|
                        *s == scheduler && *final(s) == scheduler_after && l@ == limits
                            && final(l)@ == limits_after && #[trigger] call_ensures(
                            <SimpleScheduler as RewriteScheduler<G>>::search_rewrites,
                            (s, iteration, &egraph, rules, l),
                            result,
                        ),
                ..calls
            },
            rules@,
        ),
{
}

/// A limit check that stops a run names a limit, and names the limit on iterations
/// only where it is hit.
pub open spec fn fair<P>(
    limits: LimitsModel<P>,
    iteration: usize,
    result: RunnerResult<()>,
) -> bool {
    match result {
        Ok(()) => iteration < limits.iter_limit,
        Err(reason) => {
            &&& is_limit(reason)
            &&& reason matches StopReason::IterationLimit(limit) ==> limit == limits.iter_limit
                && iteration >= limit
        },
    }
}

/// Searches in turn leave the limits as they are, but for memory readings.
proof fn lemma_searches_keep_settings<S, G: EGraph>(
    step: spec_fn(S, Rewrite<G::Rule>, S, Seq<SearchMatches<G::Subst>>) -> bool,
    trace: SearchTrace<S, G::Subst, G::Probe>,
    iteration: usize,
    egraph: G,
    rewrites: Seq<Rewrite<G::Rule>>,
    n: int,
)
    requires
        trace.follows(step, iteration, egraph, rewrites),
        0 <= n <= trace.matches.len(),
    ensures
        trace.limits[n].same_settings(trace.limits[0]),
    decreases n,
{
    if n > 0 {
        lemma_searches_keep_settings(step, trace, iteration, egraph, rewrites, n - 1);
        let found = trace.matches[n - 1];
    }
}

/// A search of all rewrites in turn leaves the limits as they are, but for memory
/// readings. Where it is stopped, that is by a limit that is hit.
pub proof fn law_search_is_stopped_by_limits<S, G: EGraph>(
    step: spec_fn(S, Rewrite<G::Rule>, S, Seq<SearchMatches<G::Subst>>) -> bool,
    before: S,
    limits_before: LimitsModel<G::Probe>,
    iteration: usize,
    egraph: G,
    rewrites: Seq<Rewrite<G::Rule>>,
    after: S,
    limits_after: LimitsModel<G::Probe>,
    result: RunnerResult<Vec<Vec<SearchMatches<G::Subst>>>>,
)
    requires
        searched_in_turn(
            step,
            before,
            limits_before,
            iteration,
            egraph,
            rewrites,
            after,
            limits_after,
            result,
        ),
    ensures
        limits_after.same_settings(limits_before),
        result matches Err(reason) ==> fair(limits_before, iteration, Err(reason)),
{
    let trace = search_trace(
        step,
        before,
        limits_before,
        iteration,
        egraph,
        rewrites,
        after,
        limits_after,
        result,
    );
    let n = trace.matches.len() as int;
    lemma_searches_keep_settings(step, trace, iteration, egraph, rewrites, n);
    if result is Err {
        lemma_searches_keep_settings(step, trace, iteration, egraph, rewrites, n - 1);
        let found = trace.matches[n - 1];
    }
}

/// One hook after the other leaves the limits as they are, where each hook does.
proof fn lemma_hooks_keep_settings<G: EGraph, S, H, D>(
    calls: Calls<G, S, H, D>,
    trace: HookTrace<G, S, H, D>,
    hooks: Seq<H>,
    n: int,
)
    requires
        hooks_keep_settings(calls),
        trace.follows(calls.hook, hooks),
        0 <= n <= trace.outcomes.len(),
    ensures
        trace.runners[n].limits@.same_settings(trace.runners[0].limits@),
    decreases n,
{
    if n > 0 {
        lemma_hooks_keep_settings(calls, trace, hooks, n - 1);
        let outcome = trace.outcomes[n - 1];
    }
}

/// How the applications of an iteration went.
pub open spec fn apply_trace<G: EGraph, S, H, D>(
    moments: Moments<G, S, H, D>,
    calls: Calls<G, S, H, D>,
    iteration: usize,
    rewrites: Seq<Rewrite<G::Rule>>,
    applied: Seq<(Seq<char>, usize)>,
) -> ApplyTrace<G, S> {
    let matches = moments.search_result->Ok_0@;
    choose|trace: ApplyTrace<G, S>|
        {
            &&& #[trigger] trace.follows(calls.apply, iteration, rewrites, matches)
            &&& trace.schedulers.first() == moments.apply_from.scheduler
            &&& trace.egraphs.first() == moments.apply_from.egraph
            &&& trace.limits.first() == moments.apply_from.limits@
            &&& trace.schedulers.last() == moments.applied.scheduler
            &&& trace.egraphs.last() == moments.applied.egraph
            &&& trace.limits.last() == moments.applied.limits@
            &&& moments.applied.same_records(moments.apply_from)
            &&& applied == tally(rewrites, trace.counts)
            &&& moments.apply_result == trace.result()
            &&& moments.apply_result is Ok ==> trace.counts.len() == rewrites.len()
                || trace.counts.len() == matches.len()
        }
}

/// Applications leave the limits as they are, but for memory readings.
proof fn lemma_applications_keep_settings<G: EGraph, S, H, D>(
    calls: Calls<G, S, H, D>,
    trace: ApplyTrace<G, S>,
    iteration: usize,
    rewrites: Seq<Rewrite<G::Rule>>,
    matches: Seq<Vec<SearchMatches<G::Subst>>>,
    n: int,
)
    requires
        trace.follows(calls.apply, iteration, rewrites, matches),
        0 <= n <= trace.counts.len(),
    ensures
        trace.limits[n].same_settings(trace.limits[0]),
    decreases n,
{
    if n > 0 {
        lemma_applications_keep_settings(calls, trace, iteration, rewrites, matches, n - 1);
        let count = trace.counts[n - 1];
    }
}

/// The steps of an iteration leave the limits as they are, and what stops one of
/// them is a limit that is hit or a hook.
pub proof fn law_iteration_keeps_limits<G: EGraph, S: RewriteScheduler<G>, H, D>(
    moments: Moments<G, S, H, D>,
    calls: Calls<G, S, H, D>,
    rewrites: Seq<Rewrite<G::Rule>>,
    before: Runner<G, S, H, D>,
    after: Runner<G, S, H, D>,
    record: Iteration<D>,
)
    requires
        moments.explain(calls, rewrites, before, after, record),
        hooks_keep_settings(calls),
        searches_in_turn(calls, rewrites),
    ensures
        after.limits@.same_limits(before.limits@),
        ({
            let limits = before.limits@;
            let iteration = before.iterations.len();
            &&& fair(limits, iteration, moments.begin_result)
            &&& moments.apply_result matches Err(reason) ==> reason is Other || fair(
                limits,
                iteration,
                Err(reason),
            )
            &&& fair(limits, iteration, moments.final_check)
        }),
{
    let iteration = before.iterations.len();
    if moments.begin_result is Ok {
        let hooks = hook_trace(moments, calls);
        lemma_hooks_keep_settings(
            calls,
            hooks,
            moments.hook_from.hooks@,
            hooks.outcomes.len() as int,
        );
        assert(moments.hooked.limits@.same_settings(moments.begun.limits@));
        if moments.hook_result is Ok {
            let step = choose|
                step: spec_fn(S, Rewrite<G::Rule>, S, Seq<SearchMatches<G::Subst>>) -> bool,
            | #[trigger]
                searched_in_turn(
                    step,
                    moments.search_from.scheduler,
                    moments.search_from.limits@,
                    iteration,
                    moments.search_from.egraph,
                    rewrites,
                    moments.searched.scheduler,
                    moments.searched.limits@,
                    moments.search_result,
                );
            law_search_is_stopped_by_limits(
                step,
                moments.search_from.scheduler,
                moments.search_from.limits@,
                iteration,
                moments.search_from.egraph,
                rewrites,
                moments.searched.scheduler,
                moments.searched.limits@,
                moments.search_result,
            );
            if moments.search_result is Ok {
                let matches = moments.search_result->Ok_0@;
                let trace = apply_trace(
                    moments,
                    calls,
                    iteration,
                    rewrites,
                    count_entries(record.applied),
                );
                let n = trace.counts.len() as int;
                lemma_applications_keep_settings(calls, trace, iteration, rewrites, matches, n);
                if moments.apply_result is Err {
                    lemma_applications_keep_settings(
                        calls,
                        trace,
                        iteration,
                        rewrites,
                        matches,
                        n - 1,
                    );
                    let count = trace.counts[n - 1];
                }
            }
        }
    }
}

/// The result of a check that gave this reason to stop, or none.
pub open spec fn said(stop: Option<StopReason>) -> RunnerResult<()> {
    match stop {
        Some(reason) => Err(reason),
        None => Ok(()),
    }
}

/// The runner behind the iteration of a step, and the iteration's states.
pub proof fn lemma_step_parts<
    G: EGraph,
    S: RewriteScheduler<G>,
    H,
    D: IterationData<G, S, H>,
>(
    calls: Calls<G, S, H, D>,
    rewrites: Seq<Rewrite<G::Rule>>,
    before: Runner<G, S, H, D>,
    record: Iteration<D>,
    after: Runner<G, S, H, D>,
    stop: Option<StopReason>,
) -> (parts: (Runner<G, S, H, D>, Moments<G, S, H, D>))
    requires
        stepped(calls, rewrites, before, record, after, stop),
    ensures
        parts.1.explain(calls, rewrites, before, parts.0, record),
        after.limits@.same_limits(parts.0.limits@),
        after.limits@.memory == parts.0.limits@.memory,
        record.stop_reason matches Some(reason) ==> stop == Some(reason) && after.limits@
            == parts.0.limits@,
        record.stop_reason is None ==> fair(after.limits@, after.iterations.len(), said(stop)),
{
    let ran = choose|ran: Runner<G, S, H, D>|
        {
            &&& #[trigger] iterated(calls, rewrites, before, ran, record)
            &&& after.iterations@ == ran.iterations@.push(stamped(record, stop))
            &&& after == (Runner { iterations: after.iterations, limits: after.limits, ..ran })
            &&& match record.stop_reason {
                Some(reason) => stop == Some(reason) && after.limits@ == ran.limits@,
                None => exists|check: RunnerResult<()>| #[trigger]
                    reason_of(check) == stop && checked(
                        ran.limits@,
                        after.iterations.len(),
                        after.egraph,
                        ran.limits@.latest(),
                        after.limits@,
                        check,
                    ),
            }
        };
    let moments = choose|moments: Moments<G, S, H, D>| #[trigger]
        moments.explain(calls, rewrites, before, ran, record);
    (ran, moments)
}

/// A run leaves the limits as they are, so far.
proof fn lemma_run_keeps_limits<
    G: EGraph,
    S: RewriteScheduler<G>,
    H,
    D: IterationData<G, S, H>,
>(
    calls: Calls<G, S, H, D>,
    rewrites: Seq<Rewrite<G::Rule>>,
    trace: RunTrace<G, S, H, D>,
    n: int,
)
    requires
        hooks_keep_settings(calls),
        searches_in_turn(calls, rewrites),
        trace.follows(calls, rewrites),
        0 <= n <= trace.records.len(),
    ensures
        trace.runners[n].limits@.same_limits(trace.runners[0].limits@),
    decreases n,
{
    if n > 0 {
        lemma_run_keeps_limits(calls, rewrites, trace, n - 1);
        let before = trace.runners[n - 1];
        let record = trace.records[n - 1];
        let after = trace.runners[n];
        let (ran, moments) = lemma_step_parts(
            calls,
            rewrites,
            before,
            record,
            after,
            trace.stops[n - 1],
        );
        law_iteration_keeps_limits(moments, calls, rewrites, before, ran, record);
    }
}

/// A run that the limit on iterations stops carries that limit. It has as many
/// records as the limit says, or one more than before where there were that many
/// already.
pub proof fn law_iteration_limit<
    G: EGraph,
    S: RewriteScheduler<G>,
    H,
    D: IterationData<G, S, H>,
>(
    calls: Calls<G, S, H, D>,
    rewrites: Seq<Rewrite<G::Rule>>,
    before: Runner<G, S, H, D>,
    after: Runner<G, S, H, D>,
)
    requires
        hooks_keep_records(calls),
        hooks_keep_settings(calls),
        searches_in_turn(calls, rewrites),
        ran(calls, rewrites, before, after),
        after.stop_reason->0 is IterationLimit,
    ensures
        after.stop_reason == Some(StopReason::IterationLimit(before.limits@.iter_limit)),
        after.iterations@.len() == if before.iterations@.len() < before.limits@.iter_limit {
            before.limits@.iter_limit as nat
        } else {
            before.iterations@.len() + 1
        },
{
    let trace = choose|trace: RunTrace<G, S, H, D>|
        {
            &&& #[trigger] trace.follows(calls, rewrites)
            &&& rebuilt(calls, before, trace.runners.first())
            &&& trace.stops.len() > 0
            &&& trace.stops.last() is Some
            &&& finished(trace.runners.last(), trace.stops.last(), after)
        };
    let n = trace.records.len() as int;
    let limit = before.limits@.iter_limit;
    lemma_records_so_far(calls, rewrites, trace, n);
    lemma_records_so_far(calls, rewrites, trace, n - 1);
    lemma_run_keeps_limits(calls, rewrites, trace, n);
    lemma_run_keeps_limits(calls, rewrites, trace, n - 1);
    let start = trace.runners[n - 1];
    let record = trace.records[n - 1];
    let end = trace.runners[n];
    if n > 1 {
        // the check behind the iteration before let the run go on
        lemma_run_keeps_limits(calls, rewrites, trace, n - 2);
        let earlier = trace.records[n - 2];
        assert(trace.stops[n - 2] is None);
        let parts = lemma_step_parts(
            calls,
            rewrites,
            trace.runners[n - 2],
            earlier,
            start,
            trace.stops[n - 2],
        );
        assert(start.iterations@.len() < limit);
    }
    let (ran, moments) = lemma_step_parts(
        calls,
        rewrites,
        start,
        record,
        end,
        trace.stops[n - 1],
    );
    law_iteration_keeps_limits(moments, calls, rewrites, start, ran, record);
}

} // verus!
