//! What holds of iterations and runs, whatever hooks, schedulers and e-graphs do.

use vstd::prelude::*;
use crate::egraph::{EGraph, Rewrite, SearchMatches};
use crate::iteration::{iterated, snapshot_taken, Calls, HookTrace, Moments};
use crate::limits::{LimitsModel, RunnerResult, StopReason};
use crate::maps::count_entries;
use crate::report::Iteration;
use crate::runner::{finished, ran, rebuilt, stamped, stepped, IterationData, RunTrace, Runner};
use crate::scheduler::{searched_in_turn, RewriteScheduler, SearchTrace};

verus! {

/// The reason is that a limit was hit.
pub open spec fn is_limit(reason: StopReason) -> bool {
    match reason {
        StopReason::TimeLimit(_) => true,
        StopReason::NodeLimit(_) => true,
        StopReason::IterationLimit(_) => true,
        StopReason::MemoryLimit(_) => true,
        _ => false,
    }
}

/// An iteration that begins with a limit hit runs no hooks, searches no rules,
/// applies none and leaves the scheduler alone. That limit is its reason to stop.
pub proof fn law_limit_at_start_skips_everything<G: EGraph, S: RewriteScheduler<G>, H, D>(
    moments: Moments<G, S, H, D>,
    calls: Calls<G, S, H, D>,
    rewrites: Seq<Rewrite<G::Rule>>,
    before: Runner<G, S, H, D>,
    after: Runner<G, S, H, D>,
    record: Iteration<D>,
)
    requires
        moments.explain(calls, rewrites, before, after, record),
        moments.begin_result is Err,
    ensures
        is_limit(moments.begin_result->Err_0),
        record.stop_reason == Some(moments.begin_result->Err_0),
        count_entries(record.applied).len() == 0,
        moments.applied.egraph == before.egraph,
        after.hooks == before.hooks,
        after.scheduler == before.scheduler,
{
}

/// A hook's error is the iteration's reason to stop, and no rule is searched or
/// applied behind it.
pub proof fn law_hook_error_stops<G: EGraph, S: RewriteScheduler<G>, H, D>(
    moments: Moments<G, S, H, D>,
    calls: Calls<G, S, H, D>,
    rewrites: Seq<Rewrite<G::Rule>>,
    before: Runner<G, S, H, D>,
    after: Runner<G, S, H, D>,
    record: Iteration<D>,
)
    requires
        moments.explain(calls, rewrites, before, after, record),
        moments.begin_result is Ok,
        moments.hook_result is Err,
    ensures
        moments.hook_result->Err_0 is Other,
        record.stop_reason == Some(moments.hook_result->Err_0),
        count_entries(record.applied).len() == 0,
        moments.applied.egraph == moments.hooked.egraph,
        after.scheduler == moments.hooked.scheduler,
{
}

/// The first reason to stop is the one that is recorded: nothing that comes after
/// it in the same iteration takes its place.
pub proof fn law_first_reason_counts<G: EGraph, S: RewriteScheduler<G>, H, D>(
    moments: Moments<G, S, H, D>,
    calls: Calls<G, S, H, D>,
    rewrites: Seq<Rewrite<G::Rule>>,
    before: Runner<G, S, H, D>,
    after: Runner<G, S, H, D>,
    record: Iteration<D>,
)
    requires
        moments.explain(calls, rewrites, before, after, record),
    ensures
        moments.begin_result matches Err(reason) ==> record.stop_reason == Some(reason),
        moments.hook_result matches Err(reason) ==> record.stop_reason == Some(reason),
        moments.search_result matches Err(reason) ==> record.stop_reason == Some(reason),
        moments.apply_result matches Err(reason) ==> record.stop_reason == Some(reason),
        moments.search_result is Err ==> count_entries(record.applied).len() == 0,
{
}

/// An iteration in which nothing said to stop ends a run as saturated only if no
/// rule was newly applied and the e-graph has kept its size throughout. Any other
/// reason is then a limit.
pub proof fn law_saturation<G: EGraph, S: RewriteScheduler<G>, H, D>(
    moments: Moments<G, S, H, D>,
    calls: Calls<G, S, H, D>,
    rewrites: Seq<Rewrite<G::Rule>>,
    before: Runner<G, S, H, D>,
    after: Runner<G, S, H, D>,
    record: Iteration<D>,
)
    requires
        moments.explain(calls, rewrites, before, after, record),
        moments.apply_result is Ok,
        record.stop_reason is Some,
    ensures
        record.stop_reason->0 is Saturated || is_limit(record.stop_reason->0),
        record.stop_reason->0 is Saturated ==> {
            &&& count_entries(record.applied).len() == 0
            &&& moments.after_hooks == moments.at_start
            &&& moments.at_end == moments.at_start
            &&& (calls.can_stop)(
                before.iterations.len(),
                moments.applied.scheduler,
                after.scheduler,
                true,
            )
        },
{
}

/// An iteration gives no reason to stop only if something may still be learned: a
/// rule was newly applied, the e-graph has changed its size, or the scheduler
/// refuses to stop.
pub proof fn law_run_goes_on_only_for_more<G: EGraph, S: RewriteScheduler<G>, H, D>(
    moments: Moments<G, S, H, D>,
    calls: Calls<G, S, H, D>,
    rewrites: Seq<Rewrite<G::Rule>>,
    before: Runner<G, S, H, D>,
    after: Runner<G, S, H, D>,
    record: Iteration<D>,
)
    requires
        moments.explain(calls, rewrites, before, after, record),
        record.stop_reason is None,
    ensures
        moments.apply_result is Ok,
        ({
            ||| count_entries(record.applied).len() > 0
            ||| moments.after_hooks != moments.at_start
            ||| moments.at_end != moments.at_start
            ||| (calls.can_stop)(
                before.iterations.len(),
                moments.applied.scheduler,
                after.scheduler,
                false,
            )
        }),
{
}

/// The scheduler is asked whether the run may stop only where nothing said to stop,
/// the last limit check among it, no rule was newly applied and the e-graph has kept
/// its size throughout. Otherwise the end of an iteration leaves it alone.
pub proof fn law_scheduler_is_asked_last<G: EGraph, S: RewriteScheduler<G>, H, D>(
    moments: Moments<G, S, H, D>,
    calls: Calls<G, S, H, D>,
    rewrites: Seq<Rewrite<G::Rule>>,
    before: Runner<G, S, H, D>,
    after: Runner<G, S, H, D>,
    record: Iteration<D>,
)
    requires
        moments.explain(calls, rewrites, before, after, record),
        ({
            ||| moments.apply_result is Err
            ||| moments.final_check is Err
            ||| count_entries(record.applied).len() > 0
            ||| moments.after_hooks != moments.at_start
            ||| moments.at_end != moments.at_start
        }),
    ensures
        after.scheduler == moments.applied.scheduler,
{
}

/// Hooks leave the snapshot as it is.
pub open spec fn hooks_keep_snapshot<G: EGraph, S, H, D>(calls: Calls<G, S, H, D>) -> bool {
    forall|
        hook: H,
        runner: Runner<G, S, H, D>,
        hook_after: H,
        runner_after: Runner<G, S, H, D>,
        outcome: Result<(), String>,
    | #[trigger]
        (calls.hook)(hook, runner, hook_after, runner_after, outcome)
            ==> runner_after.scheduler_snapshot == runner.scheduler_snapshot
}

/// The snapshot that an iteration leaves shows the scheduler from before the
/// iteration's hooks and search, as long as no hook overwrites it.
pub proof fn law_snapshot_precedes_search<G: EGraph, S: RewriteScheduler<G>, H, D>(
    moments: Moments<G, S, H, D>,
    calls: Calls<G, S, H, D>,
    rewrites: Seq<Rewrite<G::Rule>>,
    before: Runner<G, S, H, D>,
    after: Runner<G, S, H, D>,
    record: Iteration<D>,
)
    requires
        moments.explain(calls, rewrites, before, after, record),
        before.hooks@.len() == 0 || hooks_keep_snapshot(calls),
    ensures
        snapshot_taken(
            before.iterations.len(),
            rewrites.map_values(|rewrite: Rewrite<G::Rule>| rewrite.name),
            before.scheduler,
            after.scheduler_snapshot,
        ),
{
    if before.hooks@.len() > 0 && moments.begin_result is Ok {
        let trace = hook_trace(moments, calls);
        lemma_hooks_keep_snapshot(calls, trace, before.hooks@, trace.outcomes.len() as int);
    }
}

/// One hook after the other leaves the snapshot as it is, where each hook does.
proof fn lemma_hooks_keep_snapshot<G: EGraph, S, H, D>(
    calls: Calls<G, S, H, D>,
    trace: HookTrace<G, S, H, D>,
    hooks: Seq<H>,
    n: int,
)
    requires
        hooks_keep_snapshot(calls),
        trace.follows(calls.hook, hooks),
        0 <= n <= trace.outcomes.len(),
    ensures
        trace.runners[n].scheduler_snapshot == trace.runners[0].scheduler_snapshot,
    decreases n,
{
    if n > 0 {
        lemma_hooks_keep_snapshot(calls, trace, hooks, n - 1);
        let outcome = trace.outcomes[n - 1];
    }
}

/// How the hooks of an iteration ran.
pub open spec fn hook_trace<G: EGraph, S, H, D>(
    moments: Moments<G, S, H, D>,
    calls: Calls<G, S, H, D>,
) -> HookTrace<G, S, H, D> {
    choose|trace: HookTrace<G, S, H, D>|
        {
            &&& #[trigger] trace.follows(calls.hook, moments.hook_from.hooks@)
            &&& trace.runners.first().same_but_hooks(moments.hook_from)
            &&& trace.runners.first().hooks@.len() == 0
            &&& moments.hooked.same_but_hooks(trace.runners.last())
            &&& moments.hooked.hooks@ == trace.hooks + moments.hook_from.hooks@.skip(
                trace.hooks.len() as int,
            )
            &&& moments.hook_result == trace.result()
            &&& moments.hook_result is Ok ==> trace.outcomes.len() == moments.hook_from.hooks@.len()
        }
}

/// How a search of rewrites in turn went.
pub open spec fn search_trace<S, G: EGraph>(
    step: spec_fn(S, Rewrite<G::Rule>, S, Seq<SearchMatches<G::Subst>>) -> bool,
    before: S,
    limits_before: LimitsModel<G::Probe>,
    iteration: usize,
    egraph: G,
    rewrites: Seq<Rewrite<G::Rule>>,
    after: S,
    limits_after: LimitsModel<G::Probe>,
    result: RunnerResult<Vec<Vec<SearchMatches<G::Subst>>>>,
) -> SearchTrace<S, G::Subst, G::Probe> {
    choose|trace: SearchTrace<S, G::Subst, G::Probe>|
        {
            &&& #[trigger] trace.follows(step, iteration, egraph, rewrites)
            &&& trace.schedulers.first() == before
            &&& trace.limits.first() == limits_before
            &&& trace.schedulers.last() == after
            &&& trace.limits.last() == limits_after
            &&& match result {
                Ok(matches) => {
                    &&& matches@ == trace.matches
                    &&& trace.matches.len() == rewrites.len()
                    &&& trace.checks.len() > 0 ==> trace.checks.last() is Ok
                },
                Err(reason) => {
                    &&& trace.checks.len() > 0
                    &&& trace.checks.last() == Err::<(), StopReason>(reason)
                },
            }
        }
}

/// A search of all rewrites that succeeds hands on one list of matches for each of
/// them. One that fails was stopped by a limit.
pub proof fn law_search_covers_every_rewrite<S, G: EGraph>(
    search: spec_fn(S, Rewrite<G::Rule>, S, Seq<SearchMatches<G::Subst>>) -> bool,
    before: S,
    limits_before: LimitsModel<G::Probe>,
    iteration: usize,
    egraph: G,
    rewrites: Seq<Rewrite<G::Rule>>,
    after: S,
    limits_after: LimitsModel<G::Probe>,
    result: RunnerResult<Vec<Vec<SearchMatches<G::Subst>>>>,
)
    requires
        searched_in_turn(
            search,
            before,
            limits_before,
            iteration,
            egraph,
            rewrites,
            after,
            limits_after,
            result,
        ),
    ensures
        result matches Ok(matches) ==> matches@.len() == rewrites.len(),
        result matches Err(reason) ==> is_limit(reason) && rewrites.len() > 0,
{
    let trace = search_trace(
        search,
        before,
        limits_before,
        iteration,
        egraph,
        rewrites,
        after,
        limits_after,
        result,
    );
    if result is Err {
        let last = trace.matches[trace.matches.len() - 1];
    }
}

/// Hooks leave the records of past iterations as they are.
pub open spec fn hooks_keep_records<G: EGraph, S, H, D>(calls: Calls<G, S, H, D>) -> bool {
    forall|
        hook: H,
        runner: Runner<G, S, H, D>,
        hook_after: H,
        runner_after: Runner<G, S, H, D>,
        outcome: Result<(), String>,
    | #[trigger]
        (calls.hook)(hook, runner, hook_after, runner_after, outcome) ==> runner_after.iterations
            == runner.iterations
}

/// An iteration leaves the records of past iterations as they are, where hooks do.
proof fn lemma_iteration_keeps_records<
    G: EGraph,
    S: RewriteScheduler<G>,
    H,
    D: IterationData<G, S, H>,
>(
    calls: Calls<G, S, H, D>,
    rewrites: Seq<Rewrite<G::Rule>>,
    before: Runner<G, S, H, D>,
    after: Runner<G, S, H, D>,
    record: Iteration<D>,
)
    requires
        hooks_keep_records(calls),
        iterated(calls, rewrites, before, after, record),
    ensures
        after.iterations == before.iterations,
{
    let moments = choose|moments: Moments<G, S, H, D>| #[trigger]
        moments.explain(calls, rewrites, before, after, record);
    if moments.begin_result is Ok {
        let trace = hook_trace(moments, calls);
        lemma_hooks_keep_records(
            calls,
            trace,
            moments.hook_from.hooks@,
            trace.outcomes.len() as int,
        );
    }
}

/// One hook after the other leaves the records as they are, where each hook does.
proof fn lemma_hooks_keep_records<G: EGraph, S, H, D>(
    calls: Calls<G, S, H, D>,
    trace: HookTrace<G, S, H, D>,
    hooks: Seq<H>,
    n: int,
)
    requires
        hooks_keep_records(calls),
        trace.follows(calls.hook, hooks),
        0 <= n <= trace.outcomes.len(),
    ensures
        trace.runners[n].iterations == trace.runners[0].iterations,
    decreases n,
{
    if n > 0 {
        lemma_hooks_keep_records(calls, trace, hooks, n - 1);
        let outcome = trace.outcomes[n - 1];
    }
}

/// The records that a run keeps.
pub open spec fn kept_records<G: EGraph, S, H, D>(trace: RunTrace<G, S, H, D>) -> Seq<
    Iteration<D>,
> {
    Seq::new(trace.records.len(), |j: int| stamped(trace.records[j], trace.stops[j]))
}

/// The records of a run so far.
pub proof fn lemma_records_so_far<
    G: EGraph,
    S: RewriteScheduler<G>,
    H,
    D: IterationData<G, S, H>,
>(
    calls: Calls<G, S, H, D>,
    rewrites: Seq<Rewrite<G::Rule>>,
    trace: RunTrace<G, S, H, D>,
    n: int,
)
    requires
        hooks_keep_records(calls),
        trace.follows(calls, rewrites),
        0 <= n <= trace.records.len(),
    ensures
        trace.runners[n].iterations@ == trace.runners[0].iterations@ + kept_records(trace).take(n),
    decreases n,
{
    if n > 0 {
        lemma_records_so_far(calls, rewrites, trace, n - 1);
        let before = trace.runners[n - 1];
        let record = trace.records[n - 1];
        let after = trace.runners[n];
        assert(stepped(calls, rewrites, before, record, after, trace.stops[n - 1]));
        let ran = choose|ran: Runner<G, S, H, D>|
            {
                &&& #[trigger] iterated(calls, rewrites, before, ran, record)
                &&& after.iterations@ == ran.iterations@.push(stamped(record, trace.stops[n - 1]))
                &&& after == (Runner {
                    iterations: after.iterations,
                    limits: after.limits,
                    ..ran
                })
            };
        lemma_iteration_keeps_records(calls, rewrites, before, ran, record);
        let kept = kept_records(trace);
        assert(kept.take(n) =~= kept.take(n - 1).push(stamped(record, trace.stops[n - 1])));
        assert(trace.runners[n].iterations@ =~= trace.runners[0].iterations@ + kept.take(n));
    } else {
        assert(trace.runners[0].iterations@ =~= trace.runners[0].iterations@
            + kept_records(trace).take(0));
    }
}

/// `records` are the records of a run that stopped for this reason: there is at
/// least one, the last holds the reason, and no other holds any.
pub open spec fn closed_by<D>(records: Seq<Iteration<D>>, reason: Option<StopReason>) -> bool {
    &&& records.len() > 0
    &&& forall|j: int| 0 <= j < records.len() - 1 ==> (#[trigger] records[j]).stop_reason is None
    &&& reason is Some
    &&& records.last().stop_reason == reason
}

/// A run puts a record for each iteration behind the records that there were, as
/// long as no hook meddles with them. It has at least one iteration. The record of
/// the last one, on which the run stopped, holds the reason, and no other holds any.
pub proof fn law_run_appends_records<
    G: EGraph,
    S: RewriteScheduler<G>,
    H,
    D: IterationData<G, S, H>,
>(
    calls: Calls<G, S, H, D>,
    rewrites: Seq<Rewrite<G::Rule>>,
    before: Runner<G, S, H, D>,
    after: Runner<G, S, H, D>,
)
    requires
        hooks_keep_records(calls),
        ran(calls, rewrites, before, after),
    ensures
        exists|records: Seq<Iteration<D>>|
            after.iterations@ == before.iterations@ + records && #[trigger] closed_by(
                records,
                after.stop_reason,
            ),
{
    let trace = choose|trace: RunTrace<G, S, H, D>|
        {
            &&& #[trigger] trace.follows(calls, rewrites)
            &&& rebuilt(calls, before, trace.runners.first())
            &&& trace.stops.len() > 0
            &&& trace.stops.last() is Some
            &&& finished(trace.runners.last(), trace.stops.last(), after)
        };
    let n = trace.records.len() as int;
    let kept = kept_records(trace);
    lemma_records_so_far(calls, rewrites, trace, n);
    assert(kept.take(n) =~= kept);
    assert forall|j: int| 0 <= j < n - 1 implies (#[trigger] kept[j]).stop_reason is None by {
        assert(trace.stops[j] is None);
    }
    assert(closed_by(kept, after.stop_reason));
}

} // verus!
