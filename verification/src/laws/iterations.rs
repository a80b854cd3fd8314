//! What one iteration does to a runner, from its first reading of the clock to its last.

use vstd::prelude::*;
use crate::egraph::{EGraph, Rewrite, SearchMatches};
use crate::iteration::{ending, nothing_new, Calls, Moments};
use crate::laws::checking::law_boundary_check;
use crate::laws::steps::{
    begins_with_check, ends_with_check, first_reason, hooks_took_their_turns, is_quiet,
    is_time_between, lemma_begins, lemma_hooks_in_order, lemma_rules_in_order, only_clock_read,
    pictures, rules_took_their_turns,
};
use crate::limits::{LimitsModel, RunnerLimits, RunnerResult, StopReason};
use crate::maps::count_entries;
use crate::memory::MemorySamplePhase;
use crate::report::Iteration;
use crate::runner::{Hook, IterationData, Runner};
use crate::scheduler::RewriteScheduler;

verus! {

/// An iteration starts from the runner as it was: the clock is read, the limits are
/// checked, and the scheduler is pictured for the iteration whose number is the number of
/// records so far.
pub proof fn law_iteration_begins<G: EGraph, S: RewriteScheduler<G>, H, D>(
    moments: Moments<G, S, H, D>,
    calls: Calls<G, S, H, D>,
    rewrites: Seq<Rewrite<G::Rule>>,
    before: Runner<G, S, H, D>,
    after: Runner<G, S, H, D>,
    record: Iteration<D>,
)
    requires
        moments.explain(calls, rewrites, before, after, record),
    ensures
        only_clock_read(before, moments.readings.start, moments.opened),
        begins_with_check(
            moments.opened.limits@,
            before.iterations.len(),
            before.egraph,
            moments.begun.limits@,
            moments.begin_result,
        ),
        pictures(
            before.scheduler,
            before.iterations.len(),
            rewrites,
            moments.begun.scheduler_snapshot,
        ),
        moments.begun.egraph == before.egraph,
        moments.begun.iterations == before.iterations,
        moments.begun.roots == before.roots,
        moments.begun.stop_reason == before.stop_reason,
        moments.begun.hooks == before.hooks,
        moments.begun.scheduler == before.scheduler,
{
    lemma_begins(
        before.iterations.len(),
        rewrites,
        moments.opened,
        moments.begun,
        moments.begin_result,
    );
}

/// The hooks of an iteration take their turns on the runner with which the iteration
/// began. Where a limit was hit at the start, they do not.
pub proof fn law_iteration_runs_hooks<G: EGraph, S: RewriteScheduler<G>, H, D>(
    moments: Moments<G, S, H, D>,
    calls: Calls<G, S, H, D>,
    rewrites: Seq<Rewrite<G::Rule>>,
    before: Runner<G, S, H, D>,
    after: Runner<G, S, H, D>,
    record: Iteration<D>,
)
    requires
        moments.explain(calls, rewrites, before, after, record),
    ensures
        only_clock_read(moments.begun, moments.readings.hook_start, moments.hook_from),
        moments.begin_result is Ok ==> hooks_took_their_turns(
            calls.hook,
            moments.hook_from,
            moments.hooked,
            moments.hook_result,
        ),
        moments.begin_result is Err ==> moments.hooked == moments.hook_from && moments.hook_result
            == moments.begin_result,
        only_clock_read(moments.hooked, moments.readings.hook_end, moments.hook_to),
{
    lemma_hooks_in_order(
        calls.hook,
        moments.hook_from,
        moments.begin_result,
        moments.hooked,
        moments.hook_result,
    );
}

/// The search of an iteration whose hooks let it go on is the scheduler's search for that
/// very iteration: its number is the number of records so far, and the same number was
/// given to the scheduler for the snapshot. It is of the e-graph that the hooks left.
/// Without leave of the hooks nothing is searched, and the reason stays.
pub proof fn law_iteration_searches<G: EGraph, S: RewriteScheduler<G>, H, D>(
    moments: Moments<G, S, H, D>,
    calls: Calls<G, S, H, D>,
    rewrites: Seq<Rewrite<G::Rule>>,
    before: Runner<G, S, H, D>,
    after: Runner<G, S, H, D>,
    record: Iteration<D>,
)
    requires
        moments.explain(calls, rewrites, before, after, record),
    ensures
        only_clock_read(moments.hook_to, moments.readings.search_start, moments.search_from),
        moments.search_from.egraph == moments.hooked.egraph,
        moments.search_from.scheduler == moments.hooked.scheduler,
        moments.hook_result is Ok ==> (calls.search)(
            before.iterations.len(),
            moments.search_from.scheduler,
            moments.search_from.limits@,
            moments.search_from.egraph,
            moments.searched.scheduler,
            moments.searched.limits@,
            moments.search_result,
        ),
        pictures(
            before.scheduler,
            before.iterations.len(),
            rewrites,
            moments.begun.scheduler_snapshot,
        ),
        moments.hook_result matches Err(reason) ==> {
            &&& moments.search_result == Err::<Vec<Vec<SearchMatches<G::Subst>>>, _>(reason)
            &&& moments.searched == moments.search_from
        },
        moments.searched.egraph == moments.hooked.egraph,
        moments.searched.iterations == moments.hooked.iterations,
        moments.searched.roots == moments.hooked.roots,
        moments.searched.stop_reason == moments.hooked.stop_reason,
        moments.searched.scheduler_snapshot == moments.hooked.scheduler_snapshot,
        moments.searched.hooks == moments.hooked.hooks,
        only_clock_read(moments.searched, moments.readings.search_end, moments.search_to),
{
    lemma_begins(
        before.iterations.len(),
        rewrites,
        moments.opened,
        moments.begun,
        moments.begin_result,
    );
}

/// The applications of an iteration take their turns with what the search handed on: the
/// `j`-th is of the `j`-th rewrite at exactly the `j`-th list of matches, on the e-graph
/// that the one before it left. Without leave of the search nothing is applied, and the
/// reason stays.
pub proof fn law_iteration_applies<G: EGraph, S: RewriteScheduler<G>, H, D>(
    moments: Moments<G, S, H, D>,
    calls: Calls<G, S, H, D>,
    rewrites: Seq<Rewrite<G::Rule>>,
    before: Runner<G, S, H, D>,
    after: Runner<G, S, H, D>,
    record: Iteration<D>,
)
    requires
        moments.explain(calls, rewrites, before, after, record),
    ensures
        only_clock_read(moments.search_to, moments.readings.apply_start, moments.apply_from),
        moments.apply_from.egraph == moments.hooked.egraph,
        moments.apply_from.scheduler == moments.searched.scheduler,
        moments.search_result matches Ok(matches) ==> rules_took_their_turns(
            calls.apply,
            before.iterations.len(),
            rewrites,
            matches@,
            moments.apply_from,
            moments.applied,
            count_entries(record.applied),
            moments.apply_result,
        ),
        moments.search_result matches Err(reason) ==> {
            &&& moments.applied == moments.apply_from
            &&& count_entries(record.applied).len() == 0
            &&& moments.apply_result == Err::<(), _>(reason)
        },
        moments.applied.iterations == moments.hooked.iterations,
        moments.applied.roots == moments.hooked.roots,
        moments.applied.stop_reason == moments.hooked.stop_reason,
        moments.applied.scheduler_snapshot == moments.hooked.scheduler_snapshot,
        moments.applied.hooks == moments.hooked.hooks,
        only_clock_read(moments.applied, moments.readings.apply_end, moments.apply_to),
{
    lemma_rules_in_order(
        calls.apply,
        before.iterations.len(),
        rewrites,
        moments.apply_from,
        moments.search_result,
        moments.applied,
        count_entries(record.applied),
        moments.apply_result,
    );
}

/// Whatever stopped an iteration, or if nothing did, the e-graph that it leaves comes by
/// one rebuild from the e-graph that its applications left. The record holds the number
/// that this rebuild returned.
pub proof fn law_iteration_rebuilds<G: EGraph, S: RewriteScheduler<G>, H, D>(
    moments: Moments<G, S, H, D>,
    calls: Calls<G, S, H, D>,
    rewrites: Seq<Rewrite<G::Rule>>,
    before: Runner<G, S, H, D>,
    after: Runner<G, S, H, D>,
    record: Iteration<D>,
)
    requires
        moments.explain(calls, rewrites, before, after, record),
    ensures
        (calls.rebuild)(moments.applied.egraph, after.egraph, record.n_rebuilds),
        only_clock_read(moments.apply_to, moments.readings.rebuild_start, moments.rebuild_from),
        moments.rebuilt.limits@ == moments.rebuild_from.limits@,
        only_clock_read(moments.rebuilt, moments.readings.rebuild_end, moments.rebuild_to),
{
}

/// An iteration ends with a limit check of the rebuilt e-graph. Where nothing has
/// happened in the iteration, the scheduler is asked whether the run may stop, for this
/// very iteration, and the run has saturated if it may. Otherwise the first reason to stop
/// counts, and the scheduler is as the applications left it.
pub proof fn law_iteration_ends<G: EGraph, S: RewriteScheduler<G>, H, D>(
    moments: Moments<G, S, H, D>,
    calls: Calls<G, S, H, D>,
    rewrites: Seq<Rewrite<G::Rule>>,
    before: Runner<G, S, H, D>,
    after: Runner<G, S, H, D>,
    record: Iteration<D>,
)
    requires
        moments.explain(calls, rewrites, before, after, record),
    ensures
        ends_with_check(
            moments.rebuild_to.limits@,
            before.iterations.len(),
            after.egraph,
            moments.ended.limits@,
            moments.final_check,
        ),
        call_ensures(G::total_size, (&after.egraph,), moments.at_end.nodes),
        call_ensures(G::number_of_classes, (&after.egraph,), moments.at_end.classes),
        call_ensures(G::total_size, (&moments.hooked.egraph,), moments.after_hooks.nodes),
        call_ensures(G::number_of_classes, (&moments.hooked.egraph,), moments.after_hooks.classes),
        is_quiet(
            moments.apply_result,
            moments.final_check,
            count_entries(record.applied),
            moments.at_start,
            moments.after_hooks,
            moments.at_end,
        ) ==> {
            &&& record.stop_reason is None || record.stop_reason == Some(StopReason::Saturated)
            &&& (calls.can_stop)(
                before.iterations.len(),
                moments.applied.scheduler,
                after.scheduler,
                record.stop_reason is Some,
            )
        },
        !is_quiet(
            moments.apply_result,
            moments.final_check,
            count_entries(record.applied),
            moments.at_start,
            moments.after_hooks,
            moments.at_end,
        ) ==> {
            &&& after.scheduler == moments.applied.scheduler
            &&& first_reason(moments.apply_result, moments.final_check, record.stop_reason)
        },
        only_clock_read(moments.ended, moments.readings.end, after),
        after.iterations == moments.hooked.iterations,
        after.roots == moments.hooked.roots,
        after.stop_reason == moments.hooked.stop_reason,
        after.scheduler_snapshot == moments.hooked.scheduler_snapshot,
        after.hooks == moments.hooked.hooks,
{
    let seen = law_boundary_check(
        moments.rebuild_to.limits@,
        before.iterations.len(),
        moments.ended.egraph,
        MemorySamplePhase::AfterRebuildFinalization,
        None,
        moments.ended.limits@,
        moments.final_check,
    );
    assert(nothing_new(
        ending(moments.apply_result, moments.final_check),
        count_entries(record.applied),
        moments.at_start,
        moments.after_hooks,
        moments.at_end,
    ) <==> is_quiet(
        moments.apply_result,
        moments.final_check,
        count_entries(record.applied),
        moments.at_start,
        moments.after_hooks,
        moments.at_end,
    ));
}

/// The record of an iteration holds the size that the e-graph reports before the
/// iteration, and the times between the iteration's own readings of the clock.
pub proof fn law_iteration_is_recorded<G: EGraph, S: RewriteScheduler<G>, H, D>(
    moments: Moments<G, S, H, D>,
    calls: Calls<G, S, H, D>,
    rewrites: Seq<Rewrite<G::Rule>>,
    before: Runner<G, S, H, D>,
    after: Runner<G, S, H, D>,
    record: Iteration<D>,
)
    requires
        moments.explain(calls, rewrites, before, after, record),
    ensures
        call_ensures(G::total_size, (&before.egraph,), record.egraph_nodes),
        call_ensures(G::number_of_classes, (&before.egraph,), record.egraph_classes),
        record.egraph_nodes == moments.at_start.nodes,
        record.egraph_classes == moments.at_start.classes,
        is_time_between(moments.readings.hook_start, moments.readings.hook_end, record.hook_time),
        is_time_between(
            moments.readings.search_start,
            moments.readings.search_end,
            record.search_time,
        ),
        is_time_between(
            moments.readings.apply_start,
            moments.readings.apply_end,
            record.apply_time,
        ),
        is_time_between(
            moments.readings.rebuild_start,
            moments.readings.rebuild_end,
            record.rebuild_time,
        ),
        is_time_between(moments.readings.start, moments.readings.end, record.total_time),
{
}

/// Running one iteration is such an iteration. Its calls are those of the runner's own
/// hooks, scheduler and e-graph, and its data is made of the runner as it is at the end,
/// before the clock is read for the last time.
pub proof fn law_run_one_is_an_iteration<
    G: EGraph,
    S: RewriteScheduler<G>,
    H: Hook<G, S, D>,
    D: IterationData<G, S, H>,
>(runner: &mut Runner<G, S, H, D>, rules: &[Rewrite<G::Rule>], record: Iteration<D>)
    requires
        call_ensures(Runner::<G, S, H, D>::run_one, (runner, rules), record),
    ensures
        exists|moments: Moments<G, S, H, D>| #[trigger]
            call_ensures(D::make, (&moments.ended,), record.data) && moments.explain(
                Calls {
                    hook: |
                        hook: H,
                        seen: Runner<G, S, H, D>,
                        hook_after: H,
                        left: Runner<G, S, H, D>,
                        outcome: Result<(), String>,
                    |
                        exists|h: &mut H, m: &mut Runner<G, S, H, D>|
                            *h == hook && *final(h) == hook_after && *m == seen && *final(m)
                                == left && #[trigger] call_ensures(H::call, (h, m), outcome),
                    search: |
                        iteration: usize,
                        scheduler: S,
                        limits: LimitsModel<G::Probe>,
                        egraph: G,
                        scheduler_after: S,
                        limits_after: LimitsModel<G::Probe>,
                        result: RunnerResult<Vec<Vec<SearchMatches<G::Subst>>>>,
                    |
                        exists|s: &mut S, l: &mut RunnerLimits<G::Probe>|
                            *s == scheduler && *final(s) == scheduler_after && l@ == limits
                                && final(l)@ == limits_after && #[trigger] call_ensures(
                                S::search_rewrites,
                                (s, iteration, &egraph, rules, l),
                                result,
                            ),
                    apply: |
                        iteration: usize,
                        scheduler: S,
                        egraph: G,
                        rewrite: Rewrite<G::Rule>,
                        matches: Vec<SearchMatches<G::Subst>>,
                        scheduler_after: S,
                        egraph_after: G,
                        count: usize,
                    |
                        exists|s: &mut S, g: &mut G|
                            *s == scheduler && *final(s) == scheduler_after && *g == egraph
                                && *final(g) == egraph_after && #[trigger] call_ensures(
                                S::apply_rewrite,
                                (s, iteration, g, &rewrite, matches),
                                count,
                            ),
                    rebuild: |egraph: G, egraph_after: G, n: usize|
                        exists|g: &mut G|
                            *g == egraph && *final(g) == egraph_after && #[trigger] call_ensures(
                                G::rebuild,
                                (g,),
                                n,
                            ),
                    can_stop: |iteration: usize, scheduler: S, scheduler_after: S, stop: bool|
                        exists|s: &mut S|
                            *s == scheduler && *final(s) == scheduler_after
                                && #[trigger] call_ensures(S::can_stop, (s, iteration), stop),
                },
                rules@,
                *old(runner),
                *final(runner),
                record,
            ),
{
}

/// Whatever happens in an iteration, the runner that it leaves has an e-graph fresh from
/// a rebuild that returned the number on record, and the record holds figures that the
/// e-graph reports before the iteration.
pub proof fn law_run_one_rebuilds_and_records<
    G: EGraph,
    S: RewriteScheduler<G>,
    H: Hook<G, S, D>,
    D: IterationData<G, S, H>,
>(runner: &mut Runner<G, S, H, D>, rules: &[Rewrite<G::Rule>], record: Iteration<D>)
    requires
        call_ensures(Runner::<G, S, H, D>::run_one, (runner, rules), record),
    ensures
        exists|g: &mut G|
            *final(g) == final(runner).egraph && #[trigger] call_ensures(
                G::rebuild,
                (g,),
                record.n_rebuilds,
            ),
        call_ensures(G::total_size, (&old(runner).egraph,), record.egraph_nodes),
        call_ensures(G::number_of_classes, (&old(runner).egraph,), record.egraph_classes),
{
}

} // verus!
