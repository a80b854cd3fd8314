//! What the backoff scheduler does in the iterations of a run.

use vstd::prelude::*;
use crate::backoff::{doubled, BackoffScheduler};
use crate::egraph::{EGraph, Rewrite, SearchMatches, Symbol};
use crate::iteration::{Calls, Moments};
use crate::laws::iterations::{
    law_iteration_applies, law_iteration_begins, law_iteration_ends, law_iteration_runs_hooks,
    law_iteration_searches,
};
use crate::laws::scheduling::{is_state, law_backoff_snapshot_is_exact};
use crate::laws::searching::{
    banned_or_used, checked_in_turn, distinct_names, law_backoff_search_rewrites,
    skipped_or_searched,
};
use crate::laws::steps::{applied_in_order, lists_applications, rules_took_their_turns};
use crate::limits::{LimitsModel, RunnerLimits, RunnerResult};
use crate::maps::{count_entries, distinct_keys};
use crate::memory::MemorySamplePhase;
use crate::report::Iteration;
use crate::runner::{Hook, IterationData, Runner};
use crate::scheduler::{RewriteScheduler, Scheduler};
use crate::snapshot::SchedulerRuleState;
use crate::sums::capped;

verus! {

/// What an iteration did with a rule that its snapshot lists: it searched the rule if and
/// only if the snapshot says so, up to one more than the listed threshold. What was found
/// was handed on, or got the rule banned, from this very iteration on for its ban length.
pub open spec fn as_foretold<G: EGraph>(
    before: BackoffScheduler,
    iteration: usize,
    egraph: G,
    rewrite: Rewrite<G::Rule>,
    listed: SchedulerRuleState,
    handed: Seq<SearchMatches<G::Subst>>,
    after: BackoffScheduler,
) -> bool {
    let rule = before@.rule(rewrite.name@);
    let left = after@.rule(rewrite.name@);
    &&& listed.name == rewrite.name
    &&& listed.will_search ==> exists|found: Vec<SearchMatches<G::Subst>>| #[trigger]
        call_ensures(
            G::search_with_limit,
            (&egraph, &rewrite.rule, capped(listed.match_limit + 1)),
            found,
        ) && banned_or_used(rule, iteration, found@, handed, left)
    &&& !listed.will_search ==> handed.len() == 0 && left == rule && listed.ban_remaining
        == rule.banned_until - iteration
}

/// A search by the backoff scheduler does with each rule what a snapshot taken just
/// before it, for the same iteration, lists.
proof fn lemma_as_foretold<G: EGraph>(
    before: BackoffScheduler,
    iteration: usize,
    egraph: G,
    rewrite: Rewrite<G::Rule>,
    listed: SchedulerRuleState,
    handed: Seq<SearchMatches<G::Subst>>,
    after: BackoffScheduler,
)
    requires
        is_state(before@.rule(rewrite.name@), iteration, rewrite.name, listed),
        skipped_or_searched(
            before@.rule(rewrite.name@),
            iteration,
            egraph,
            rewrite,
            handed,
            after@.rule(rewrite.name@),
        ),
    ensures
        as_foretold(before, iteration, egraph, rewrite, listed, handed, after),
{
    let rule = before@.rule(rewrite.name@);
    assert(listed.match_limit == doubled(rule.match_limit, rule.times_banned));
}

/// In an iteration whose hooks leave the backoff scheduler alone and let the iteration go
/// on, the rules are searched and skipped as the iteration's snapshot lists them, and a
/// ban that is issued in the iteration ends its length behind the iteration.
pub proof fn law_backoff_iteration_is_as_foretold<G: EGraph, H, D>(
    moments: Moments<G, BackoffScheduler, H, D>,
    calls: Calls<G, BackoffScheduler, H, D>,
    rules: &[Rewrite<G::Rule>],
    before: Runner<G, BackoffScheduler, H, D>,
    after: Runner<G, BackoffScheduler, H, D>,
    record: Iteration<D>,
)
    requires
        moments.explain(
            Calls {
                search: |
                    iteration: usize,
                    scheduler: BackoffScheduler,
                    limits: LimitsModel<G::Probe>,
                    egraph: G,
                    scheduler_after: BackoffScheduler,
                    limits_after: LimitsModel<G::Probe>,
                    result: RunnerResult<Vec<Vec<SearchMatches<G::Subst>>>>,
                |
                    exists|s: &mut BackoffScheduler, l: &mut RunnerLimits<G::Probe>|
                        *s == scheduler && *final(s) == scheduler_after && l@ == limits
                            && final(l)@ == limits_after && #[trigger] call_ensures(
                            <BackoffScheduler as RewriteScheduler<G>>::search_rewrites,
                            (s, iteration, &egraph, rules, l),
                            result,
                        ),
                ..calls
            },
            rules@,
            before,
            after,
            record,
        ),
        distinct_names(rules@),
        distinct_keys(before.scheduler@.stats),
        moments.hooked.scheduler == before.scheduler,
        moments.hook_result is Ok,
        moments.search_result is Ok,
    ensures
        moments.begun.scheduler_snapshot.rules@.len() == rules@.len(),
        moments.search_result->Ok_0@.len() == rules@.len(),
        forall|j: int|
            0 <= j < rules@.len() ==> as_foretold(
                before.scheduler,
                before.iterations.len(),
                moments.hooked.egraph,
                #[trigger] rules@[j],
                moments.begun.scheduler_snapshot.rules@[j],
                moments.search_result->Ok_0@[j]@,
                moments.searched.scheduler,
            ),
{
    let own = Calls::<G, BackoffScheduler, H, D> {
        search: |
            iteration: usize,
            scheduler: BackoffScheduler,
            limits: LimitsModel<G::Probe>,
            egraph: G,
            scheduler_after: BackoffScheduler,
            limits_after: LimitsModel<G::Probe>,
            result: RunnerResult<Vec<Vec<SearchMatches<G::Subst>>>>,
        |
            exists|s: &mut BackoffScheduler, l: &mut RunnerLimits<G::Probe>|
                *s == scheduler && *final(s) == scheduler_after && l@ == limits && final(l)@
                    == limits_after && #[trigger] call_ensures(
                    <BackoffScheduler as RewriteScheduler<G>>::search_rewrites,
                    (s, iteration, &egraph, rules, l),
                    result,
                ),
        ..calls
    };
    let iteration = before.iterations.len();
    law_iteration_begins(moments, own, rules@, before, after, record);
    law_iteration_searches(moments, own, rules@, before, after, record);
    let names = choose|names: &[Symbol]|
        {
            &&& names@.len() == rules@.len()
            &&& forall|j: int| 0 <= j < rules@.len() ==> #[trigger] names@[j] == rules@[j].name
            &&& #[trigger] call_ensures(
                <BackoffScheduler as Scheduler>::snapshot,
                (&before.scheduler, iteration, names),
                moments.begun.scheduler_snapshot,
            )
        };
    law_backoff_snapshot_is_exact(
        before.scheduler,
        iteration,
        names,
        moments.begun.scheduler_snapshot,
    );
    let (s, l) = choose|s: &mut BackoffScheduler, l: &mut RunnerLimits<G::Probe>|
        *s == moments.search_from.scheduler && *final(s) == moments.searched.scheduler && l@
            == moments.search_from.limits@ && final(l)@ == moments.searched.limits@
            && #[trigger] call_ensures(
            <BackoffScheduler as RewriteScheduler<G>>::search_rewrites,
            (s, iteration, &moments.search_from.egraph, rules, l),
            moments.search_result,
        );
    law_backoff_search_rewrites(
        s,
        iteration,
        &moments.search_from.egraph,
        rules,
        l,
        moments.search_result,
    );
    assert forall|j: int| 0 <= j < rules@.len() implies as_foretold(
        before.scheduler,
        iteration,
        moments.hooked.egraph,
        #[trigger] rules@[j],
        moments.begun.scheduler_snapshot.rules@[j],
        moments.search_result->Ok_0@[j]@,
        moments.searched.scheduler,
    ) by {
        assert(names@[j] == rules@[j].name);
        lemma_as_foretold(
            before.scheduler,
            iteration,
            moments.hooked.egraph,
            rules@[j],
            moments.begun.scheduler_snapshot.rules@[j],
            moments.search_result->Ok_0@[j]@,
            moments.searched.scheduler,
        );
    }
}

/// What an iteration did with all the rules that its snapshot lists.
pub open spec fn all_as_foretold<G: EGraph>(
    before: BackoffScheduler,
    iteration: usize,
    egraph: G,
    rewrites: Seq<Rewrite<G::Rule>>,
    listed: Seq<SchedulerRuleState>,
    handed: Seq<Vec<SearchMatches<G::Subst>>>,
    after: BackoffScheduler,
) -> bool {
    &&& listed.len() == rewrites.len()
    &&& handed.len() == rewrites.len()
    &&& forall|j: int|
        0 <= j < rewrites.len() ==> as_foretold(
            before,
            iteration,
            egraph,
            #[trigger] rewrites[j],
            listed[j],
            handed[j]@,
            after,
        )
}

/// Applications by the backoff scheduler leave the scheduler alone.
proof fn lemma_applications_keep_scheduler<G: EGraph>(
    apply: spec_fn(
        usize,
        BackoffScheduler,
        G,
        Rewrite<G::Rule>,
        Vec<SearchMatches<G::Subst>>,
        BackoffScheduler,
        G,
        usize,
    ) -> bool,
    iteration: usize,
    rewrites: Seq<Rewrite<G::Rule>>,
    matches: Seq<Vec<SearchMatches<G::Subst>>>,
    schedulers: Seq<BackoffScheduler>,
    egraphs: Seq<G>,
    counts: Seq<usize>,
    n: int,
)
    requires
        forall|
            at: usize,
            s: BackoffScheduler,
            g: G,
            rewrite: Rewrite<G::Rule>,
            found: Vec<SearchMatches<G::Subst>>,
            s_after: BackoffScheduler,
            g_after: G,
            count: usize,
        | #[trigger]
            apply(at, s, g, rewrite, found, s_after, g_after, count) ==> s_after == s,
        applied_in_order(apply, iteration, rewrites, matches, schedulers, egraphs, counts),
        0 <= n <= counts.len(),
    ensures
        schedulers[n] == schedulers[0],
    decreases n,
{
    if n > 0 {
        lemma_applications_keep_scheduler(
            apply,
            iteration,
            rewrites,
            matches,
            schedulers,
            egraphs,
            counts,
            n - 1,
        );
        let count = counts[n - 1];
    }
}

/// Rules that take their turns with the backoff scheduler leave the scheduler alone.
proof fn lemma_turns_keep_scheduler<G: EGraph, H, D>(
    apply: spec_fn(
        usize,
        BackoffScheduler,
        G,
        Rewrite<G::Rule>,
        Vec<SearchMatches<G::Subst>>,
        BackoffScheduler,
        G,
        usize,
    ) -> bool,
    iteration: usize,
    rewrites: Seq<Rewrite<G::Rule>>,
    matches: Seq<Vec<SearchMatches<G::Subst>>>,
    before: Runner<G, BackoffScheduler, H, D>,
    after: Runner<G, BackoffScheduler, H, D>,
    applied: Seq<(Seq<char>, usize)>,
    result: RunnerResult<()>,
)
    requires
        forall|
            at: usize,
            s: BackoffScheduler,
            g: G,
            rewrite: Rewrite<G::Rule>,
            found: Vec<SearchMatches<G::Subst>>,
            s_after: BackoffScheduler,
            g_after: G,
            count: usize,
        | #[trigger]
            apply(at, s, g, rewrite, found, s_after, g_after, count) ==> s_after == s,
        rules_took_their_turns(
            apply,
            iteration,
            rewrites,
            matches,
            before,
            after,
            applied,
            result,
        ),
    ensures
        after.scheduler == before.scheduler,
{
    let (schedulers, egraphs, counts, trail) = choose|
        schedulers: Seq<BackoffScheduler>,
        egraphs: Seq<G>,
        counts: Seq<usize>,
        trail: Seq<LimitsModel<G::Probe>>,
    |
        {
            &&& #[trigger] applied_in_order(
                apply,
                iteration,
                rewrites,
                matches,
                schedulers,
                egraphs,
                counts,
            )
            &&& schedulers.first() == before.scheduler
            &&& schedulers.last() == after.scheduler
            &&& egraphs.first() == before.egraph
            &&& egraphs.last() == after.egraph
            &&& lists_applications(rewrites, counts, applied)
            &&& #[trigger] checked_in_turn(
                trail,
                iteration,
                egraphs.drop_first(),
                MemorySamplePhase::AfterRuleApplication,
                rewrites,
                result,
            )
            &&& trail.len() == egraphs.len()
            &&& trail.first() == before.limits@
            &&& trail.last() == after.limits@
            &&& result is Ok ==> counts.len() == rewrites.len() || counts.len() == matches.len()
        };
    lemma_applications_keep_scheduler(
        apply,
        iteration,
        rewrites,
        matches,
        schedulers,
        egraphs,
        counts,
        counts.len() as int,
    );
}

/// An iteration without hooks that gives no reason to stop has searched and skipped the
/// rules as the snapshot lists them that it leaves, on the e-graph from before it. Where
/// a rule was newly applied, the scheduler is as the search left it, so that a ban that
/// was issued ends its length behind the iteration.
pub proof fn law_backoff_run_one_is_as_foretold<
    G: EGraph,
    H: Hook<G, BackoffScheduler, D>,
    D: IterationData<G, BackoffScheduler, H>,
>(
    runner: &mut Runner<G, BackoffScheduler, H, D>,
    rules: &[Rewrite<G::Rule>],
    record: Iteration<D>,
)
    requires
        call_ensures(
            Runner::<G, BackoffScheduler, H, D>::run_one,
            (runner, rules),
            record,
        ),
        distinct_names(rules@),
        distinct_keys(old(runner).scheduler@.stats),
        old(runner).hooks@.len() == 0,
        record.stop_reason is None,
    ensures
        exists|handed: Seq<Vec<SearchMatches<G::Subst>>>, searched: BackoffScheduler|
            {
                &&& #[trigger] all_as_foretold(
                    old(runner).scheduler,
                    old(runner).iterations.len(),
                    old(runner).egraph,
                    rules@,
                    final(runner).scheduler_snapshot.rules@,
                    handed,
                    searched,
                )
                &&& count_entries(record.applied).len() > 0 ==> final(runner).scheduler == searched
            },
{
    let calls = Calls::<G, BackoffScheduler, H, D> {
        hook: |
            hook: H,
            seen: Runner<G, BackoffScheduler, H, D>,
            hook_after: H,
            left: Runner<G, BackoffScheduler, H, D>,
            outcome: Result<(), String>,
        |
            exists|h: &mut H, m: &mut Runner<G, BackoffScheduler, H, D>|
                *h == hook && *final(h) == hook_after && *m == seen && *final(m) == left
                    && #[trigger] call_ensures(H::call, (h, m), outcome),
        search: |
            iteration: usize,
            scheduler: BackoffScheduler,
            limits: LimitsModel<G::Probe>,
            egraph: G,
            scheduler_after: BackoffScheduler,
            limits_after: LimitsModel<G::Probe>,
            result: RunnerResult<Vec<Vec<SearchMatches<G::Subst>>>>,
        |
            exists|s: &mut BackoffScheduler, l: &mut RunnerLimits<G::Probe>|
                *s == scheduler && *final(s) == scheduler_after && l@ == limits && final(l)@
                    == limits_after && #[trigger] call_ensures(
                    <BackoffScheduler as RewriteScheduler<G>>::search_rewrites,
                    (s, iteration, &egraph, rules, l),
                    result,
                ),
        apply: |
            iteration: usize,
            scheduler: BackoffScheduler,
            egraph: G,
            rewrite: Rewrite<G::Rule>,
            matches: Vec<SearchMatches<G::Subst>>,
            scheduler_after: BackoffScheduler,
            egraph_after: G,
            count: usize,
        |
            exists|s: &mut BackoffScheduler, g: &mut G|
                *s == scheduler && *final(s) == scheduler_after && *g == egraph && *final(g)
                    == egraph_after && #[trigger] call_ensures(
                    <BackoffScheduler as RewriteScheduler<G>>::apply_rewrite,
                    (s, iteration, g, &rewrite, matches),
                    count,
                ),
        rebuild: |egraph: G, egraph_after: G, n: usize|
            exists|g: &mut G|
                *g == egraph && *final(g) == egraph_after && #[trigger] call_ensures(
                    G::rebuild,
                    (g,),
                    n,
                ),
        can_stop: |
            iteration: usize,
            scheduler: BackoffScheduler,
            scheduler_after: BackoffScheduler,
            stop: bool,
        |
            exists|s: &mut BackoffScheduler|
                *s == scheduler && *final(s) == scheduler_after && #[trigger] call_ensures(
                    <BackoffScheduler as Scheduler>::can_stop,
                    (s, iteration),
                    stop,
                ),
    };
    let before = *old(runner);
    let after = *final(runner);
    let moments = choose|moments: Moments<G, BackoffScheduler, H, D>| #[trigger]
        moments.explain(calls, rules@, before, after, record);
    assert(moments.explain(calls, rules@, before, after, record));
    law_iteration_begins(moments, calls, rules@, before, after, record);
    law_iteration_runs_hooks(moments, calls, rules@, before, after, record);
    law_iteration_searches(moments, calls, rules@, before, after, record);
    law_iteration_applies(moments, calls, rules@, before, after, record);
    law_iteration_ends(moments, calls, rules@, before, after, record);
    law_backoff_iteration_is_as_foretold(moments, calls, rules, before, after, record);
    let handed = moments.search_result->Ok_0@;
    assert(all_as_foretold(
        before.scheduler,
        before.iterations.len(),
        before.egraph,
        rules@,
        after.scheduler_snapshot.rules@,
        handed,
        moments.searched.scheduler,
    ));
    if count_entries(record.applied).len() > 0 {
        lemma_turns_keep_scheduler(
            calls.apply,
            before.iterations.len(),
            rules@,
            handed,
            moments.apply_from,
            moments.applied,
            count_entries(record.applied),
            moments.apply_result,
        );
    }
}

} // verus!
