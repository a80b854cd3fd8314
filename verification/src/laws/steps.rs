//! What each step of an iteration does, call by call.

use indexmap::IndexMap;
use vstd::prelude::*;
use crate::egraph::{EGraph, Probe, Rewrite, SearchMatches, Symbol};
use crate::iteration::{
    ending, hooks_ran, iteration_begun, nothing_new, rules_applied, tally, ApplyTrace, GraphSize,
    HookTrace, IterationEnd, IterationTimes, Readings,
};
use crate::laws::checking::{attributed, law_boundary_check, law_start_check, Seen};
use crate::laws::counting::{applications, law_applications_are_counted_by_name};
use crate::laws::scheduling::is_total;
use crate::laws::searching::{check_at, checked_in_turn, said_at};
use crate::limits::{started, LimitsModel, RunnerLimits, RunnerResult, StopReason};
use crate::maps::{count_entries, distinct_keys, has_key, key_index};
use crate::memory::{IterationMemoryPeak, MemorySamplePhase};
use crate::runner::{Hook, IterationData, Runner};
use crate::scheduler::{RewriteScheduler, Scheduler};
use crate::snapshot::SchedulerSnapshot;
use crate::sums::sum;

verus! {

/// The size of an e-graph is its total size and its number of classes.
pub proof fn law_measure<G: EGraph>(egraph: &G, size: GraphSize)
    requires
        call_ensures(crate::iteration::measure::<G>, (egraph,), size),
    ensures
        call_ensures(G::total_size, (egraph,), size.nodes),
        call_ensures(G::number_of_classes, (egraph,), size.classes),
{
}

/// The names of rewrites are given in the order of the rewrites.
pub proof fn law_rule_names<R>(rules: &[Rewrite<R>], names: Vec<Symbol>)
    requires
        call_ensures(crate::iteration::rule_names::<R>, (rules,), names),
    ensures
        names@.len() == rules@.len(),
        forall|j: int| 0 <= j < rules@.len() ==> #[trigger] names@[j] == rules@[j].name,
{
}

/// The times of an iteration are the differences between its own readings of the
/// clock, and nothing where the clock runs backward.
pub proof fn law_times(readings: Readings, times: IterationTimes)
    requires
        call_ensures(Readings::times, (&readings,), times),
    ensures
        is_time_between(readings.hook_start, readings.hook_end, times.hook),
        is_time_between(readings.search_start, readings.search_end, times.search),
        is_time_between(readings.apply_start, readings.apply_end, times.apply),
        is_time_between(readings.rebuild_start, readings.rebuild_end, times.rebuild),
        is_time_between(readings.start, readings.end, times.total),
{
}

/// `time` is the time from one reading of the clock to another.
pub open spec fn is_time_between(from: u64, to: u64, time: u64) -> bool {
    if from <= to {
        time == to - from
    } else {
        time == 0
    }
}

/// All parts but the limits are the same.
pub open spec fn same_but_limits<G: EGraph, S, H, D>(
    a: Runner<G, S, H, D>,
    b: Runner<G, S, H, D>,
) -> bool {
    &&& a.egraph == b.egraph
    &&& a.iterations == b.iterations
    &&& a.roots == b.roots
    &&& a.stop_reason == b.stop_reason
    &&& a.scheduler_snapshot == b.scheduler_snapshot
    &&& a.hooks == b.hooks
    &&& a.scheduler == b.scheduler
}

/// The clock is read once, and nothing but the observed process differs.
pub open spec fn only_clock_read<G: EGraph, S, H, D>(
    before: Runner<G, S, H, D>,
    now: u64,
    after: Runner<G, S, H, D>,
) -> bool {
    &&& <G::Probe as Probe>::tells(before.limits@.probe, now, after.limits@.probe)
    &&& after.limits@.iter_limit == before.limits@.iter_limit
    &&& after.limits@.node_limit == before.limits@.node_limit
    &&& after.limits@.time_limit == before.limits@.time_limit
    &&& after.limits@.start_time == before.limits@.start_time
    &&& after.limits@.memory == before.limits@.memory
    &&& same_but_limits(after, before)
}

/// Reading the clock reads it once and does nothing else.
pub proof fn law_runner_reads_clock<
    G: EGraph,
    S: RewriteScheduler<G>,
    H: Hook<G, S, D>,
    D: IterationData<G, S, H>,
>(runner: &mut Runner<G, S, H, D>, now: u64)
    requires
        call_ensures(Runner::<G, S, H, D>::read_clock, (runner,), now),
    ensures
        only_clock_read(*old(runner), now, *final(runner)),
{
}

/// The clock of a run starts where it has not, by one reading. One that runs is left
/// alone.
pub open spec fn clock_runs<P: Probe>(before: LimitsModel<P>, after: LimitsModel<P>) -> bool {
    &&& after.iter_limit == before.iter_limit
    &&& after.node_limit == before.node_limit
    &&& after.time_limit == before.time_limit
    &&& after.memory == before.memory
    &&& match before.start_time {
        Some(start) => after.start_time == Some(start) && after.probe == before.probe,
        None => after.start_time is Some && P::tells(
            before.probe,
            after.start_time->0,
            after.probe,
        ),
    }
}

/// An iteration begins with a limit check whose sample starts the iteration's peak. The
/// clock of the run is started before it.
pub open spec fn begins_with_check<G: EGraph>(
    before: LimitsModel<G::Probe>,
    iteration: usize,
    egraph: G,
    after: LimitsModel<G::Probe>,
    result: RunnerResult<()>,
) -> bool {
    exists|running: LimitsModel<G::Probe>, seen: Seen<G::Probe>|
        {
            &&& clock_runs(before, running)
            &&& #[trigger] seen.answers(running, iteration, egraph, after, result)
            &&& before.memory is Some ==> after.memory->0.iteration_peak == Some(
                IterationMemoryPeak {
                    iteration_start_allocated: seen.sample->0,
                    iteration_peak_allocated: seen.sample->0,
                    peak_phase: MemorySamplePhase::BeforeHooks,
                    peak_rule: None,
                },
            )
        }
}

/// The scheduler gives this snapshot of the rewrites in their order.
pub open spec fn pictures<S: Scheduler, R>(
    scheduler: S,
    iteration: usize,
    rewrites: Seq<Rewrite<R>>,
    snapshot: SchedulerSnapshot,
) -> bool {
    exists|names: &[Symbol]|
        {
            &&& names@.len() == rewrites.len()
            &&& forall|j: int| 0 <= j < rewrites.len() ==> #[trigger] names@[j] == rewrites[j].name
            &&& #[trigger] call_ensures(S::snapshot, (&scheduler, iteration, names), snapshot)
        }
}

/// What beginning an iteration does, in these terms.
pub proof fn lemma_begins<G: EGraph, S: RewriteScheduler<G>, H, D>(
    iteration: usize,
    rewrites: Seq<Rewrite<G::Rule>>,
    before: Runner<G, S, H, D>,
    after: Runner<G, S, H, D>,
    result: RunnerResult<()>,
)
    requires
        iteration_begun(iteration, rewrites, before, after, result),
    ensures
        begins_with_check(before.limits@, iteration, before.egraph, after.limits@, result),
        pictures(before.scheduler, iteration, rewrites, after.scheduler_snapshot),
        after.egraph == before.egraph,
        after.iterations == before.iterations,
        after.roots == before.roots,
        after.stop_reason == before.stop_reason,
        after.hooks == before.hooks,
        after.scheduler == before.scheduler,
{
    let running = choose|limits: LimitsModel<G::Probe>| #[trigger]
        started(before.limits@, limits) && crate::limits::begun(
            limits,
            iteration,
            before.egraph,
            after.limits@,
            result,
        );
    let seen = law_start_check(running, iteration, before.egraph, after.limits@, result);
    assert(clock_runs(before.limits@, running));
    let named = rewrites.map_values(|rewrite: Rewrite<G::Rule>| rewrite.name);
    let names = choose|names: &[Symbol]|
        names@ == named && #[trigger] call_ensures(
            S::snapshot,
            (&before.scheduler, iteration, names),
            after.scheduler_snapshot,
        );
    assert(forall|j: int| 0 <= j < rewrites.len() ==> #[trigger] names@[j] == rewrites[j].name);
}

/// An iteration begins with a limit check of the e-graph as it stands, and with a
/// snapshot of the scheduler for this very iteration. Nothing else changes.
pub proof fn law_runner_begins_iteration<
    G: EGraph,
    S: RewriteScheduler<G>,
    H: Hook<G, S, D>,
    D: IterationData<G, S, H>,
>(
    runner: &mut Runner<G, S, H, D>,
    iteration: usize,
    rules: &[Rewrite<G::Rule>],
    result: RunnerResult<()>,
)
    requires
        call_ensures(Runner::<G, S, H, D>::begin_iteration, (runner, iteration, rules), result),
    ensures
        begins_with_check(
            old(runner).limits@,
            iteration,
            old(runner).egraph,
            final(runner).limits@,
            result,
        ),
        pictures(
            old(runner).scheduler,
            iteration,
            rules@,
            final(runner).scheduler_snapshot,
        ),
        final(runner).egraph == old(runner).egraph,
        final(runner).iterations == old(runner).iterations,
        final(runner).roots == old(runner).roots,
        final(runner).stop_reason == old(runner).stop_reason,
        final(runner).hooks == old(runner).hooks,
        final(runner).scheduler == old(runner).scheduler,
{
    lemma_begins(iteration, rules@, *old(runner), *final(runner), result);
}

/// The search of an iteration, where nothing said to stop, is the scheduler's search of
/// all rules in that iteration, on the runner's e-graph and against the runner's limits.
/// Where something did, there is no search, and the reason is handed on.
pub proof fn law_runner_searches<
    G: EGraph,
    S: RewriteScheduler<G>,
    H: Hook<G, S, D>,
    D: IterationData<G, S, H>,
>(
    runner: &mut Runner<G, S, H, D>,
    iteration: usize,
    rules: &[Rewrite<G::Rule>],
    start: RunnerResult<()>,
    result: RunnerResult<Vec<Vec<SearchMatches<G::Subst>>>>,
)
    requires
        call_ensures(
            Runner::<G, S, H, D>::search_rules,
            (runner, iteration, rules, start),
            result,
        ),
    ensures
        start is Ok ==> exists|s: &mut S, l: &mut RunnerLimits<G::Probe>|
            {
                &&& *s == old(runner).scheduler
                &&& *final(s) == final(runner).scheduler
                &&& l@ == old(runner).limits@
                &&& final(l)@ == final(runner).limits@
                &&& #[trigger] call_ensures(
                    S::search_rewrites,
                    (s, iteration, &old(runner).egraph, rules, l),
                    result,
                )
            },
        start matches Err(reason) ==> {
            &&& result == Err::<Vec<Vec<SearchMatches<G::Subst>>>, _>(reason)
            &&& *final(runner) == *old(runner)
        },
        final(runner).egraph == old(runner).egraph,
        final(runner).iterations == old(runner).iterations,
        final(runner).roots == old(runner).roots,
        final(runner).stop_reason == old(runner).stop_reason,
        final(runner).scheduler_snapshot == old(runner).scheduler_snapshot,
        final(runner).hooks == old(runner).hooks,
{
}

/// All parts but the hooks are the same.
pub open spec fn same_but_its_hooks<G: EGraph, S, H, D>(
    a: Runner<G, S, H, D>,
    b: Runner<G, S, H, D>,
) -> bool {
    &&& a.egraph == b.egraph
    &&& a.iterations == b.iterations
    &&& a.roots == b.roots
    &&& a.stop_reason == b.stop_reason
    &&& a.scheduler_snapshot == b.scheduler_snapshot
    &&& a.limits@ == b.limits@
    &&& a.scheduler == b.scheduler
}

/// The hooks ran one after the other, each once, from the first on, each on the runner
/// that the hook before it left. The first of them saw no hooks on the runner. The first
/// error ended this, and its message is the reason to stop. Afterwards the runner has
/// all its hooks again, in their order: those that ran as they are now.
pub open spec fn ran_in_order<G: EGraph, S, H, D>(
    call: spec_fn(H, Runner<G, S, H, D>, H, Runner<G, S, H, D>, Result<(), String>) -> bool,
    before: Runner<G, S, H, D>,
    runners: Seq<Runner<G, S, H, D>>,
    outcomes: Seq<Result<(), String>>,
    after: Runner<G, S, H, D>,
    result: RunnerResult<()>,
) -> bool {
    let n = outcomes.len();
    let hooks = before.hooks@;
    &&& n <= hooks.len()
    &&& after.hooks@.len() == hooks.len()
    &&& runners.len() == n + 1
    &&& same_but_its_hooks(runners[0], before)
    &&& runners[0].hooks@.len() == 0
    &&& forall|j: int|
        #![trigger outcomes[j]]
        0 <= j < n ==> call(hooks[j], runners[j], after.hooks@[j], runners[j + 1], outcomes[j])
    &&& forall|j: int| 0 <= j < n - 1 ==> (#[trigger] outcomes[j]) is Ok
    &&& forall|j: int| n <= j < hooks.len() ==> #[trigger] after.hooks@[j] == hooks[j]
    &&& same_but_its_hooks(after, runners[n as int])
    &&& match result {
        Ok(()) => n == hooks.len() && (n > 0 ==> outcomes[n - 1] is Ok),
        Err(reason) => n > 0 && outcomes[n - 1] is Err && reason == StopReason::Other(
            outcomes[n - 1]->Err_0,
        ),
    }
}

/// What the hooks of an iteration do, where they run.
pub open spec fn hooks_took_their_turns<G: EGraph, S, H, D>(
    call: spec_fn(H, Runner<G, S, H, D>, H, Runner<G, S, H, D>, Result<(), String>) -> bool,
    before: Runner<G, S, H, D>,
    after: Runner<G, S, H, D>,
    result: RunnerResult<()>,
) -> bool {
    exists|runners: Seq<Runner<G, S, H, D>>, outcomes: Seq<Result<(), String>>| #[trigger]
        ran_in_order(call, before, runners, outcomes, after, result)
}

/// What the hooks of an iteration do, in these terms.
pub proof fn lemma_hooks_in_order<G: EGraph, S, H, D>(
    call: spec_fn(H, Runner<G, S, H, D>, H, Runner<G, S, H, D>, Result<(), String>) -> bool,
    before: Runner<G, S, H, D>,
    start: RunnerResult<()>,
    after: Runner<G, S, H, D>,
    result: RunnerResult<()>,
)
    requires
        hooks_ran(call, before, start, after, result),
    ensures
        start is Ok ==> hooks_took_their_turns(call, before, after, result),
        start is Err ==> after == before && result == start,
{
    if start is Ok {
        let trace = choose|trace: HookTrace<G, S, H, D>|
            {
                &&& #[trigger] trace.follows(call, before.hooks@)
                &&& trace.runners.first().same_but_hooks(before)
                &&& trace.runners.first().hooks@.len() == 0
                &&& after.same_but_hooks(trace.runners.last())
                &&& after.hooks@ == trace.hooks + before.hooks@.skip(trace.hooks.len() as int)
                &&& result == trace.result()
                &&& result is Ok ==> trace.outcomes.len() == before.hooks@.len()
            };
        assert(ran_in_order(call, before, trace.runners, trace.outcomes, after, result));
    }
}

/// The hooks of an iteration take their turns, unless there is a reason to stop
/// already. It then stays the reason, and nothing is touched.
pub proof fn law_runner_runs_hooks<
    G: EGraph,
    S: RewriteScheduler<G>,
    H: Hook<G, S, D>,
    D: IterationData<G, S, H>,
>(runner: &mut Runner<G, S, H, D>, start: RunnerResult<()>, result: RunnerResult<()>)
    requires
        call_ensures(Runner::<G, S, H, D>::run_hooks, (runner, start), result),
    ensures
        start is Ok ==> hooks_took_their_turns(
            |
                hook: H,
                runner: Runner<G, S, H, D>,
                hook_after: H,
                runner_after: Runner<G, S, H, D>,
                outcome: Result<(), String>,
            |
                exists|h: &mut H, m: &mut Runner<G, S, H, D>|
                    *h == hook && *final(h) == hook_after && *m == runner && *final(m)
                        == runner_after && #[trigger] call_ensures(H::call, (h, m), outcome),
            *old(runner),
            *final(runner),
            result,
        ),
        start is Err ==> *final(runner) == *old(runner) && result == start,
{
    lemma_hooks_in_order(
        |
            hook: H,
            runner: Runner<G, S, H, D>,
            hook_after: H,
            runner_after: Runner<G, S, H, D>,
            outcome: Result<(), String>,
        |
            exists|h: &mut H, m: &mut Runner<G, S, H, D>|
                *h == hook && *final(h) == hook_after && *m == runner && *final(m) == runner_after
                    && #[trigger] call_ensures(H::call, (h, m), outcome),
        *old(runner),
        start,
        *final(runner),
        result,
    );
}

/// The rules were applied one after the other, from the first on: the `j`-th
/// application is of the `j`-th rewrite at the `j`-th list of matches, on the e-graph
/// and with the scheduler that the application before it left.
pub open spec fn applied_in_order<G: EGraph, S>(
    apply: spec_fn(
        usize,
        S,
        G,
        Rewrite<G::Rule>,
        Vec<SearchMatches<G::Subst>>,
        S,
        G,
        usize,
    ) -> bool,
    iteration: usize,
    rewrites: Seq<Rewrite<G::Rule>>,
    matches: Seq<Vec<SearchMatches<G::Subst>>>,
    schedulers: Seq<S>,
    egraphs: Seq<G>,
    counts: Seq<usize>,
) -> bool {
    let n = counts.len();
    &&& n <= rewrites.len()
    &&& n <= matches.len()
    &&& schedulers.len() == n + 1
    &&& egraphs.len() == n + 1
    &&& forall|j: int|
        #![trigger counts[j]]
        0 <= j < n ==> apply(
            iteration,
            schedulers[j],
            egraphs[j],
            rewrites[j],
            matches[j],
            schedulers[j + 1],
            egraphs[j + 1],
            counts[j],
        )
}

/// The first name was newly applied before the second was.
pub open spec fn applied_before<R>(
    rewrites: Seq<Rewrite<R>>,
    counts: Seq<usize>,
    first: Seq<char>,
    second: Seq<char>,
) -> bool {
    exists|j: int|
        {
            &&& 0 <= j < counts.len()
            &&& #[trigger] counts[j] > 0
            &&& rewrites[j].name@ == first
            &&& forall|i: int|
                0 <= i <= j && rewrites[i].name@ == second ==> #[trigger] counts[i] == 0
        }
}

/// Each name that was newly applied is listed once, with the number of its new
/// applications, and no other name is. They are in the order in which they were first
/// applied.
pub open spec fn lists_applications<R>(
    rewrites: Seq<Rewrite<R>>,
    counts: Seq<usize>,
    entries: Seq<(Seq<char>, usize)>,
) -> bool {
    &&& distinct_keys(entries)
    &&& forall|i: int|
        0 <= i < entries.len() ==> {
            let total = sum(applications(rewrites, counts, (#[trigger] entries[i]).0));
            total > 0 && is_total(total, entries[i].1)
        }
    &&& forall|j: int|
        0 <= j < counts.len() && #[trigger] counts[j] > 0 ==> has_key(entries, rewrites[j].name@)
    &&& forall|i: int, k: int|
        #![trigger entries[i], entries[k]]
        0 <= i < k < entries.len() ==> applied_before(
            rewrites,
            counts,
            entries[i].0,
            entries[k].0,
        )
}

/// A sum of numbers that are not negative is at least each of them.
proof fn lemma_sum_at_least(s: Seq<int>, j: int)
    requires
        forall|i: int| 0 <= i < s.len() ==> 0 <= #[trigger] s[i],
        0 <= j < s.len(),
    ensures
        0 <= s[j] <= sum(s),
    decreases s.len(),
{
    let fewer = s.drop_last();
    assert forall|i: int| 0 <= i < fewer.len() implies 0 <= #[trigger] fewer[i] by {
        assert(fewer[i] == s[i]);
    }
    assert(s.last() == s[s.len() - 1]);
    assert(fewer.len() == 0 ==> sum(fewer) == 0);
    if j < fewer.len() {
        lemma_sum_at_least(fewer, j);
        assert(fewer[j] == s[j]);
    } else if fewer.len() > 0 {
        lemma_sum_at_least(fewer, 0);
    }
}

/// A name that was applied was so by one of the applications.
proof fn lemma_someone_applied<R>(
    rewrites: Seq<Rewrite<R>>,
    counts: Seq<usize>,
    name: Seq<char>,
) -> (j: int)
    requires
        counts.len() <= rewrites.len(),
        sum(applications(rewrites, counts, name)) > 0,
    ensures
        0 <= j < counts.len(),
        counts[j] > 0,
        rewrites[j].name@ == name,
    decreases counts.len(),
{
    let terms = applications(rewrites, counts, name);
    let n = counts.len() - 1;
    if counts.len() == 0 {
        assert(false);
        0
    } else if rewrites[n].name@ == name && counts[n] > 0 {
        n
    } else {
        assert(terms.drop_last() =~= applications(rewrites, counts.drop_last(), name));
        assert(terms.last() == 0);
        lemma_someone_applied(rewrites, counts.drop_last(), name)
    }
}

/// An iteration's record lists names in the order of their first applications.
proof fn lemma_order_of_applications<R>(rewrites: Seq<Rewrite<R>>, counts: Seq<usize>)
    requires
        counts.len() <= rewrites.len(),
    ensures
        forall|i: int, k: int|
            #![trigger tally(rewrites, counts)[i], tally(rewrites, counts)[k]]
            0 <= i < k < tally(rewrites, counts).len() ==> applied_before(
                rewrites,
                counts,
                tally(rewrites, counts)[i].0,
                tally(rewrites, counts)[k].0,
            ),
    decreases counts.len(),
{
    let entries = tally(rewrites, counts);
    if counts.len() > 0 {
        let fewer = counts.drop_last();
        let earlier = tally(rewrites, fewer);
        let n = counts.len() - 1;
        let name = rewrites[n].name@;
        lemma_order_of_applications(rewrites, fewer);
        law_applications_are_counted_by_name(rewrites, fewer, name);
        assert forall|i: int, k: int|
            #![trigger entries[i], entries[k]]
            0 <= i < k < entries.len() implies applied_before(
            rewrites,
            counts,
            entries[i].0,
            entries[k].0,
        ) by {
            assert(i < earlier.len() && entries[i].0 == earlier[i].0);
            if k < earlier.len() {
                assert(entries[k].0 == earlier[k].0);
                assert(applied_before(rewrites, fewer, earlier[i].0, earlier[k].0));
                let j = choose|j: int|
                    {
                        &&& 0 <= j < fewer.len()
                        &&& #[trigger] fewer[j] > 0
                        &&& rewrites[j].name@ == earlier[i].0
                        &&& forall|m: int|
                            0 <= m <= j && rewrites[m].name@ == earlier[k].0
                                ==> #[trigger] fewer[m] == 0
                    };
                assert(counts[j] > 0);
                assert forall|m: int| 0 <= m <= j && rewrites[m].name@ == entries[k].0 implies
                    #[trigger] counts[m] == 0 by {
                    assert(fewer[m] == 0);
                }
            } else {
                assert(entries[k].0 == name);
                assert(!has_key(earlier, name));
                law_applications_are_counted_by_name(rewrites, fewer, earlier[i].0);
                assert(has_key(earlier, earlier[i].0));
                let j = lemma_someone_applied(rewrites, fewer, earlier[i].0);
                assert(counts[j] > 0);
                assert forall|m: int| 0 <= m <= j && rewrites[m].name@ == entries[k].0 implies
                    #[trigger] counts[m] == 0 by {
                    let terms = applications(rewrites, fewer, name);
                    lemma_sum_at_least(terms, m);
                    assert(terms[m] == fewer[m]);
                }
            }
        }
    }
}

/// An iteration's record lists its applications.
proof fn lemma_lists_applications<R>(rewrites: Seq<Rewrite<R>>, counts: Seq<usize>)
    requires
        counts.len() <= rewrites.len(),
    ensures
        lists_applications(rewrites, counts, tally(rewrites, counts)),
{
    let entries = tally(rewrites, counts);
    law_applications_are_counted_by_name(rewrites, counts, Seq::empty());
    lemma_order_of_applications(rewrites, counts);
    assert forall|i: int| 0 <= i < entries.len() implies ({
        let total = sum(applications(rewrites, counts, (#[trigger] entries[i]).0));
        total > 0 && is_total(total, entries[i].1)
    }) by {
        let name = entries[i].0;
        law_applications_are_counted_by_name(rewrites, counts, name);
        assert(has_key(entries, name));
        assert(key_index(entries, name) == i);
    }
    assert forall|j: int| 0 <= j < counts.len() && #[trigger] counts[j] > 0 implies has_key(
        entries,
        rewrites[j].name@,
    ) by {
        let name = rewrites[j].name@;
        law_applications_are_counted_by_name(rewrites, counts, name);
        lemma_sum_at_least(applications(rewrites, counts, name), j);
    }
}

/// What the applications of an iteration do, where there are matches. A limit check
/// follows each, of the e-graph that it left, and the first that fails ends this.
/// Without one all rules are applied that have matches.
pub open spec fn rules_took_their_turns<G: EGraph, S, H, D>(
    apply: spec_fn(
        usize,
        S,
        G,
        Rewrite<G::Rule>,
        Vec<SearchMatches<G::Subst>>,
        S,
        G,
        usize,
    ) -> bool,
    iteration: usize,
    rewrites: Seq<Rewrite<G::Rule>>,
    matches: Seq<Vec<SearchMatches<G::Subst>>>,
    before: Runner<G, S, H, D>,
    after: Runner<G, S, H, D>,
    applied: Seq<(Seq<char>, usize)>,
    result: RunnerResult<()>,
) -> bool {
    exists|
        schedulers: Seq<S>,
        egraphs: Seq<G>,
        counts: Seq<usize>,
        trail: Seq<LimitsModel<G::Probe>>,
    |
        {
            &&& #[trigger] applied_in_order(
                apply,
                iteration,
                rewrites,
                matches,
                schedulers,
                egraphs,
                counts,
            )
            &&& schedulers.first() == before.scheduler
            &&& schedulers.last() == after.scheduler
            &&& egraphs.first() == before.egraph
            &&& egraphs.last() == after.egraph
            &&& lists_applications(rewrites, counts, applied)
            &&& #[trigger] checked_in_turn(
                trail,
                iteration,
                egraphs.drop_first(),
                MemorySamplePhase::AfterRuleApplication,
                rewrites,
                result,
            )
            &&& trail.len() == egraphs.len()
            &&& trail.first() == before.limits@
            &&& trail.last() == after.limits@
            &&& result is Ok ==> counts.len() == rewrites.len() || counts.len() == matches.len()
        }
}

/// What the applications of an iteration do, in these terms.
pub proof fn lemma_rules_in_order<G: EGraph, S, H, D>(
    apply: spec_fn(
        usize,
        S,
        G,
        Rewrite<G::Rule>,
        Vec<SearchMatches<G::Subst>>,
        S,
        G,
        usize,
    ) -> bool,
    iteration: usize,
    rewrites: Seq<Rewrite<G::Rule>>,
    before: Runner<G, S, H, D>,
    start: RunnerResult<Vec<Vec<SearchMatches<G::Subst>>>>,
    after: Runner<G, S, H, D>,
    applied: Seq<(Seq<char>, usize)>,
    result: RunnerResult<()>,
)
    requires
        rules_applied(apply, iteration, rewrites, before, start, after, applied, result),
    ensures
        start matches Ok(matches) ==> rules_took_their_turns(
            apply,
            iteration,
            rewrites,
            matches@,
            before,
            after,
            applied,
            result,
        ),
        start matches Err(reason) ==> {
            &&& after == before
            &&& applied.len() == 0
            &&& result == Err::<(), _>(reason)
        },
        after.iterations == before.iterations,
        after.roots == before.roots,
        after.stop_reason == before.stop_reason,
        after.scheduler_snapshot == before.scheduler_snapshot,
        after.hooks == before.hooks,
{
    if start is Ok {
        let matches = start->Ok_0@;
        let trace = choose|trace: ApplyTrace<G, S>|
            {
                &&& #[trigger] trace.follows(apply, iteration, rewrites, matches)
                &&& trace.schedulers.first() == before.scheduler
                &&& trace.egraphs.first() == before.egraph
                &&& trace.limits.first() == before.limits@
                &&& trace.schedulers.last() == after.scheduler
                &&& trace.egraphs.last() == after.egraph
                &&& trace.limits.last() == after.limits@
                &&& after.same_records(before)
                &&& applied == tally(rewrites, trace.counts)
                &&& result == trace.result()
                &&& result is Ok ==> trace.counts.len() == rewrites.len() || trace.counts.len()
                    == matches.len()
            };
        let n = trace.counts.len() as int;
        lemma_lists_applications(rewrites, trace.counts);
        let left = trace.egraphs.drop_first();
        assert forall|j: int|
            #![trigger rewrites[j]]
            0 <= j < n implies check_at(
            trace.limits[j],
            iteration,
            left[j],
            MemorySamplePhase::AfterRuleApplication,
            rewrites[j].name,
            trace.limits[j + 1],
            said_at(j, n, result),
        ) by {
            let count = trace.counts[j];
            assert(j < n - 1 ==> trace.checks[j] is Ok);
            let seen = law_boundary_check(
                trace.limits[j],
                iteration,
                trace.egraphs[j + 1],
                MemorySamplePhase::AfterRuleApplication,
                Some(rewrites[j].name),
                trace.limits[j + 1],
                trace.checks[j],
            );
            assert(seen.answers(
                trace.limits[j],
                iteration,
                left[j],
                trace.limits[j + 1],
                said_at(j, n, result),
            ));
        }
        assert(applied_in_order(
            apply,
            iteration,
            rewrites,
            matches,
            trace.schedulers,
            trace.egraphs,
            trace.counts,
        ));
        assert(checked_in_turn(
            trace.limits,
            iteration,
            left,
            MemorySamplePhase::AfterRuleApplication,
            rewrites,
            result,
        ));
    }
}

/// The rules take their turns, each with its own list of matches, unless there is a
/// reason to stop already. It then stays the reason, and nothing is applied.
pub proof fn law_runner_applies<
    G: EGraph,
    S: RewriteScheduler<G>,
    H: Hook<G, S, D>,
    D: IterationData<G, S, H>,
>(
    runner: &mut Runner<G, S, H, D>,
    iteration: usize,
    rules: &[Rewrite<G::Rule>],
    start: RunnerResult<Vec<Vec<SearchMatches<G::Subst>>>>,
    done: (IndexMap<Symbol, usize>, RunnerResult<()>),
)
    requires
        old(runner).limits@.start_time is Some,
        call_ensures(
            Runner::<G, S, H, D>::apply_rules,
            (runner, iteration, rules, start),
            done,
        ),
    ensures
        start matches Ok(matches) ==> rules_took_their_turns(
            |
                iteration: usize,
                scheduler: S,
                egraph: G,
                rewrite: Rewrite<G::Rule>,
                matches: Vec<SearchMatches<G::Subst>>,
                scheduler_after: S,
                egraph_after: G,
                count: usize,
            |
                exists|s: &mut S, g: &mut G|
                    *s == scheduler && *final(s) == scheduler_after && *g == egraph && *final(g)
                        == egraph_after && #[trigger] call_ensures(
                        S::apply_rewrite,
                        (s, iteration, g, &rewrite, matches),
                        count,
                    ),
            iteration,
            rules@,
            matches@,
            *old(runner),
            *final(runner),
            count_entries(done.0),
            done.1,
        ),
        start matches Err(reason) ==> {
            &&& *final(runner) == *old(runner)
            &&& count_entries(done.0).len() == 0
            &&& done.1 == Err::<(), _>(reason)
        },
        final(runner).iterations == old(runner).iterations,
        final(runner).roots == old(runner).roots,
        final(runner).stop_reason == old(runner).stop_reason,
        final(runner).scheduler_snapshot == old(runner).scheduler_snapshot,
        final(runner).hooks == old(runner).hooks,
{
    lemma_rules_in_order(
        |
            iteration: usize,
            scheduler: S,
            egraph: G,
            rewrite: Rewrite<G::Rule>,
            matches: Vec<SearchMatches<G::Subst>>,
            scheduler_after: S,
            egraph_after: G,
            count: usize,
        |
            exists|s: &mut S, g: &mut G|
                *s == scheduler && *final(s) == scheduler_after && *g == egraph && *final(g)
                    == egraph_after && #[trigger] call_ensures(
                    S::apply_rewrite,
                    (s, iteration, g, &rewrite, matches),
                    count,
                ),
        iteration,
        rules@,
        *old(runner),
        start,
        *final(runner),
        count_entries(done.0),
        done.1,
    );
}

/// The limit check behind a rebuild is of the rebuilt e-graph, and its sample belongs to
/// the rebuild.
pub open spec fn ends_with_check<G: EGraph>(
    before: LimitsModel<G::Probe>,
    iteration: usize,
    egraph: G,
    after: LimitsModel<G::Probe>,
    result: RunnerResult<()>,
) -> bool {
    exists|seen: Seen<G::Probe>|
        {
            &&& #[trigger] seen.answers(before, iteration, egraph, after, result)
            &&& before.memory matches Some(memory) ==> attributed(
                memory.iteration_peak,
                MemorySamplePhase::AfterRebuildFinalization,
                None,
                seen.sample->0,
                after.memory->0.iteration_peak,
            )
        }
}

/// The reason with which an iteration ends, where the scheduler is not asked: the first
/// that there was.
pub open spec fn first_reason(
    start: RunnerResult<()>,
    check: RunnerResult<()>,
    reason: Option<StopReason>,
) -> bool {
    match (start, check) {
        (Err(first), _) => reason == Some(first),
        (Ok(()), Err(second)) => reason == Some(second),
        (Ok(()), Ok(())) => reason is None,
    }
}

/// Nothing has happened in an iteration: nothing said to stop, no rule was newly applied
/// and all sizes are the same.
pub open spec fn is_quiet(
    start: RunnerResult<()>,
    check: RunnerResult<()>,
    applied: Seq<(Seq<char>, usize)>,
    at_start: GraphSize,
    after_hooks: GraphSize,
    at_end: GraphSize,
) -> bool {
    &&& start is Ok
    &&& check is Ok
    &&& applied.len() == 0
    &&& at_start.nodes == after_hooks.nodes
    &&& at_start.classes == after_hooks.classes
    &&& at_start.nodes == at_end.nodes
    &&& at_start.classes == at_end.classes
}

/// An iteration ends with a limit check. Where nothing has happened in it, the scheduler
/// decides whether the run has saturated. Otherwise the first reason to stop counts, and
/// the scheduler is not asked.
pub proof fn law_runner_ends_iteration<
    G: EGraph,
    S: RewriteScheduler<G>,
    H: Hook<G, S, D>,
    D: IterationData<G, S, H>,
>(
    runner: &mut Runner<G, S, H, D>,
    iteration: usize,
    at_start: GraphSize,
    after_hooks: GraphSize,
    applied: &IndexMap<Symbol, usize>,
    start: RunnerResult<()>,
    end: IterationEnd,
)
    requires
        old(runner).limits@.start_time is Some,
        call_ensures(
            Runner::<G, S, H, D>::end_iteration,
            (runner, iteration, at_start, after_hooks, applied, start),
            end,
        ),
    ensures
        ends_with_check(
            old(runner).limits@,
            iteration,
            old(runner).egraph,
            final(runner).limits@,
            end.check,
        ),
        call_ensures(G::total_size, (&old(runner).egraph,), end.at_end.nodes),
        call_ensures(G::number_of_classes, (&old(runner).egraph,), end.at_end.classes),
        is_quiet(start, end.check, count_entries(*applied), at_start, after_hooks, end.at_end)
            ==> (end.stop_reason is None || end.stop_reason == Some(StopReason::Saturated))
            && exists|s: &mut S|
            {
                &&& *s == old(runner).scheduler
                &&& *final(s) == final(runner).scheduler
                &&& #[trigger] call_ensures(S::can_stop, (s, iteration), end.stop_reason is Some)
            },
        !is_quiet(start, end.check, count_entries(*applied), at_start, after_hooks, end.at_end)
            ==> final(runner).scheduler == old(runner).scheduler && first_reason(
            start,
            end.check,
            end.stop_reason,
        ),
        final(runner).egraph == old(runner).egraph,
        final(runner).iterations == old(runner).iterations,
        final(runner).roots == old(runner).roots,
        final(runner).stop_reason == old(runner).stop_reason,
        final(runner).scheduler_snapshot == old(runner).scheduler_snapshot,
        final(runner).hooks == old(runner).hooks,
{
    let seen = law_boundary_check(
        old(runner).limits@,
        iteration,
        final(runner).egraph,
        MemorySamplePhase::AfterRebuildFinalization,
        None,
        final(runner).limits@,
        end.check,
    );
    assert(nothing_new(
        ending(start, end.check),
        count_entries(*applied),
        at_start,
        after_hooks,
        end.at_end,
    ) <==> is_quiet(
        start,
        end.check,
        count_entries(*applied),
        at_start,
        after_hooks,
        end.at_end,
    ));
}

} // verus!
