//! One iteration of a run.
//!
//! An iteration begins with a limit check and a snapshot of the scheduler. Then
//! hooks run, rules are searched and their matches applied, each only as long as
//! nothing before it said to stop. At last the e-graph is rebuilt and the limits
//! are checked once more.

use indexmap::IndexMap;
use vstd::prelude::*;
use crate::egraph::{EGraph, Rewrite, SearchMatches, Symbol};
use crate::limits::{
    begun, checked_at, elapsed_since, reads_size, started, LimitsModel, RunnerLimits,
    RunnerResult, StopReason,
};
use crate::maps::{count_entries, count_len, count_new};
use crate::memory::MemorySamplePhase;
use crate::report::{add_count, counted, Iteration};
use crate::runner::{Hook, IterationData, Runner};
use crate::scheduler::{RewriteScheduler, Scheduler};
use crate::snapshot::SchedulerSnapshot;

verus! {

/// The size of an e-graph.
#[derive(Debug, Clone, Copy, PartialEq, Eq)]
pub struct GraphSize {
    /// The number of e-nodes.
    pub nodes: usize,
    /// The number of e-classes.
    pub classes: usize,
}

/// `size` is a size that the e-graph can report.
pub open spec fn measures<G: EGraph>(egraph: G, size: GraphSize) -> bool {
    &&& reads_size(egraph, size.nodes)
    &&& call_ensures(G::number_of_classes, (&egraph,), size.classes)
}

/// The size that the e-graph reports.
pub fn measure<G: EGraph>(egraph: &G) -> (r: GraphSize)
    ensures
        measures(*egraph, r),
{
    let nodes = egraph.total_size();
    let classes = egraph.number_of_classes();
    GraphSize { nodes, classes }
}

/// Reading the clock can give `now` and take the runner from `before` to `after`.
/// Nothing but the observed process differs.
pub open spec fn clock_read<G: EGraph, S, H, D>(
    before: Runner<G, S, H, D>,
    now: u64,
    after: Runner<G, S, H, D>,
) -> bool {
    &&& before.limits@.tells(now, after.limits@)
    &&& after == (Runner { limits: after.limits, ..before })
}

/// The names of rewrites.
pub fn rule_names<R>(rules: &[Rewrite<R>]) -> (r: Vec<Symbol>)
    ensures
        r@ == rules@.map_values(|rewrite: Rewrite<R>| rewrite.name),
{
    let mut names: Vec<Symbol> = Vec::new();
    let mut i: usize = 0;
    while i < rules.len()
        invariant
            i <= rules.len(),
            names@ == rules@.take(i as int).map_values(|rewrite: Rewrite<R>| rewrite.name),
        decreases rules.len() - i,
    {
        names.push(rules[i].name.clone());
        assert(names@ =~= rules@.take(i + 1).map_values(|rewrite: Rewrite<R>| rewrite.name));
        i += 1;
    }
    assert(rules@.take(i as int) =~= rules@);
    names
}

/// One hook after the other.
pub struct HookTrace<G: EGraph, S, H, D> {
    /// The runner before the first hook and after each.
    pub runners: Seq<Runner<G, S, H, D>>,
    /// The hooks that ran, after they ran.
    pub hooks: Seq<H>,
    /// What each hook said.
    pub outcomes: Seq<Result<(), String>>,
}

impl<G: EGraph, S, H, D> HookTrace<G, S, H, D> {
    /// The trace has gone through the first hooks by steps of `call`, and all of
    /// them but possibly the last let the runner go on.
    pub open spec fn follows(
        self,
        call: spec_fn(
            H,
            Runner<G, S, H, D>,
            H,
            Runner<G, S, H, D>,
            Result<(), String>,
        ) -> bool,
        hooks: Seq<H>,
    ) -> bool {
        let n = self.outcomes.len();
        &&& n <= hooks.len()
        &&& self.runners.len() == n + 1
        &&& self.hooks.len() == n
        &&& forall|j: int|
            #![trigger self.outcomes[j]]
            0 <= j < n ==> call(
                hooks[j],
                self.runners[j],
                self.hooks[j],
                self.runners[j + 1],
                self.outcomes[j],
            )
        &&& forall|j: int| 0 <= j < n - 1 ==> (#[trigger] self.outcomes[j]) is Ok
    }

    /// What the last hook said, as a result for the runner.
    pub open spec fn result(self) -> RunnerResult<()> {
        if self.outcomes.len() == 0 {
            Ok(())
        } else {
            match self.outcomes.last() {
                Ok(()) => Ok(()),
                Err(message) => Err(StopReason::Other(message)),
            }
        }
    }

    /// The trace with one more hook.
    pub open spec fn longer(
        self,
        runner: Runner<G, S, H, D>,
        hook: H,
        outcome: Result<(), String>,
    ) -> Self {
        HookTrace {
            runners: self.runners.push(runner),
            hooks: self.hooks.push(hook),
            outcomes: self.outcomes.push(outcome),
        }
    }

    /// A trace that goes on may be followed by one more hook.
    proof fn lemma_longer(
        self,
        call: spec_fn(
            H,
            Runner<G, S, H, D>,
            H,
            Runner<G, S, H, D>,
            Result<(), String>,
        ) -> bool,
        hooks: Seq<H>,
        runner: Runner<G, S, H, D>,
        hook: H,
        outcome: Result<(), String>,
    )
        requires
            self.follows(call, hooks),
            self.outcomes.len() < hooks.len(),
            self.outcomes.len() > 0 ==> self.outcomes.last() is Ok,
            call(
                hooks[self.outcomes.len() as int],
                self.runners.last(),
                hook,
                runner,
                outcome,
            ),
        ensures
            self.longer(runner, hook, outcome).follows(call, hooks),
    {
        let longer = self.longer(runner, hook, outcome);
        assert forall|j: int| 0 <= j < longer.outcomes.len() implies call(
            hooks[j],
            longer.runners[j],
            longer.hooks[j],
            longer.runners[j + 1],
            #[trigger] longer.outcomes[j],
        ) by {
            if j < self.outcomes.len() {
                assert(longer.outcomes[j] == self.outcomes[j]);
            }
        }
    }
}

/// What the hooks of one iteration do: nothing where there already is a reason
/// to stop. Otherwise they run in order until one says to stop. While they run, the
/// runner that they see lists none of them.
pub open spec fn hooks_ran<G: EGraph, S, H, D>(
    call: spec_fn(H, Runner<G, S, H, D>, H, Runner<G, S, H, D>, Result<(), String>) -> bool,
    before: Runner<G, S, H, D>,
    start: RunnerResult<()>,
    after: Runner<G, S, H, D>,
    result: RunnerResult<()>,
) -> bool {
    match start {
        Err(reason) => after == before && result == start,
        Ok(()) => exists|trace: HookTrace<G, S, H, D>|
            {
                &&& #[trigger] trace.follows(call, before.hooks@)
                &&& trace.runners.first().same_but_hooks(before)
                &&& trace.runners.first().hooks@.len() == 0
                &&& after.same_but_hooks(trace.runners.last())
                &&& after.hooks@ == trace.hooks + before.hooks@.skip(trace.hooks.len() as int)
                &&& result == trace.result()
                &&& result is Ok ==> trace.outcomes.len() == before.hooks@.len()
            },
    }
}

/// One application after the other, each followed by a limit check.
pub struct ApplyTrace<G: EGraph, S> {
    /// The scheduler before the first application and after each.
    pub schedulers: Seq<S>,
    /// The e-graph before the first application and after each.
    pub egraphs: Seq<G>,
    /// The limits before the first application and after each check.
    pub limits: Seq<LimitsModel<G::Probe>>,
    /// How often each rule was newly applied.
    pub counts: Seq<usize>,
    /// What each check said.
    pub checks: Seq<RunnerResult<()>>,
}

impl<G: EGraph, S> ApplyTrace<G, S> {
    /// The trace has gone through the first rewrites and their matches by steps
    /// of `apply`, and all its checks but possibly the last let the runner go
    /// on.
    pub open spec fn follows(
        self,
        apply: spec_fn(
            usize,
            S,
            G,
            Rewrite<G::Rule>,
            Vec<SearchMatches<G::Subst>>,
            S,
            G,
            usize,
        ) -> bool,
        iteration: usize,
        rewrites: Seq<Rewrite<G::Rule>>,
        matches: Seq<Vec<SearchMatches<G::Subst>>>,
    ) -> bool {
        let n = self.counts.len();
        &&& n <= rewrites.len()
        &&& n <= matches.len()
        &&& self.schedulers.len() == n + 1
        &&& self.egraphs.len() == n + 1
        &&& self.limits.len() == n + 1
        &&& self.checks.len() == n
        &&& forall|j: int|
            #![trigger self.counts[j]]
            0 <= j < n ==> apply(
                iteration,
                self.schedulers[j],
                self.egraphs[j],
                rewrites[j],
                matches[j],
                self.schedulers[j + 1],
                self.egraphs[j + 1],
                self.counts[j],
            ) && checked_at(
                self.limits[j],
                iteration,
                self.egraphs[j + 1],
                MemorySamplePhase::AfterRuleApplication,
                Some(rewrites[j].name),
                self.limits[j + 1],
                self.checks[j],
            )
        &&& forall|j: int| 0 <= j < n - 1 ==> (#[trigger] self.checks[j]) is Ok
    }

    /// What the last check said.
    pub open spec fn result(self) -> RunnerResult<()> {
        if self.checks.len() == 0 {
            Ok(())
        } else {
            self.checks.last()
        }
    }

    /// The trace with one more application and check.
    pub open spec fn longer(
        self,
        scheduler: S,
        egraph: G,
        limits: LimitsModel<G::Probe>,
        count: usize,
        check: RunnerResult<()>,
    ) -> Self {
        ApplyTrace {
            schedulers: self.schedulers.push(scheduler),
            egraphs: self.egraphs.push(egraph),
            limits: self.limits.push(limits),
            counts: self.counts.push(count),
            checks: self.checks.push(check),
        }
    }

    /// A trace that goes on may be followed by one more application and check.
    proof fn lemma_longer(
        self,
        apply: spec_fn(
            usize,
            S,
            G,
            Rewrite<G::Rule>,
            Vec<SearchMatches<G::Subst>>,
            S,
            G,
            usize,
        ) -> bool,
        iteration: usize,
        rewrites: Seq<Rewrite<G::Rule>>,
        matches: Seq<Vec<SearchMatches<G::Subst>>>,
        scheduler: S,
        egraph: G,
        limits: LimitsModel<G::Probe>,
        count: usize,
        check: RunnerResult<()>,
    )
        requires
            self.follows(apply, iteration, rewrites, matches),
            self.counts.len() < rewrites.len(),
            self.counts.len() < matches.len(),
            self.result() is Ok,
            apply(
                iteration,
                self.schedulers.last(),
                self.egraphs.last(),
                rewrites[self.counts.len() as int],
                matches[self.counts.len() as int],
                scheduler,
                egraph,
                count,
            ),
            checked_at(
                self.limits.last(),
                iteration,
                egraph,
                MemorySamplePhase::AfterRuleApplication,
                Some(rewrites[self.counts.len() as int].name),
                limits,
                check,
            ),
        ensures
            self.longer(scheduler, egraph, limits, count, check).follows(
                apply,
                iteration,
                rewrites,
                matches,
            ),
    {
        let longer = self.longer(scheduler, egraph, limits, count, check);
        assert forall|j: int| 0 <= j < longer.counts.len() implies apply(
            iteration,
            longer.schedulers[j],
            longer.egraphs[j],
            rewrites[j],
            matches[j],
            longer.schedulers[j + 1],
            longer.egraphs[j + 1],
            #[trigger] longer.counts[j],
        ) && checked_at(
            longer.limits[j],
            iteration,
            longer.egraphs[j + 1],
            MemorySamplePhase::AfterRuleApplication,
            Some(rewrites[j].name),
            longer.limits[j + 1],
            longer.checks[j],
        ) by {
            if j < self.counts.len() {
                assert(longer.counts[j] == self.counts[j]);
            }
        }
    }
}

/// How often each rule was newly applied. A rule that was not does not appear.
pub open spec fn tally<R>(rewrites: Seq<Rewrite<R>>, counts: Seq<usize>) -> Seq<(Seq<char>, usize)>
    decreases counts.len(),
{
    if counts.len() == 0 {
        Seq::empty()
    } else {
        let before = tally(rewrites, counts.drop_last());
        if counts.last() > 0 {
            counted(before, rewrites[counts.len() - 1].name@, counts.last())
        } else {
            before
        }
    }
}

/// What the applications of one iteration do: nothing where there already is a
/// reason to stop. Otherwise the rewrites are applied in order, as far as there
/// are matches for them, until a limit check says to stop.
pub open spec fn rules_applied<G: EGraph, S, H, D>(
    apply: spec_fn(
        usize,
        S,
        G,
        Rewrite<G::Rule>,
        Vec<SearchMatches<G::Subst>>,
        S,
        G,
        usize,
    ) -> bool,
    iteration: usize,
    rewrites: Seq<Rewrite<G::Rule>>,
    before: Runner<G, S, H, D>,
    start: RunnerResult<Vec<Vec<SearchMatches<G::Subst>>>>,
    after: Runner<G, S, H, D>,
    applied: Seq<(Seq<char>, usize)>,
    result: RunnerResult<()>,
) -> bool {
    match start {
        Err(reason) => after == before && applied.len() == 0 && result == Err::<(), StopReason>(
            reason,
        ),
        Ok(matches) => exists|trace: ApplyTrace<G, S>|
            {
                &&& #[trigger] trace.follows(apply, iteration, rewrites, matches@)
                &&& trace.schedulers.first() == before.scheduler
                &&& trace.egraphs.first() == before.egraph
                &&& trace.limits.first() == before.limits@
                &&& trace.schedulers.last() == after.scheduler
                &&& trace.egraphs.last() == after.egraph
                &&& trace.limits.last() == after.limits@
                &&& after.same_records(before)
                &&& applied == tally(rewrites, trace.counts)
                &&& result == trace.result()
                &&& result is Ok ==> trace.counts.len() == rewrites.len() || trace.counts.len()
                    == matches@.len()
            },
    }
}

/// What the search of one iteration does: nothing where there already is a
/// reason to stop. Otherwise the scheduler searches.
pub open spec fn rules_searched<G: EGraph, S, H, D>(
    search: spec_fn(
        usize,
        S,
        LimitsModel<G::Probe>,
        G,
        S,
        LimitsModel<G::Probe>,
        RunnerResult<Vec<Vec<SearchMatches<G::Subst>>>>,
    ) -> bool,
    iteration: usize,
    before: Runner<G, S, H, D>,
    start: RunnerResult<()>,
    after: Runner<G, S, H, D>,
    result: RunnerResult<Vec<Vec<SearchMatches<G::Subst>>>>,
) -> bool {
    match start {
        Err(reason) => after == before && result == Err::<
            Vec<Vec<SearchMatches<G::Subst>>>,
            StopReason,
        >(reason),
        Ok(()) => {
            &&& search(
                iteration,
                before.scheduler,
                before.limits@,
                before.egraph,
                after.scheduler,
                after.limits@,
                result,
            )
            &&& after.egraph == before.egraph
            &&& after.same_records(before)
        },
    }
}

/// What beginning an iteration does: the clock starts, unless it runs already,
/// the limits are checked and the scheduler's state is put on record.
pub open spec fn iteration_begun<G: EGraph, S: RewriteScheduler<G>, H, D>(
    iteration: usize,
    rewrites: Seq<Rewrite<G::Rule>>,
    before: Runner<G, S, H, D>,
    after: Runner<G, S, H, D>,
    result: RunnerResult<()>,
) -> bool {
    &&& exists|limits: LimitsModel<G::Probe>| #[trigger]
        started(before.limits@, limits) && begun(
            limits,
            iteration,
            before.egraph,
            after.limits@,
            result,
        )
    &&& snapshot_taken(
        iteration,
        rewrites.map_values(|rewrite: Rewrite<G::Rule>| rewrite.name),
        before.scheduler,
        after.scheduler_snapshot,
    )
    &&& after == (Runner {
        limits: after.limits,
        scheduler_snapshot: after.scheduler_snapshot,
        ..before
    })
}

/// `snapshot` is a snapshot that the scheduler can give of the named rules.
pub open spec fn snapshot_taken<S: Scheduler>(
    iteration: usize,
    names: Seq<Symbol>,
    scheduler: S,
    snapshot: SchedulerSnapshot,
) -> bool {
    exists|rewrites: &[Symbol]|
        rewrites@ == names && #[trigger] call_ensures(
            S::snapshot,
            (&scheduler, iteration, rewrites),
            snapshot,
        )
}

/// Whether an iteration leaves nothing to do, as far as the runner can see:
/// nothing said to stop, no rule was newly applied, and neither hooks nor rules
/// changed the size of the e-graph.
pub open spec fn nothing_new(
    result: RunnerResult<()>,
    applied: Seq<(Seq<char>, usize)>,
    at_start: GraphSize,
    after_hooks: GraphSize,
    at_end: GraphSize,
) -> bool {
    &&& result is Ok
    &&& applied.len() == 0
    &&& at_start == after_hooks
    &&& at_start == at_end
}

/// What ending an iteration does, once the e-graph is rebuilt: the limits are
/// checked. The first reason to stop counts. Without one the runner has
/// saturated if there is nothing new and the scheduler, which is asked only
/// then, agrees.
///
/// `check` is what the limit check says, and `at_end` the size of the e-graph.
pub open spec fn iteration_ended<G: EGraph, S, H, D>(
    can_stop: spec_fn(usize, S, S, bool) -> bool,
    iteration: usize,
    at_start: GraphSize,
    after_hooks: GraphSize,
    applied: Seq<(Seq<char>, usize)>,
    before: Runner<G, S, H, D>,
    start: RunnerResult<()>,
    after: Runner<G, S, H, D>,
    check: RunnerResult<()>,
    at_end: GraphSize,
    stop_reason: Option<StopReason>,
) -> bool {
    let result = ending(start, check);
    &&& after.egraph == before.egraph
    &&& after.same_records(before)
    &&& checked_at(
        before.limits@,
        iteration,
        after.egraph,
        MemorySamplePhase::AfterRebuildFinalization,
        None,
        after.limits@,
        check,
    )
    &&& measures(after.egraph, at_end)
    &&& if nothing_new(result, applied, at_start, after_hooks, at_end) {
        match stop_reason {
            Some(reason) => reason == StopReason::Saturated && can_stop(
                iteration,
                before.scheduler,
                after.scheduler,
                true,
            ),
            None => can_stop(iteration, before.scheduler, after.scheduler, false),
        }
    } else {
        after.scheduler == before.scheduler && stop_reason == reason_of(result)
    }
}

/// The result of an iteration: the first reason to stop, if there is one.
pub open spec fn ending(start: RunnerResult<()>, check: RunnerResult<()>) -> RunnerResult<()> {
    if start is Ok {
        check
    } else {
        start
    }
}

/// The reason to stop, if there is one.
pub open spec fn reason_of(result: RunnerResult<()>) -> Option<StopReason> {
    match result {
        Ok(()) => None,
        Err(reason) => Some(reason),
    }
}

/// What the calls that a runner makes may do. Each relates the state before a
/// call to the state after it and to what the call returned.
#[verifier::reject_recursive_types(G)]
#[verifier::reject_recursive_types(S)]
#[verifier::reject_recursive_types(H)]
#[verifier::reject_recursive_types(D)]
pub struct Calls<G: EGraph, S, H, D> {
    /// A call of a hook.
    pub hook: spec_fn(H, Runner<G, S, H, D>, H, Runner<G, S, H, D>, Result<(), String>) -> bool,
    /// A search of all rules.
    pub search: spec_fn(
        usize,
        S,
        LimitsModel<G::Probe>,
        G,
        S,
        LimitsModel<G::Probe>,
        RunnerResult<Vec<Vec<SearchMatches<G::Subst>>>>,
    ) -> bool,
    /// The application of a rule.
    pub apply: spec_fn(
        usize,
        S,
        G,
        Rewrite<G::Rule>,
        Vec<SearchMatches<G::Subst>>,
        S,
        G,
        usize,
    ) -> bool,
    /// A rebuild of the e-graph.
    pub rebuild: spec_fn(G, G, usize) -> bool,
    /// The question whether the runner may say it has saturated.
    pub can_stop: spec_fn(usize, S, S, bool) -> bool,
}

/// How an iteration ended.
#[derive(Debug)]
pub struct IterationEnd {
    /// What the last limit check said.
    pub check: RunnerResult<()>,
    /// The size of the e-graph at the end.
    pub at_end: GraphSize,
    /// The iteration's reason to stop, if there is one.
    pub stop_reason: Option<StopReason>,
}

/// The readings of the clock in one iteration.
#[derive(Debug, Clone, Copy)]
pub struct Readings {
    /// When the iteration starts.
    pub start: u64,
    /// When the hooks start.
    pub hook_start: u64,
    /// When the hooks have run.
    pub hook_end: u64,
    /// When the search starts.
    pub search_start: u64,
    /// When the rules have been searched.
    pub search_end: u64,
    /// When the first rule is applied.
    pub apply_start: u64,
    /// When the rules have been applied.
    pub apply_end: u64,
    /// When the rebuild starts.
    pub rebuild_start: u64,
    /// When the e-graph has been rebuilt.
    pub rebuild_end: u64,
    /// When the iteration's data has been made.
    pub end: u64,
}

/// The times of one iteration.
#[derive(Debug, Clone, Copy, PartialEq, Eq)]
pub struct IterationTimes {
    /// The time spent running hooks.
    pub hook: u64,
    /// The time spent searching.
    pub search: u64,
    /// The time spent applying rules.
    pub apply: u64,
    /// The time spent rebuilding the e-graph.
    pub rebuild: u64,
    /// The time spent in all.
    pub total: u64,
}

impl Readings {
    /// No reading is earlier than the one before it.
    pub open spec fn in_order(self) -> bool {
        self.start <= self.hook_start <= self.hook_end <= self.search_start <= self.search_end
            <= self.apply_start <= self.apply_end <= self.rebuild_start <= self.rebuild_end
            <= self.end
    }

    /// The times between these readings.
    pub fn times(&self) -> (r: IterationTimes)
        ensures
            r.hook == elapsed_since(self.hook_start, self.hook_end),
            r.search == elapsed_since(self.search_start, self.search_end),
            r.apply == elapsed_since(self.apply_start, self.apply_end),
            r.rebuild == elapsed_since(self.rebuild_start, self.rebuild_end),
            r.total == elapsed_since(self.start, self.end),
    {
        IterationTimes {
            hook: self.hook_end.saturating_sub(self.hook_start),
            search: self.search_end.saturating_sub(self.search_start),
            apply: self.apply_end.saturating_sub(self.apply_start),
            rebuild: self.rebuild_end.saturating_sub(self.rebuild_start),
            total: self.end.saturating_sub(self.start),
        }
    }

    /// The times of an iteration are those between these readings.
    pub open spec fn time<D>(self, record: Iteration<D>) -> bool {
        &&& record.hook_time == elapsed_since(self.hook_start, self.hook_end)
        &&& record.search_time == elapsed_since(self.search_start, self.search_end)
        &&& record.apply_time == elapsed_since(self.apply_start, self.apply_end)
        &&& record.rebuild_time == elapsed_since(self.rebuild_start, self.rebuild_end)
        &&& record.total_time == elapsed_since(self.start, self.end)
    }
}

/// The states that a runner goes through in one iteration, each reached from the one
/// before it.
pub struct Moments<G: EGraph, S, H, D> {
    /// The clock has been read for the start of the iteration.
    pub opened: Runner<G, S, H, D>,
    /// The iteration has begun.
    pub begun: Runner<G, S, H, D>,
    /// The clock has been read for the start of the hooks.
    pub hook_from: Runner<G, S, H, D>,
    /// The hooks have run.
    pub hooked: Runner<G, S, H, D>,
    /// The clock has been read for the end of the hooks.
    pub hook_to: Runner<G, S, H, D>,
    /// The clock has been read for the start of the search.
    pub search_from: Runner<G, S, H, D>,
    /// The rules have been searched.
    pub searched: Runner<G, S, H, D>,
    /// The clock has been read for the end of the search.
    pub search_to: Runner<G, S, H, D>,
    /// The clock has been read for the start of the applications.
    pub apply_from: Runner<G, S, H, D>,
    /// The rules have been applied.
    pub applied: Runner<G, S, H, D>,
    /// The clock has been read for the end of the applications.
    pub apply_to: Runner<G, S, H, D>,
    /// The clock has been read for the start of the rebuild.
    pub rebuild_from: Runner<G, S, H, D>,
    /// The e-graph has been rebuilt.
    pub rebuilt: Runner<G, S, H, D>,
    /// The clock has been read for the end of the rebuild.
    pub rebuild_to: Runner<G, S, H, D>,
    /// The limits have been checked for the last time. The iteration's data is made
    /// of this state.
    pub ended: Runner<G, S, H, D>,
    /// The size of the e-graph at the start.
    pub at_start: GraphSize,
    /// The size of the e-graph when the hooks have run.
    pub after_hooks: GraphSize,
    /// The size of the e-graph when it has been rebuilt.
    pub at_end: GraphSize,
    /// What the clock showed.
    pub readings: Readings,
    /// The result when the iteration has begun.
    pub begin_result: RunnerResult<()>,
    /// The result when the hooks have run.
    pub hook_result: RunnerResult<()>,
    /// The result when the rules have been searched.
    pub search_result: RunnerResult<Vec<Vec<SearchMatches<G::Subst>>>>,
    /// The result when the rules have been applied.
    pub apply_result: RunnerResult<()>,
    /// What the last limit check says.
    pub final_check: RunnerResult<()>,
}

impl<G: EGraph, S: RewriteScheduler<G>, H, D> Moments<G, S, H, D> {
    /// The clock was read in these states, and nothing else happened there.
    pub open spec fn clocked(
        self,
        before: Runner<G, S, H, D>,
        after: Runner<G, S, H, D>,
    ) -> bool {
        &&& clock_read(before, self.readings.start, self.opened)
        &&& clock_read(self.begun, self.readings.hook_start, self.hook_from)
        &&& clock_read(self.hooked, self.readings.hook_end, self.hook_to)
        &&& clock_read(self.hook_to, self.readings.search_start, self.search_from)
        &&& clock_read(self.searched, self.readings.search_end, self.search_to)
        &&& clock_read(self.search_to, self.readings.apply_start, self.apply_from)
        &&& clock_read(self.applied, self.readings.apply_end, self.apply_to)
        &&& clock_read(self.apply_to, self.readings.rebuild_start, self.rebuild_from)
        &&& clock_read(self.rebuilt, self.readings.rebuild_end, self.rebuild_to)
        &&& clock_read(self.ended, self.readings.end, after)
    }

    /// These are the states between `before` and `after`, and `record` is what
    /// is recorded of them.
    pub open spec fn explain(
        self,
        calls: Calls<G, S, H, D>,
        rewrites: Seq<Rewrite<G::Rule>>,
        before: Runner<G, S, H, D>,
        after: Runner<G, S, H, D>,
        record: Iteration<D>,
    ) -> bool {
        let iteration = before.iterations.len();
        let applied = count_entries(record.applied);
        &&& self.clocked(before, after)
        &&& iteration_begun(iteration, rewrites, self.opened, self.begun, self.begin_result)
        &&& measures(before.egraph, self.at_start)
        &&& hooks_ran(
            calls.hook,
            self.hook_from,
            self.begin_result,
            self.hooked,
            self.hook_result,
        )
        &&& measures(self.hooked.egraph, self.after_hooks)
        &&& rules_searched(
            calls.search,
            iteration,
            self.search_from,
            self.hook_result,
            self.searched,
            self.search_result,
        )
        &&& rules_applied(
            calls.apply,
            iteration,
            rewrites,
            self.apply_from,
            self.search_result,
            self.applied,
            applied,
            self.apply_result,
        )
        &&& (calls.rebuild)(self.rebuild_from.egraph, self.rebuilt.egraph, record.n_rebuilds)
        &&& self.rebuilt == (Runner { egraph: self.rebuilt.egraph, ..self.rebuild_from })
        &&& iteration_ended(
            calls.can_stop,
            iteration,
            self.at_start,
            self.after_hooks,
            applied,
            self.rebuild_to,
            self.apply_result,
            self.ended,
            self.final_check,
            self.at_end,
            record.stop_reason,
        )
        &&& self.readings.time(record)
        &&& record.egraph_nodes == self.at_start.nodes
        &&& record.egraph_classes == self.at_start.classes
    }
}

/// One iteration can take the runner from `before` to `after` and leave `record`.
pub open spec fn iterated<
    G: EGraph,
    S: RewriteScheduler<G>,
    H,
    D: IterationData<G, S, H>,
>(
    calls: Calls<G, S, H, D>,
    rewrites: Seq<Rewrite<G::Rule>>,
    before: Runner<G, S, H, D>,
    after: Runner<G, S, H, D>,
    record: Iteration<D>,
) -> bool {
    exists|moments: Moments<G, S, H, D>| #[trigger]
        moments.explain(calls, rewrites, before, after, record) && call_ensures(
            D::make,
            (&moments.ended,),
            record.data,
        )
}

impl<G: EGraph, S: RewriteScheduler<G>, H: Hook<G, S, D>, D: IterationData<G, S, H>> Runner<
    G,
    S,
    H,
    D,
> {
    /// The time that the clock shows.
    pub fn read_clock(&mut self) -> (r: u64)
        ensures
            clock_read(*old(self), r, *final(self)),
    {
        self.limits.read_clock()
    }

    /// Begins an iteration.
    pub fn begin_iteration(&mut self, iteration: usize, rules: &[Rewrite<G::Rule>]) -> (r:
        RunnerResult<()>)
        ensures
            iteration_begun(iteration, rules@, *old(self), *final(self), r),
            final(self).limits@.start_time is Some,
    {
        self.limits.try_start();
        let ghost limits = self.limits@;
        let result = self.limits.begin_iteration(iteration, &self.egraph);
        let names = rule_names(rules);
        self.scheduler_snapshot = self.scheduler.snapshot(iteration, names.as_slice());
        assert(started(old(self).limits@, limits));
        result
    }

    /// Runs the hooks of one iteration.
    pub fn run_hooks(&mut self, start: RunnerResult<()>) -> (r: RunnerResult<()>)
        ensures
            hooks_ran(
                |
                    hook: H,
                    runner: Runner<G, S, H, D>,
                    hook_after: H,
                    runner_after: Runner<G, S, H, D>,
                    outcome: Result<(), String>,
                |
                    exists|h: &mut H, m: &mut Runner<G, S, H, D>|
                        *h == hook && *final(h) == hook_after && *m == runner && *final(m)
                            == runner_after && #[trigger] call_ensures(H::call, (h, m), outcome),
                *old(self),
                start,
                *final(self),
                r,
            ),
            final(self).iterations@.len() == old(self).iterations@.len(),
            old(self).stop_reason is None ==> final(self).stop_reason is None,
            final(self).limits@.same_settings(old(self).limits@),
    {
        match start {
            Err(reason) => {
                return Err(reason);
            },
            Ok(()) => {},
        }
        let mut hooks: Vec<H> = Vec::new();
        std::mem::swap(&mut hooks, &mut self.hooks);
        let ghost all = hooks@;
        let ghost mut trace = HookTrace::<G, S, H, D> {
            runners: seq![*self],
            hooks: seq![],
            outcomes: seq![],
        };
        let ghost call = |
            hook: H,
            runner: Runner<G, S, H, D>,
            hook_after: H,
            runner_after: Runner<G, S, H, D>,
            outcome: Result<(), String>,
        |
            exists|h: &mut H, m: &mut Runner<G, S, H, D>|
                *h == hook && *final(h) == hook_after && *m == runner && *final(m) == runner_after
                    && #[trigger] call_ensures(H::call, (h, m), outcome);
        let mut result: RunnerResult<()> = Ok(());
        let mut i: usize = 0;
        #[verifier::loop_isolation(false)]
        while i < hooks.len() && result.is_ok()
            invariant
                i <= hooks.len(),
                all == old(self).hooks@,
                hooks.len() == all.len(),
                trace.follows(call, all),
                trace.runners.first().same_but_hooks(*old(self)),
                trace.runners.first().hooks@.len() == 0,
                trace.runners.last() == *self,
                trace.outcomes.len() == i,
                hooks@ == trace.hooks + all.skip(i as int),
                result == trace.result(),
                self.iterations@.len() == old(self).iterations@.len(),
                old(self).stop_reason is None ==> self.stop_reason is None,
                self.limits@.same_settings(old(self).limits@),
            decreases hooks.len() - i,
        {
            let ghost hook_before = hooks@[i as int];
            assert(hook_before == all[i as int]);
            let hook = &mut hooks[i];
            let outcome = hook.call(self);
            proof {
                trace.lemma_longer(call, all, *self, hooks@[i as int], outcome);
                trace = trace.longer(*self, hooks@[i as int], outcome);
                assert(hooks@ =~= trace.hooks + all.skip(i + 1));
            }
            match outcome {
                Ok(()) => {},
                Err(message) => {
                    result = Err(StopReason::Other(message));
                },
            }
            i += 1;
        }
        self.hooks = hooks;
        result
    }

    /// Lets the scheduler search.
    pub fn search_rules(
        &mut self,
        iteration: usize,
        rules: &[Rewrite<G::Rule>],
        start: RunnerResult<()>,
    ) -> (r: RunnerResult<Vec<Vec<SearchMatches<G::Subst>>>>)
        requires
            old(self).limits@.start_time is Some,
        ensures
            rules_searched(
                |
                    iteration: usize,
                    scheduler: S,
                    limits: LimitsModel<G::Probe>,
                    egraph: G,
                    scheduler_after: S,
                    limits_after: LimitsModel<G::Probe>,
                    result: RunnerResult<Vec<Vec<SearchMatches<G::Subst>>>>,
                |
                    exists|s: &mut S, l: &mut RunnerLimits<G::Probe>|
                        *s == scheduler && *final(s) == scheduler_after && l@ == limits
                            && final(l)@ == limits_after && #[trigger] call_ensures(
                            S::search_rewrites,
                            (s, iteration, &egraph, rules, l),
                            result,
                        ),
                iteration,
                *old(self),
                start,
                *final(self),
                r,
            ),
            final(self).limits@.same_settings(old(self).limits@),
    {
        match start {
            Err(reason) => Err(reason),
            Ok(()) => self.scheduler.search_rewrites(
                iteration,
                &self.egraph,
                rules,
                &mut self.limits,
            ),
        }
    }

    /// Applies the rules at their matches.
    pub fn apply_rules(
        &mut self,
        iteration: usize,
        rules: &[Rewrite<G::Rule>],
        start: RunnerResult<Vec<Vec<SearchMatches<G::Subst>>>>,
    ) -> (r: (IndexMap<Symbol, usize>, RunnerResult<()>))
        requires
            old(self).limits@.start_time is Some,
        ensures
            rules_applied(
                |
                    iteration: usize,
                    scheduler: S,
                    egraph: G,
                    rewrite: Rewrite<G::Rule>,
                    matches: Vec<SearchMatches<G::Subst>>,
                    scheduler_after: S,
                    egraph_after: G,
                    count: usize,
                |
                    exists|s: &mut S, g: &mut G|
                        *s == scheduler && *final(s) == scheduler_after && *g == egraph
                            && *final(g) == egraph_after && #[trigger] call_ensures(
                            S::apply_rewrite,
                            (s, iteration, g, &rewrite, matches),
                            count,
                        ),
                iteration,
                rules@,
                *old(self),
                start,
                *final(self),
                count_entries(r.0),
                r.1,
            ),
            final(self).limits@.same_settings(old(self).limits@),
    {
        let mut applied = count_new();
        let mut matches: Vec<Vec<SearchMatches<G::Subst>>> = match start {
            Err(reason) => {
                return (applied, Err(reason));
            },
            Ok(matches) => matches,
        };
        let ghost all = matches@;
        let ghost apply = |
            iteration: usize,
            scheduler: S,
            egraph: G,
            rewrite: Rewrite<G::Rule>,
            matches: Vec<SearchMatches<G::Subst>>,
            scheduler_after: S,
            egraph_after: G,
            count: usize,
        |
            exists|s: &mut S, g: &mut G|
                *s == scheduler && *final(s) == scheduler_after && *g == egraph
                    && *final(g) == egraph_after
                    && #[trigger] call_ensures(
                    S::apply_rewrite,
                    (s, iteration, g, &rewrite, matches),
                    count,
                );
        let ghost mut trace = ApplyTrace::<G, S> {
            schedulers: seq![self.scheduler],
            egraphs: seq![self.egraph],
            limits: seq![self.limits@],
            counts: seq![],
            checks: seq![],
        };
        let mut result: RunnerResult<()> = Ok(());
        let mut i: usize = 0;
        #[verifier::loop_isolation(false)]
        while i < rules.len() && i < matches.len() && result.is_ok()
            invariant
                i <= rules.len(),
                i <= matches.len(),
                matches.len() == all.len(),
                forall|j: int| i <= j < all.len() ==> #[trigger] matches@[j] == all[j],
                trace.follows(apply, iteration, rules@, all),
                trace.counts.len() == i,
                trace.schedulers.first() == old(self).scheduler,
                trace.egraphs.first() == old(self).egraph,
                trace.limits.first() == old(self).limits@,
                trace.schedulers.last() == self.scheduler,
                trace.egraphs.last() == self.egraph,
                trace.limits.last() == self.limits@,
                self.same_records(*old(self)),
                count_entries(applied) == tally(rules@, trace.counts),
                result == trace.result(),
                self.limits@.same_settings(old(self).limits@),
            decreases rules.len() - i,
        {
            let rewrite = &rules[i];
            let mut ms: Vec<SearchMatches<G::Subst>> = Vec::new();
            std::mem::swap(&mut ms, &mut matches[i]);
            assert(ms == all[i as int]);
            let count = self.scheduler.apply_rewrite(iteration, &mut self.egraph, rewrite, ms);
            if count > 0 {
                add_count(&mut applied, &rewrite.name, count);
            }
            result = self.limits.check_limits_at(
                iteration,
                &self.egraph,
                MemorySamplePhase::AfterRuleApplication,
                Some(rewrite.name.clone()),
            );
            proof {
                trace.lemma_longer(
                    apply,
                    iteration,
                    rules@,
                    all,
                    self.scheduler,
                    self.egraph,
                    self.limits@,
                    count,
                    result,
                );
                let longer = trace.longer(
                    self.scheduler,
                    self.egraph,
                    self.limits@,
                    count,
                    result,
                );
                assert(longer.counts.drop_last() =~= trace.counts);
                trace = longer;
            }
            i += 1;
        }
        (applied, result)
    }

    /// Ends an iteration, once the e-graph is rebuilt.
    pub fn end_iteration(
        &mut self,
        iteration: usize,
        at_start: GraphSize,
        after_hooks: GraphSize,
        applied: &IndexMap<Symbol, usize>,
        start: RunnerResult<()>,
    ) -> (r: IterationEnd)
        requires
            old(self).limits@.start_time is Some,
        ensures
            iteration_ended(
                |iteration: usize, scheduler: S, scheduler_after: S, stop: bool|
                    exists|s: &mut S|
                        *s == scheduler && *final(s) == scheduler_after
                            && #[trigger] call_ensures(S::can_stop, (s, iteration), stop),
                iteration,
                at_start,
                after_hooks,
                count_entries(*applied),
                *old(self),
                start,
                *final(self),
                r.check,
                r.at_end,
                r.stop_reason,
            ),
            final(self).limits@.same_settings(old(self).limits@),
    {
        let ghost can_stop = |iteration: usize, scheduler: S, scheduler_after: S, stop: bool|
            exists|s: &mut S|
                *s == scheduler && *final(s) == scheduler_after && #[trigger] call_ensures(
                    S::can_stop,
                    (s, iteration),
                    stop,
                );
        let check = self.limits.check_limits_at(
            iteration,
            &self.egraph,
            MemorySamplePhase::AfterRebuildFinalization,
            None,
        );
        let result = match start {
            Ok(()) => match &check {
                Ok(()) => Ok(()),
                Err(reason) => Err(reason.clone()),
            },
            Err(reason) => Err(reason),
        };
        assert(result == ending(start, check));
        let at_end = measure(&self.egraph);
        let stop_reason = if result.is_ok() && count_len(applied) == 0 && at_start.nodes
            == after_hooks.nodes && at_start.classes == after_hooks.classes && at_start.nodes
            == at_end.nodes && at_start.classes == at_end.classes {
            let stop = self.scheduler.can_stop(iteration);
            assert(can_stop(iteration, old(self).scheduler, self.scheduler, stop));
            if stop {
                Some(StopReason::Saturated)
            } else {
                None
            }
        } else {
            match result {
                Ok(()) => None,
                Err(reason) => Some(reason),
            }
        };
        IterationEnd { check, at_end, stop_reason }
    }

    /// Runs one iteration.
    pub fn run_one(&mut self, rules: &[Rewrite<G::Rule>]) -> (r: Iteration<D>)
        requires
            old(self).stop_reason is None,
        ensures
            iterated(
                Calls {
                    hook: |
                        hook: H,
                        runner: Runner<G, S, H, D>,
                        hook_after: H,
                        runner_after: Runner<G, S, H, D>,
                        outcome: Result<(), String>,
                    |
                        exists|h: &mut H, m: &mut Runner<G, S, H, D>|
                            *h == hook && *final(h) == hook_after && *m == runner
                                && *final(m) == runner_after
                                && #[trigger] call_ensures(H::call, (h, m), outcome),
                    search: |
                        iteration: usize,
                        scheduler: S,
                        limits: LimitsModel<G::Probe>,
                        egraph: G,
                        scheduler_after: S,
                        limits_after: LimitsModel<G::Probe>,
                        result: RunnerResult<Vec<Vec<SearchMatches<G::Subst>>>>,
                    |
                        exists|s: &mut S, l: &mut RunnerLimits<G::Probe>|
                            *s == scheduler && *final(s) == scheduler_after && l@ == limits
                                && final(l)@ == limits_after && #[trigger] call_ensures(
                                S::search_rewrites,
                                (s, iteration, &egraph, rules, l),
                                result,
                            ),
                    apply: |
                        iteration: usize,
                        scheduler: S,
                        egraph: G,
                        rewrite: Rewrite<G::Rule>,
                        matches: Vec<SearchMatches<G::Subst>>,
                        scheduler_after: S,
                        egraph_after: G,
                        count: usize,
                    |
                        exists|s: &mut S, g: &mut G|
                            *s == scheduler && *final(s) == scheduler_after && *g == egraph
                                && *final(g) == egraph_after && #[trigger] call_ensures(
                                S::apply_rewrite,
                                (s, iteration, g, &rewrite, matches),
                                count,
                            ),
                    rebuild: |egraph: G, egraph_after: G, n: usize|
                        exists|g: &mut G|
                            *g == egraph && *final(g) == egraph_after && #[trigger] call_ensures(
                                G::rebuild,
                                (g,),
                                n,
                            ),
                    can_stop: |iteration: usize, scheduler: S, scheduler_after: S, stop: bool|
                        exists|s: &mut S|
                            *s == scheduler && *final(s) == scheduler_after
                                && #[trigger] call_ensures(
                                S::can_stop,
                                (s, iteration),
                                stop,
                            ),
                },
                rules@,
                *old(self),
                *final(self),
                r,
            ),
            final(self).iterations@.len() == old(self).iterations@.len(),
            final(self).stop_reason is None,
            final(self).limits@.start_time is Some,
            final(self).limits@.same_limits(old(self).limits@),
    {
        let ghost calls = Calls {
            hook: |
                hook: H,
                runner: Runner<G, S, H, D>,
                hook_after: H,
                runner_after: Runner<G, S, H, D>,
                outcome: Result<(), String>,
            |
                exists|h: &mut H, m: &mut Runner<G, S, H, D>|
                    *h == hook && *final(h) == hook_after && *m == runner
                        && *final(m) == runner_after
                        && #[trigger] call_ensures(H::call, (h, m), outcome),
            search: |
                iteration: usize,
                scheduler: S,
                limits: LimitsModel<G::Probe>,
                egraph: G,
                scheduler_after: S,
                limits_after: LimitsModel<G::Probe>,
                result: RunnerResult<Vec<Vec<SearchMatches<G::Subst>>>>,
            |
                exists|s: &mut S, l: &mut RunnerLimits<G::Probe>|
                    *s == scheduler && *final(s) == scheduler_after && l@ == limits
                        && final(l)@ == limits_after
                        && #[trigger] call_ensures(
                        S::search_rewrites,
                        (s, iteration, &egraph, rules, l),
                        result,
                    ),
            apply: |
                iteration: usize,
                scheduler: S,
                egraph: G,
                rewrite: Rewrite<G::Rule>,
                matches: Vec<SearchMatches<G::Subst>>,
                scheduler_after: S,
                egraph_after: G,
                count: usize,
            |
                exists|s: &mut S, g: &mut G|
                    *s == scheduler && *final(s) == scheduler_after && *g == egraph
                        && *final(g) == egraph_after
                        && #[trigger] call_ensures(
                        S::apply_rewrite,
                        (s, iteration, g, &rewrite, matches),
                        count,
                    ),
            rebuild: |egraph: G, egraph_after: G, n: usize|
                exists|g: &mut G|
                    *g == egraph && *final(g) == egraph_after && #[trigger] call_ensures(
                        G::rebuild,
                        (g,),
                        n,
                    ),
            can_stop: |iteration: usize, scheduler: S, scheduler_after: S, stop: bool|
                exists|s: &mut S|
                    *s == scheduler && *final(s) == scheduler_after && #[trigger] call_ensures(
                        S::can_stop,
                        (s, iteration),
                        stop,
                    ),
        };
        let i = self.iterations.len();
        let start = self.read_clock();
        let ghost opened = *self;
        let begin_result = self.begin_iteration(i, rules);
        let ghost begun = *self;
        let ghost began = begin_result;
        let at_start = measure(&self.egraph);
        let hook_start = self.read_clock();
        let ghost hook_from = *self;
        let hook_result = self.run_hooks(begin_result);
        let ghost hooked = *self;
        let hook_end = self.read_clock();
        let ghost hook_to = *self;
        let ghost hooks_said = hook_result;
        let after_hooks = measure(&self.egraph);
        let search_start = self.read_clock();
        let ghost search_from = *self;
        let search_result = self.search_rules(i, rules, hook_result);
        let ghost searched = *self;
        let search_end = self.read_clock();
        let ghost search_to = *self;
        let ghost found = search_result;
        let apply_start = self.read_clock();
        let ghost apply_from = *self;
        let (applied, apply_result) = self.apply_rules(i, rules, search_result);
        let ghost applied_state = *self;
        let apply_end = self.read_clock();
        let ghost apply_to = *self;
        let ghost apply_said = apply_result;
        let rebuild_start = self.read_clock();
        let ghost rebuild_from = *self;
        let n_rebuilds = self.egraph.rebuild();
        assert((calls.rebuild)(rebuild_from.egraph, self.egraph, n_rebuilds));
        let ghost rebuilt = *self;
        let rebuild_end = self.read_clock();
        let ghost rebuild_to = *self;
        let ending = self.end_iteration(i, at_start, after_hooks, &applied, apply_result);
        let ghost ended = *self;
        let ghost end_said = ending;
        let data = D::make(&*self);
        let end = self.read_clock();
        let readings = Readings {
            start,
            hook_start,
            hook_end,
            search_start,
            search_end,
            apply_start,
            apply_end,
            rebuild_start,
            rebuild_end,
            end,
        };
        let times = readings.times();
        let record = Iteration {
            applied,
            egraph_nodes: at_start.nodes,
            egraph_classes: at_start.classes,
            hook_time: times.hook,
            search_time: times.search,
            apply_time: times.apply,
            rebuild_time: times.rebuild,
            n_rebuilds,
            data,
            total_time: times.total,
            stop_reason: ending.stop_reason,
        };
        proof {
            let moments = Moments::<G, S, H, D> {
                opened,
                begun,
                hook_from,
                hooked,
                hook_to,
                search_from,
                searched,
                search_to,
                apply_from,
                applied: applied_state,
                apply_to,
                rebuild_from,
                rebuilt,
                rebuild_to,
                ended,
                at_start,
                after_hooks,
                at_end: end_said.at_end,
                readings,
                begin_result: began,
                hook_result: hooks_said,
                search_result: found,
                apply_result: apply_said,
                final_check: end_said.check,
            };
            assert(moments.explain(calls, rules@, *old(self), *self, record));
        }
        record
    }
}

} // verus!
