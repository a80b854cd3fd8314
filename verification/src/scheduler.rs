//! Choosing which rules to search in which iteration.

use vstd::prelude::*;
use crate::egraph::{EGraph, Id, Probe, Rewrite, SearchMatches, Symbol};
use crate::limits::{checked_at, LimitsModel, RunnerLimits, RunnerResult, StopReason};
use crate::memory::MemorySamplePhase;
use crate::snapshot::{SchedulerSnapshot, SchedulerStats};

verus! {

/// One search after the other, each followed by a limit check.
pub struct SearchTrace<S, T, P> {
    /// The scheduler before the first search and after each.
    pub schedulers: Seq<S>,
    /// The limits before the first search and after each check.
    pub limits: Seq<LimitsModel<P>>,
    /// What each search handed on.
    pub matches: Seq<Vec<SearchMatches<T>>>,
    /// What each check said.
    pub checks: Seq<RunnerResult<()>>,
}

impl<S, T, P: Probe> SearchTrace<S, T, P> {
    /// The trace has gone through the first rewrites by steps of `search`, and
    /// all its checks but possibly the last let the search go on.
    pub open spec fn follows<G: EGraph>(
        self,
        search: spec_fn(S, Rewrite<G::Rule>, S, Seq<SearchMatches<T>>) -> bool,
        iteration: usize,
        egraph: G,
        rewrites: Seq<Rewrite<G::Rule>>,
    ) -> bool {
        let n = self.matches.len();
        &&& n <= rewrites.len()
        &&& self.schedulers.len() == n + 1
        &&& self.limits.len() == n + 1
        &&& self.checks.len() == n
        &&& forall|j: int|
            #![trigger self.matches[j]]
            0 <= j < n ==> search(
                self.schedulers[j],
                rewrites[j],
                self.schedulers[j + 1],
                self.matches[j]@,
            ) && checked_at(
                self.limits[j],
                iteration,
                egraph,
                MemorySamplePhase::AfterRuleSearch,
                Some(rewrites[j].name),
                self.limits[j + 1],
                self.checks[j],
            )
        &&& forall|j: int| 0 <= j < n - 1 ==> (#[trigger] self.checks[j]) is Ok
    }

    /// The trace with one more search and check.
    pub open spec fn longer(
        self,
        scheduler: S,
        limits: LimitsModel<P>,
        matches: Vec<SearchMatches<T>>,
        check: RunnerResult<()>,
    ) -> Self {
        SearchTrace {
            schedulers: self.schedulers.push(scheduler),
            limits: self.limits.push(limits),
            matches: self.matches.push(matches),
            checks: self.checks.push(check),
        }
    }

    /// A trace that goes on may be followed by one more search and check.
    proof fn lemma_longer<G: EGraph>(
        self,
        search: spec_fn(S, Rewrite<G::Rule>, S, Seq<SearchMatches<T>>) -> bool,
        iteration: usize,
        egraph: G,
        rewrites: Seq<Rewrite<G::Rule>>,
        scheduler: S,
        limits: LimitsModel<P>,
        matches: Vec<SearchMatches<T>>,
        check: RunnerResult<()>,
    )
        requires
            self.follows(search, iteration, egraph, rewrites),
            self.matches.len() < rewrites.len(),
            self.checks.len() > 0 ==> self.checks.last() is Ok,
            search(
                self.schedulers.last(),
                rewrites[self.matches.len() as int],
                scheduler,
                matches@,
            ),
            checked_at(
                self.limits.last(),
                iteration,
                egraph,
                MemorySamplePhase::AfterRuleSearch,
                Some(rewrites[self.matches.len() as int].name),
                limits,
                check,
            ),
        ensures
            self.longer(scheduler, limits, matches, check).follows(
                search,
                iteration,
                egraph,
                rewrites,
            ),
    {
        let longer = self.longer(scheduler, limits, matches, check);
        assert forall|j: int| 0 <= j < longer.matches.len() implies search(
            longer.schedulers[j],
            rewrites[j],
            longer.schedulers[j + 1],
            (#[trigger] longer.matches[j])@,
        ) && checked_at(
            longer.limits[j],
            iteration,
            egraph,
            MemorySamplePhase::AfterRuleSearch,
            Some(rewrites[j].name),
            longer.limits[j + 1],
            longer.checks[j],
        ) by {
            if j < self.matches.len() {
                assert(longer.matches[j] == self.matches[j]);
            }
        }
    }
}

/// The rewrites were searched in order by steps of `search`, with a limit check
/// behind each, until a check said to stop. The result is all that was handed
/// on, or the reason to stop.
pub open spec fn searched_in_turn<S, G: EGraph>(
    search: spec_fn(S, Rewrite<G::Rule>, S, Seq<SearchMatches<G::Subst>>) -> bool,
    before: S,
    limits_before: LimitsModel<G::Probe>,
    iteration: usize,
    egraph: G,
    rewrites: Seq<Rewrite<G::Rule>>,
    after: S,
    limits_after: LimitsModel<G::Probe>,
    result: RunnerResult<Vec<Vec<SearchMatches<G::Subst>>>>,
) -> bool {
    exists|trace: SearchTrace<S, G::Subst, G::Probe>|
        {
            &&& #[trigger] trace.follows(search, iteration, egraph, rewrites)
            &&& trace.schedulers.first() == before
            &&& trace.limits.first() == limits_before
            &&& trace.schedulers.last() == after
            &&& trace.limits.last() == limits_after
            &&& match result {
                Ok(matches) => {
                    &&& matches@ == trace.matches
                    &&& trace.matches.len() == rewrites.len()
                    &&& trace.checks.len() > 0 ==> trace.checks.last() is Ok
                },
                Err(reason) => {
                    &&& trace.checks.len() > 0
                    &&& trace.checks.last() == Err::<(), StopReason>(reason)
                },
            }
        }
}

/// How a scheduler keeps track of rules, by their names.
pub trait Scheduler: Sized {
    /// Aggregate-only introspection. [`Self::snapshot`] includes the exact
    /// per-rule search state.
    fn stats(&self, iteration: usize) -> (r: SchedulerStats)
        default_ensures
            r == (SchedulerStats {
                n_banned: 0,
                n_unbanned_this_iter: 0,
                min_ban_remaining: 0,
                total_times_banned: 0,
            }),
    {
        SchedulerStats::default()
    }

    /// Return a read-only snapshot of scheduler state for the iteration that
    /// is about to search.
    ///
    /// The default identifies itself as a generic scheduler and reports every
    /// rule active with no finite match threshold.
    fn snapshot(&self, iteration: usize, rewrites: &[Symbol]) -> (r: SchedulerSnapshot)
        default_ensures
            r.is_generic(rewrites@),
    {
        SchedulerSnapshot::generic(iteration, rewrites)
    }

    /// Whether or not the runner is allowed to say it has saturated.
    ///
    /// This is only called when the runner is otherwise saturated.
    /// Default implementation just returns `true`.
    fn can_stop(&mut self, iteration: usize) -> (r: bool)
        default_ensures
            r,
            *final(self) == *old(self),
    {
        true
    }
}

/// A way to customize how a runner runs rewrites.
///
/// This gives you a way to prevent certain rewrites from exploding the e-graph
/// and dominating how much time is spent while running.
pub trait RewriteScheduler<G: EGraph>: Scheduler {
    /// A hook allowing you to customize rewrite searching behavior.
    /// Useful to implement rule management.
    ///
    /// Default implementation just calls [`EGraph::search`].
    fn search_rewrite(&mut self, iteration: usize, egraph: &G, rewrite: &Rewrite<G::Rule>) -> (r:
        Vec<SearchMatches<G::Subst>>)
        default_ensures
            *final(self) == *old(self),
            call_ensures(G::search, (egraph, &rewrite.rule), r),
    {
        egraph.search(&rewrite.rule)
    }

    /// A hook allowing you to customize rewrite searching behavior across
    /// rewrites.
    ///
    /// Default implementation calls [`Self::search_rewrite`] for each rewrite,
    /// and checks the limits after each.
    ///
    /// Returning an error will stop the runner.
    fn search_rewrites(
        &mut self,
        iteration: usize,
        egraph: &G,
        rewrites: &[Rewrite<G::Rule>],
        limits: &mut RunnerLimits<G::Probe>,
    ) -> (r: RunnerResult<Vec<Vec<SearchMatches<G::Subst>>>>)
        requires
            old(limits)@.start_time is Some,
        ensures
            final(limits)@.same_settings(old(limits)@),
        default_ensures
            searched_in_turn(
                |
                    before: Self,
                    rewrite: Rewrite<G::Rule>,
                    after: Self,
                    matches: Seq<SearchMatches<G::Subst>>,
                |
                    exists|m: &mut Self, v: Vec<SearchMatches<G::Subst>>|
                        *m == before && *final(m) == after && v@ == matches
                            && #[trigger] call_ensures(
                            Self::search_rewrite,
                            (m, iteration, egraph, &rewrite),
                            v,
                        ),
                *old(self),
                old(limits)@,
                iteration,
                *egraph,
                rewrites@,
                *final(self),
                final(limits)@,
                r,
            ),
    {
        let ghost search = |
            before: Self,
            rewrite: Rewrite<G::Rule>,
            after: Self,
            matches: Seq<SearchMatches<G::Subst>>,
        |
            exists|m: &mut Self, v: Vec<SearchMatches<G::Subst>>|
                *m == before && *final(m) == after && v@ == matches
                    && #[trigger] call_ensures(
                    Self::search_rewrite,
                    (m, iteration, egraph, &rewrite),
                    v,
                );
        let mut matches: Vec<Vec<SearchMatches<G::Subst>>> = Vec::new();
        let mut i: usize = 0;
        let ghost mut trace = SearchTrace::<Self, G::Subst, G::Probe> {
            schedulers: seq![*self],
            limits: seq![limits@],
            matches: seq![],
            checks: seq![],
        };
        #[verifier::loop_isolation(false)]
        while i < rewrites.len()
            invariant
                i <= rewrites.len(),
                limits@.same_settings(old(limits)@),
                limits@.start_time is Some,
                trace.follows(search, iteration, *egraph, rewrites@),
                trace.schedulers.first() == *old(self),
                trace.limits.first() == old(limits)@,
                trace.schedulers.last() == *self,
                trace.limits.last() == limits@,
                trace.matches == matches@,
                matches.len() == i,
                i > 0 ==> trace.checks.last() is Ok,
            decreases rewrites.len() - i,
        {
            let rewrite = &rewrites[i];
            let ms = self.search_rewrite(iteration, egraph, rewrite);
            let ghost handed = ms;
            matches.push(ms);
            let check = limits.check_limits_at(
                iteration,
                egraph,
                MemorySamplePhase::AfterRuleSearch,
                Some(rewrite.name.clone()),
            );
            proof {
                trace.lemma_longer(
                    search,
                    iteration,
                    *egraph,
                    rewrites@,
                    *self,
                    limits@,
                    handed,
                    check,
                );
                trace = trace.longer(*self, limits@, handed, check);
            }
            match check {
                Ok(()) => {},
                Err(reason) => {
                    return Err(reason);
                },
            }
            i += 1;
        }
        Ok(matches)
    }

    /// A hook allowing you to customize rewrite application behavior.
    /// Useful to implement rule management.
    ///
    /// Default implementation just calls [`EGraph::apply`] and returns number of
    /// new applications.
    fn apply_rewrite(
        &mut self,
        iteration: usize,
        egraph: &mut G,
        rewrite: &Rewrite<G::Rule>,
        matches: Vec<SearchMatches<G::Subst>>,
    ) -> (r: usize)
        default_ensures
            *final(self) == *old(self),
            exists|g: &mut G, ids: Vec<Id>|
                *g == *old(egraph) && *final(g) == *final(egraph) && r == ids@.len()
                    && #[trigger] call_ensures(G::apply, (g, &rewrite.rule, &matches), ids),
    {
        egraph.apply(&rewrite.rule, &matches).len()
    }
}

/// A very simple [`RewriteScheduler`] that runs every rewrite every time.
///
/// Using this is basically turning off rule scheduling. It uses the default
/// implementation for all [`RewriteScheduler`] methods.
#[derive(Debug, Clone, Copy)]
pub struct SimpleScheduler;

impl Scheduler for SimpleScheduler {

}

impl<G: EGraph> RewriteScheduler<G> for SimpleScheduler {

}

} // verus!
