//! Running rewrites over an e-graph until there is a reason to stop.

use vstd::prelude::*;
use crate::backoff::{BackoffModel, BackoffScheduler};
use crate::egraph::{EGraph, Id, Probe, Rewrite, SearchMatches};
use crate::iteration::{iterated, reason_of, Calls};
use crate::limits::{
    checked, sampled_at, sampled_at_end, LimitsModel, RunnerLimits, RunnerResult, StopReason,
};
use crate::memory::{IterationMemoryPeak, MemoryReport, MemorySamplePhase, MemoryTracker};
use crate::report::{
    apply_times, rebuild_counts, rebuild_times, search_times, total_times, totals, Iteration,
    Report,
};
use crate::scheduler::RewriteScheduler;
use crate::snapshot::SchedulerSnapshot;
use crate::sums::sum;

verus! {

/// Facilitates running rewrites over an e-graph.
pub struct Runner<G: EGraph, S, H, D> {
    /// The e-graph used.
    pub egraph: G,
    /// Data accumulated over each [`Iteration`].
    pub iterations: Vec<Iteration<D>>,
    /// The roots of expressions added by [`Runner::with_expr`], in insertion
    /// order.
    pub roots: Vec<Id>,
    /// Why the runner stopped. This will be `None` if it hasn't stopped yet.
    pub stop_reason: Option<StopReason>,
    /// A read-only snapshot of the exact scheduler state captured before the
    /// current iteration's hooks and rewrite search.
    pub scheduler_snapshot: SchedulerSnapshot,
    /// The hooks added by [`Runner::with_hook`], in insertion order.
    pub hooks: Vec<H>,
    /// The limits that would stop the runner.
    pub limits: RunnerLimits<G::Probe>,
    /// What decides which rules are searched.
    pub scheduler: S,
}

/// Instruments or modifies the behavior of a runner at the beginning of each
/// iteration.
///
/// A hook may change the e-graph, look at and annotate the records of past
/// iterations, take memory samples and ask the runner to stop. It may not add or
/// remove records, set the stop reason or replace the limits.
pub trait Hook<G: EGraph, S, D>: Sized {
    /// Runs the hook. An error stops the runner.
    fn call(&mut self, runner: &mut Runner<G, S, Self, D>) -> (r: Result<(), String>)
        ensures
            final(runner).iterations@.len() == old(runner).iterations@.len(),
            old(runner).stop_reason is None ==> final(runner).stop_reason is None,
            final(runner).limits@.same_settings(old(runner).limits@),
    ;
}

/// The hook that does nothing.
impl<G: EGraph, S, D> Hook<G, S, D> for () {
    fn call(&mut self, runner: &mut Runner<G, S, Self, D>) -> (r: Result<(), String>)
        ensures
            r is Ok,
            *final(runner) == *old(runner),
    {
        Ok(())
    }
}

/// Custom data to inject into the [`Iteration`]s recorded by a [`Runner`].
pub trait IterationData<G: EGraph, S, H>: Sized {
    /// Given the current [`Runner`], make the data to be put in this
    /// [`Iteration`].
    fn make(runner: &Runner<G, S, H, Self>) -> Self;
}

impl<G: EGraph, S, H> IterationData<G, S, H> for () {
    fn make(runner: &Runner<G, S, H, Self>) -> Self {
    }
}

impl<G: EGraph, S, H, D> Runner<G, S, H, D> {
    /// Both have the same parts but for the hooks.
    pub open spec fn same_but_hooks(self, other: Self) -> bool {
        &&& self.egraph == other.egraph
        &&& self.iterations == other.iterations
        &&& self.roots == other.roots
        &&& self.stop_reason == other.stop_reason
        &&& self.scheduler_snapshot == other.scheduler_snapshot
        &&& self.limits@ == other.limits@
        &&& self.scheduler == other.scheduler
    }

    /// Both have the same records: past iterations, roots, stop reason, snapshot
    /// and hooks.
    pub open spec fn same_records(self, other: Self) -> bool {
        &&& self.iterations == other.iterations
        &&& self.roots == other.roots
        &&& self.stop_reason == other.stop_reason
        &&& self.scheduler_snapshot == other.scheduler_snapshot
        &&& self.hooks == other.hooks
    }
}

/// One iteration after the other, each followed by a limit check.
pub struct RunTrace<G: EGraph, S, H, D> {
    /// The runner before the first iteration and after each.
    pub runners: Seq<Runner<G, S, H, D>>,
    /// What each iteration left to be recorded.
    pub records: Seq<Iteration<D>>,
    /// The reason to stop after each iteration, if there was one.
    pub stops: Seq<Option<StopReason>>,
}

/// What is kept of an iteration behind which the run stopped, or went on.
pub open spec fn stamped<D>(record: Iteration<D>, stop: Option<StopReason>) -> Iteration<D> {
    Iteration { stop_reason: stop, ..record }
}

/// One iteration, which leaves `record`, and the limit check behind it can take the
/// runner from `before` to `after`. `stop` is the iteration's own reason to stop, or
/// else the limit check's. The record is kept with that reason.
pub open spec fn stepped<
    G: EGraph,
    S: RewriteScheduler<G>,
    H,
    D: IterationData<G, S, H>,
>(
    calls: Calls<G, S, H, D>,
    rewrites: Seq<Rewrite<G::Rule>>,
    before: Runner<G, S, H, D>,
    record: Iteration<D>,
    after: Runner<G, S, H, D>,
    stop: Option<StopReason>,
) -> bool {
    exists|ran: Runner<G, S, H, D>|
        {
            &&& #[trigger] iterated(calls, rewrites, before, ran, record)
            &&& after.iterations@ == ran.iterations@.push(stamped(record, stop))
            &&& after == (Runner { iterations: after.iterations, limits: after.limits, ..ran })
            &&& match record.stop_reason {
                Some(reason) => stop == Some(reason) && after.limits@ == ran.limits@,
                None => exists|check: RunnerResult<()>| #[trigger]
                    reason_of(check) == stop && checked(
                        ran.limits@,
                        after.iterations.len(),
                        after.egraph,
                        ran.limits@.latest(),
                        after.limits@,
                        check,
                    ),
            }
        }
}

impl<G: EGraph, S: RewriteScheduler<G>, H, D: IterationData<G, S, H>> RunTrace<G, S, H, D> {
    /// The trace goes by steps of a run, and none of them but possibly the last
    /// gave a reason to stop.
    pub open spec fn follows(
        self,
        calls: Calls<G, S, H, D>,
        rewrites: Seq<Rewrite<G::Rule>>,
    ) -> bool {
        let n = self.records.len();
        &&& self.runners.len() == n + 1
        &&& self.stops.len() == n
        &&& forall|j: int|
            #![trigger self.records[j]]
            0 <= j < n ==> stepped(
                calls,
                rewrites,
                self.runners[j],
                self.records[j],
                self.runners[j + 1],
                self.stops[j],
            )
        &&& forall|j: int| 0 <= j < n - 1 ==> (#[trigger] self.stops[j]) is None
    }

    /// The trace with one more step.
    pub open spec fn longer(
        self,
        record: Iteration<D>,
        runner: Runner<G, S, H, D>,
        stop: Option<StopReason>,
    ) -> Self {
        RunTrace {
            runners: self.runners.push(runner),
            records: self.records.push(record),
            stops: self.stops.push(stop),
        }
    }

    /// A trace that goes on may be followed by one more step.
    proof fn lemma_longer(
        self,
        calls: Calls<G, S, H, D>,
        rewrites: Seq<Rewrite<G::Rule>>,
        record: Iteration<D>,
        runner: Runner<G, S, H, D>,
        stop: Option<StopReason>,
    )
        requires
            self.follows(calls, rewrites),
            self.stops.len() > 0 ==> self.stops.last() is None,
            stepped(calls, rewrites, self.runners.last(), record, runner, stop),
        ensures
            self.longer(record, runner, stop).follows(calls, rewrites),
    {
        let longer = self.longer(record, runner, stop);
        assert forall|j: int| 0 <= j < longer.records.len() implies stepped(
            calls,
            rewrites,
            longer.runners[j],
            #[trigger] longer.records[j],
            longer.runners[j + 1],
            longer.stops[j],
        ) by {
            if j < self.records.len() {
                assert(longer.records[j] == self.records[j]);
            }
        }
    }
}

/// A run can take the runner from `before` to `after`: the e-graph is rebuilt,
/// there is at least one iteration, iterations go on until there is a reason to
/// stop, and memory is sampled once more at the end.
pub open spec fn ran<G: EGraph, S: RewriteScheduler<G>, H, D: IterationData<G, S, H>>(
    calls: Calls<G, S, H, D>,
    rewrites: Seq<Rewrite<G::Rule>>,
    before: Runner<G, S, H, D>,
    after: Runner<G, S, H, D>,
) -> bool {
    exists|trace: RunTrace<G, S, H, D>|
        {
            &&& #[trigger] trace.follows(calls, rewrites)
            &&& rebuilt(calls, before, trace.runners.first())
            &&& trace.stops.len() > 0
            &&& trace.stops.last() is Some
            &&& finished(trace.runners.last(), trace.stops.last(), after)
        }
}

/// Only the e-graph differs, by a rebuild.
pub open spec fn rebuilt<G: EGraph, S, H, D>(
    calls: Calls<G, S, H, D>,
    before: Runner<G, S, H, D>,
    after: Runner<G, S, H, D>,
) -> bool {
    &&& exists|n: usize| #[trigger] (calls.rebuild)(before.egraph, after.egraph, n)
    &&& after == (Runner { egraph: after.egraph, ..before })
}

/// The reason to stop is set and memory is sampled at the end.
pub open spec fn finished<G: EGraph, S, H, D>(
    before: Runner<G, S, H, D>,
    stop: Option<StopReason>,
    after: Runner<G, S, H, D>,
) -> bool {
    &&& exists|sample: Option<u64>| #[trigger]
        sampled_at_end(before.limits@, sample, after.limits@)
    &&& after == (Runner { stop_reason: stop, limits: after.limits, ..before })
}

impl<G: EGraph, S: RewriteScheduler<G>, H: Hook<G, S, D>, D: IterationData<G, S, H>> Runner<
    G,
    S,
    H,
    D,
> {
    /// Checks the limits with the most recent memory sample.
    pub fn check_limits(&mut self) -> (r: RunnerResult<()>)
        requires
            old(self).limits@.start_time is Some,
        ensures
            checked(
                old(self).limits@,
                old(self).iterations.len(),
                old(self).egraph,
                old(self).limits@.latest(),
                final(self).limits@,
                r,
            ),
            *final(self) == (Runner { limits: final(self).limits, ..*old(self) }),
    {
        let reading = self.limits.memory_reading();
        self.limits.check_reading(self.iterations.len(), &self.egraph, reading)
    }

    /// Run this runner until it stops.
    /// After this, the field [`stop_reason`](Runner::stop_reason) is guaranteed
    /// to be set.
    pub fn run(self, rules: &[Rewrite<G::Rule>]) -> (r: Self)
        requires
            self.stop_reason is None,
        ensures
            ran(
                Calls {
                    hook: |
                        hook: H,
                        runner: Runner<G, S, H, D>,
                        hook_after: H,
                        runner_after: Runner<G, S, H, D>,
                        outcome: Result<(), String>,
                    |
                        exists|h: &mut H, m: &mut Runner<G, S, H, D>|
                            *h == hook && *final(h) == hook_after && *m == runner
                                && *final(m) == runner_after
                                && #[trigger] call_ensures(H::call, (h, m), outcome),
                    search: |
                        iteration: usize,
                        scheduler: S,
                        limits: LimitsModel<G::Probe>,
                        egraph: G,
                        scheduler_after: S,
                        limits_after: LimitsModel<G::Probe>,
                        result: RunnerResult<Vec<Vec<SearchMatches<G::Subst>>>>,
                    |
                        exists|s: &mut S, l: &mut RunnerLimits<G::Probe>|
                            *s == scheduler && *final(s) == scheduler_after && l@ == limits
                                && final(l)@ == limits_after && #[trigger] call_ensures(
                                S::search_rewrites,
                                (s, iteration, &egraph, rules, l),
                                result,
                            ),
                    apply: |
                        iteration: usize,
                        scheduler: S,
                        egraph: G,
                        rewrite: Rewrite<G::Rule>,
                        matches: Vec<SearchMatches<G::Subst>>,
                        scheduler_after: S,
                        egraph_after: G,
                        count: usize,
                    |
                        exists|s: &mut S, g: &mut G|
                            *s == scheduler && *final(s) == scheduler_after && *g == egraph
                                && *final(g) == egraph_after && #[trigger] call_ensures(
                                S::apply_rewrite,
                                (s, iteration, g, &rewrite, matches),
                                count,
                            ),
                    rebuild: |egraph: G, egraph_after: G, n: usize|
                        exists|g: &mut G|
                            *g == egraph && *final(g) == egraph_after && #[trigger] call_ensures(
                                G::rebuild,
                                (g,),
                                n,
                            ),
                    can_stop: |iteration: usize, scheduler: S, scheduler_after: S, stop: bool|
                        exists|s: &mut S|
                            *s == scheduler && *final(s) == scheduler_after
                                && #[trigger] call_ensures(
                                S::can_stop,
                                (s, iteration),
                                stop,
                            ),
                },
                rules@,
                self,
                r,
            ),
            r.stop_reason is Some,
            self.iterations@.len() < r.iterations@.len(),
            r.iterations@.last().stop_reason == r.stop_reason,
            r.limits@.same_limits(self.limits@),
            r.limits@.final_report() is Some <==> self.limits@.memory is Some,
            r.iterations@.len() <= self.limits@.iter_limit || r.iterations@.len()
                == self.iterations@.len() + 1,
    {
        let ghost calls = Calls {
            hook: |
                hook: H,
                runner: Runner<G, S, H, D>,
                hook_after: H,
                runner_after: Runner<G, S, H, D>,
                outcome: Result<(), String>,
            |
                exists|h: &mut H, m: &mut Runner<G, S, H, D>|
                    *h == hook && *final(h) == hook_after && *m == runner
                        && *final(m) == runner_after
                        && #[trigger] call_ensures(H::call, (h, m), outcome),
            search: |
                iteration: usize,
                scheduler: S,
                limits: LimitsModel<G::Probe>,
                egraph: G,
                scheduler_after: S,
                limits_after: LimitsModel<G::Probe>,
                result: RunnerResult<Vec<Vec<SearchMatches<G::Subst>>>>,
            |
                exists|s: &mut S, l: &mut RunnerLimits<G::Probe>|
                    *s == scheduler && *final(s) == scheduler_after && l@ == limits
                        && final(l)@ == limits_after
                        && #[trigger] call_ensures(
                        S::search_rewrites,
                        (s, iteration, &egraph, rules, l),
                        result,
                    ),
            apply: |
                iteration: usize,
                scheduler: S,
                egraph: G,
                rewrite: Rewrite<G::Rule>,
                matches: Vec<SearchMatches<G::Subst>>,
                scheduler_after: S,
                egraph_after: G,
                count: usize,
            |
                exists|s: &mut S, g: &mut G|
                    *s == scheduler && *final(s) == scheduler_after && *g == egraph
                        && *final(g) == egraph_after
                        && #[trigger] call_ensures(
                        S::apply_rewrite,
                        (s, iteration, g, &rewrite, matches),
                        count,
                    ),
            rebuild: |egraph: G, egraph_after: G, n: usize|
                exists|g: &mut G|
                    *g == egraph && *final(g) == egraph_after && #[trigger] call_ensures(
                        G::rebuild,
                        (g,),
                        n,
                    ),
            can_stop: |iteration: usize, scheduler: S, scheduler_after: S, stop: bool|
                exists|s: &mut S|
                    *s == scheduler && *final(s) == scheduler_after && #[trigger] call_ensures(
                        S::can_stop,
                        (s, iteration),
                        stop,
                    ),
        };
        let mut runner = self;
        let n_rebuilds = runner.egraph.rebuild();
        assert((calls.rebuild)(self.egraph, runner.egraph, n_rebuilds));
        let ghost first = runner;
        let ghost mut trace = RunTrace::<G, S, H, D> {
            runners: seq![runner],
            records: seq![],
            stops: seq![],
        };
        let mut stop: Option<StopReason> = None;
        #[verifier::loop_isolation(false)]
        while stop.is_none()
            invariant
                trace.follows(calls, rules@),
                trace.runners.first() == first,
                trace.runners.last() == runner,
                trace.records.len() == 0 ==> stop is None && runner == first,
                trace.records.len() > 0 ==> trace.stops.last() == stop,
                trace.records.len() > 0 ==> runner.iterations@.last().stop_reason == stop,
                trace.records.len() > 0 ==> runner.limits@.start_time is Some,
                runner.stop_reason is None,
                runner.limits@.same_limits(self.limits@),
                runner.iterations@.len() == self.iterations@.len() + trace.records.len(),
                stop is None && trace.records.len() > 0 ==> runner.iterations@.len()
                    < self.limits@.iter_limit,
                stop is Some ==> runner.iterations@.len() <= self.limits@.iter_limit
                    || runner.iterations@.len() == self.iterations@.len() + 1,
            decreases
                if stop is Some {
                    0int
                } else if self.limits@.iter_limit > runner.iterations@.len() {
                    1 + self.limits@.iter_limit - runner.iterations@.len()
                } else {
                    1int
                },
        {
            let ghost before = runner;
            let record = runner.run_one(rules);
            let ghost ran = runner;
            let ghost recorded = record;
            stop = record.stop_reason.clone();
            runner.iterations.push(record);
            // the limit on iterations is hit only once the iteration is complete
            if stop.is_none() {
                let check = runner.check_limits();
                let ghost said = check;
                stop = match check {
                    Ok(()) => None,
                    Err(reason) => Some(reason),
                };
                assert(reason_of(said) == stop);
                let last = runner.iterations.len() - 1;
                let kept = &mut runner.iterations[last];
                kept.stop_reason = stop.clone();
            }
            proof {
                assert(runner.iterations@ =~= ran.iterations@.push(stamped(recorded, stop)));
                assert(iterated(calls, rules@, before, ran, recorded));
                assert(stepped(calls, rules@, before, recorded, runner, stop));
                trace.lemma_longer(calls, rules@, recorded, runner, stop);
                trace = trace.longer(recorded, runner, stop);
            }
        }
        let ghost last = runner;
        runner.stop_reason = stop;
        runner.limits.finish();
        assert(rebuilt(calls, self, trace.runners.first()));
        assert(finished(last, trace.stops.last(), runner));
        runner
    }
}

impl<G: EGraph, H, D> Runner<G, BackoffScheduler, H, D> {
    /// Create a new runner with the given analysis and default parameters, in the
    /// given process.
    pub fn new(analysis: G::Analysis, probe: G::Probe) -> (r: Self)
        ensures
            call_ensures(G::new, (analysis,), r.egraph),
            r.is_new(None, probe),
    {
        Self::new_internal(analysis, None, probe)
    }

    /// Create a new runner whose process memory is sampled and optionally
    /// limited. Readings and the limit are absolute process live-heap bytes. The
    /// first reading is taken before the e-graph is made.
    pub fn new_with_memory_tracker(
        analysis: G::Analysis,
        probe: G::Probe,
        absolute_limit: Option<u64>,
    ) -> (r: Self)
        ensures
            call_ensures(G::new, (analysis,), r.egraph),
            exists|initial: u64, observed: G::Probe| #[trigger]
                G::Probe::samples(probe, initial, observed) && r.is_new(
                    Some(
                        MemoryTracker {
                            absolute_limit,
                            latest: initial,
                            peak_reading: initial,
                            final_report: None,
                            iteration_peak: None,
                        },
                    ),
                    observed,
                ),
    {
        let mut observed = probe;
        let initial = observed.live_heap();
        let memory = MemoryTracker::new(initial, absolute_limit);
        Self::new_internal(analysis, Some(memory), observed)
    }

    /// The runner has the default parameters and has not run.
    pub open spec fn is_new(self, memory: Option<MemoryTracker>, probe: G::Probe) -> bool {
        &&& self.limits@ == (LimitsModel {
            iter_limit: 30,
            node_limit: 10_000,
            time_limit: 5_000_000_000,
            start_time: None,
            memory,
            probe,
        })
        &&& self.roots@.len() == 0
        &&& self.iterations@.len() == 0
        &&& self.stop_reason is None
        &&& self.scheduler_snapshot.is_default()
        &&& self.hooks@.len() == 0
        &&& self.scheduler@ == (BackoffModel {
            default_match_limit: 1_000,
            default_ban_length: 5,
            stats: Seq::empty(),
        })
    }

    fn new_internal(
        analysis: G::Analysis,
        memory: Option<MemoryTracker>,
        probe: G::Probe,
    ) -> (r: Self)
        ensures
            call_ensures(G::new, (analysis,), r.egraph),
            r.is_new(memory, probe),
    {
        Runner {
            limits: RunnerLimits::new(30, 10_000, 5_000_000_000, memory, probe),
            egraph: G::new(analysis),
            roots: Vec::new(),
            iterations: Vec::new(),
            stop_reason: None,
            scheduler_snapshot: SchedulerSnapshot::default(),
            hooks: Vec::new(),
            scheduler: BackoffScheduler::default(),
        }
    }
}

impl<G: EGraph, H> Default for Runner<G, BackoffScheduler, H, ()> where
    G::Analysis: Default,
    G::Probe: Default,
 {
    fn default() -> (r: Self)
        ensures
            exists|analysis: G::Analysis|
                call_ensures(<G::Analysis as Default>::default, (), analysis)
                    && #[trigger] call_ensures(G::new, (analysis,), r.egraph),
            exists|probe: G::Probe|
                call_ensures(<G::Probe as Default>::default, (), probe) && #[trigger] r.is_new(
                    None,
                    probe,
                ),
    {
        let analysis = <G::Analysis as Default>::default();
        let probe = <G::Probe as Default>::default();
        Runner::new(analysis, probe)
    }
}

impl<G: EGraph, S, H, D> Runner<G, S, H, D> {
    /// Return the most recent absolute sample already taken by this runner.
    #[must_use]
    pub fn memory_reading(&self) -> (r: Option<u64>)
        ensures
            r == self.limits@.latest(),
    {
        self.limits.memory_reading()
    }

    /// Take, store, and return a fresh absolute process-memory sample.
    pub fn sample_memory(&mut self) -> (r: Option<u64>)
        ensures
            sampled_at(
                old(self).limits@,
                MemorySamplePhase::DuringHook,
                None,
                r,
                final(self).limits@,
            ),
            *final(self) == (Runner { limits: final(self).limits, ..*old(self) }),
    {
        self.limits.sample_memory(MemorySamplePhase::DuringHook, None)
    }

    /// Return the current iteration's peak-memory telemetry.
    #[must_use]
    pub fn iteration_memory_peak(&self) -> (r: Option<IterationMemoryPeak>)
        ensures
            r == self.limits@.iteration_peak(),
    {
        self.limits.iteration_memory_peak()
    }

    /// Return the configured absolute process live-heap ceiling.
    #[must_use]
    pub fn absolute_memory_limit(&self) -> (r: Option<u64>)
        ensures
            r == self.limits@.ceiling(),
    {
        self.limits.absolute_memory_limit()
    }

    /// Return the final report after [`Runner::run`] has finalized memory.
    #[must_use]
    pub fn final_memory_report(&self) -> (r: Option<MemoryReport>)
        ensures
            r == self.limits@.final_report(),
    {
        self.limits.final_memory_report()
    }

    /// Sets the iteration limit. Default: 30
    pub fn with_iter_limit(self, iter_limit: usize) -> (r: Self)
        ensures
            r.limits@ == (LimitsModel { iter_limit, ..self.limits@ }),
            r == (Runner { limits: r.limits, ..self }),
    {
        Runner { limits: self.limits.with_iter_limit(iter_limit), ..self }
    }

    /// Sets the e-graph size limit (in e-nodes). Default: 10,000
    pub fn with_node_limit(self, node_limit: usize) -> (r: Self)
        ensures
            r.limits@ == (LimitsModel { node_limit, ..self.limits@ }),
            r == (Runner { limits: r.limits, ..self }),
    {
        Runner { limits: self.limits.with_node_limit(node_limit), ..self }
    }

    /// Sets the runner time limit, in nanoseconds. Default: 5 seconds
    pub fn with_time_limit(self, time_limit: u64) -> (r: Self)
        ensures
            r.limits@ == (LimitsModel { time_limit, ..self.limits@ }),
            r == (Runner { limits: r.limits, ..self }),
    {
        Runner { limits: self.limits.with_time_limit(time_limit), ..self }
    }

    /// Add a hook to instrument or modify the behavior of a [`Runner`].
    /// Each hook will run at the beginning of each iteration, i.e. before
    /// all the rewrites.
    ///
    /// If your hook modifies the e-graph, make sure to rebuild it.
    pub fn with_hook(self, hook: H) -> (r: Self)
        ensures
            r.hooks@ == self.hooks@.push(hook),
            r == (Runner { hooks: r.hooks, ..self }),
    {
        let mut runner = self;
        runner.hooks.push(hook);
        runner
    }

    /// Change out the scheduler used by this [`Runner`].
    /// The default one is [`BackoffScheduler`].
    pub fn with_scheduler<T>(self, scheduler: T) -> (r: Runner<G, T, H, D>)
        ensures
            r == (Runner {
                scheduler,
                egraph: self.egraph,
                iterations: self.iterations,
                roots: self.roots,
                stop_reason: self.stop_reason,
                scheduler_snapshot: self.scheduler_snapshot,
                hooks: self.hooks,
                limits: self.limits,
            }),
    {
        Runner {
            scheduler,
            egraph: self.egraph,
            iterations: self.iterations,
            roots: self.roots,
            stop_reason: self.stop_reason,
            scheduler_snapshot: self.scheduler_snapshot,
            hooks: self.hooks,
            limits: self.limits,
        }
    }

    /// Add an expression to the e-graph to be run.
    ///
    /// The e-class id of this addition will be recorded in the
    /// [`roots`](Runner::roots) field, ordered by insertion order.
    pub fn with_expr(self, expr: &G::Expr) -> (r: Self)
        ensures
            exists|g: &mut G, id: Id|
                *g == self.egraph && *final(g) == r.egraph && r.roots@ == self.roots@.push(id)
                    && #[trigger] call_ensures(G::add_expr, (g, expr), id),
            r == (Runner { egraph: r.egraph, roots: r.roots, ..self }),
    {
        let mut runner = self;
        let id = runner.egraph.add_expr(expr);
        runner.roots.push(id);
        runner
    }

    /// Replace the e-graph of this runner.
    pub fn with_egraph(self, egraph: G) -> (r: Self)
        ensures
            r == (Runner { egraph, ..self }),
    {
        Runner { egraph, ..self }
    }

    /// Enable explanations for this runner's e-graph.
    /// This allows the runner to explain why two expressions are
    /// equivalent with [`Runner::explain_equivalence`].
    pub fn with_explanations_enabled(self) -> (r: Self)
        ensures
            call_ensures(G::with_explanations_enabled, (self.egraph,), r.egraph),
            r == (Runner { egraph: r.egraph, ..self }),
    {
        Runner { egraph: self.egraph.with_explanations_enabled(), ..self }
    }

    /// By default, explanations are made shorter by a greedy algorithm.
    /// Use this function to turn this algorithm off.
    pub fn without_explanation_length_optimization(self) -> (r: Self)
        ensures
            call_ensures(G::without_explanation_length_optimization, (self.egraph,), r.egraph),
            r == (Runner { egraph: r.egraph, ..self }),
    {
        Runner { egraph: self.egraph.without_explanation_length_optimization(), ..self }
    }

    /// By default, explanations are made shorter by a greedy algorithm.
    /// Use this function to turn this algorithm on again if you have turned it
    /// off.
    pub fn with_explanation_length_optimization(self) -> (r: Self)
        ensures
            call_ensures(G::with_explanation_length_optimization, (self.egraph,), r.egraph),
            r == (Runner { egraph: r.egraph, ..self }),
    {
        Runner { egraph: self.egraph.with_explanation_length_optimization(), ..self }
    }

    /// Disable explanations for this runner's e-graph.
    pub fn with_explanations_disabled(self) -> (r: Self)
        ensures
            call_ensures(G::with_explanations_disabled, (self.egraph,), r.egraph),
            r == (Runner { egraph: r.egraph, ..self }),
    {
        Runner { egraph: self.egraph.with_explanations_disabled(), ..self }
    }

    /// Calls [`EGraph::explain_equivalence`].
    pub fn explain_equivalence(&mut self, left: &G::Expr, right: &G::Expr) -> (r: G::Explanation)
        ensures
            exists|g: &mut G|
                *g == old(self).egraph && *final(g) == final(self).egraph
                    && #[trigger] call_ensures(G::explain_equivalence, (g, left, right), r),
            *final(self) == (Runner { egraph: final(self).egraph, ..*old(self) }),
    {
        self.egraph.explain_equivalence(left, right)
    }

    /// Get an explanation for why an expression matches a pattern.
    pub fn explain_matches(
        &mut self,
        left: &G::Expr,
        right: &G::Pattern,
        subst: &G::Subst,
    ) -> (r: G::Explanation)
        ensures
            exists|g: &mut G|
                *g == old(self).egraph && *final(g) == final(self).egraph
                    && #[trigger] call_ensures(G::explain_matches, (g, left, right, subst), r),
            *final(self) == (Runner { egraph: final(self).egraph, ..*old(self) }),
    {
        self.egraph.explain_matches(left, right, subst)
    }

    /// Creates a [`Report`] summarizing this runner's run.
    pub fn report(&self) -> (r: Report)
        requires
            self.stop_reason is Some,
            sum(rebuild_counts(self.iterations@)) <= usize::MAX,
        ensures
            Some(r.stop_reason) == self.stop_reason,
            r.iterations == self.iterations@.len(),
            call_ensures(G::total_number_of_nodes, (&self.egraph,), r.egraph_nodes),
            call_ensures(G::number_of_classes, (&self.egraph,), r.egraph_classes),
            call_ensures(G::total_size, (&self.egraph,), r.memo_size),
            r.rebuilds == sum(rebuild_counts(self.iterations@)),
            r.search_time == sum(search_times(self.iterations@)),
            r.apply_time == sum(apply_times(self.iterations@)),
            r.rebuild_time == sum(rebuild_times(self.iterations@)),
            r.total_time == sum(total_times(self.iterations@)),
    {
        let totals = totals(&self.iterations);
        Report {
            stop_reason: self.stop_reason.clone().unwrap(),
            iterations: self.iterations.len(),
            egraph_nodes: self.egraph.total_number_of_nodes(),
            egraph_classes: self.egraph.number_of_classes(),
            memo_size: self.egraph.total_size(),
            rebuilds: totals.rebuilds,
            search_time: totals.search_time,
            apply_time: totals.apply_time,
            rebuild_time: totals.rebuild_time,
            total_time: totals.total_time,
        }
    }
}

} // verus!
