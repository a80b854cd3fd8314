//! What a run does, from the first rebuild to the last sample.

use vstd::prelude::*;
use crate::egraph::{EGraph, Probe, Rewrite, SearchMatches};
use crate::iteration::{iterated, reason_of, Calls, Moments};
use crate::laws::checking::{
    is_verdict, law_check_compares_total_size, recorded, same_but_memory,
};
use crate::limits::{
    checked, sampled_at_end, LimitsModel, RunnerLimits, RunnerResult, StopReason,
};
use crate::memory::MemoryReport;
use crate::report::Iteration;
use crate::runner::{
    finished, ran, rebuilt, stamped, stepped, Hook, IterationData, RunTrace, Runner,
};
use crate::scheduler::RewriteScheduler;

verus! {

/// Both records are the same but for the reason to stop.
pub open spec fn same_but_reason<D>(a: Iteration<D>, b: Iteration<D>) -> bool {
    &&& a.egraph_nodes == b.egraph_nodes
    &&& a.egraph_classes == b.egraph_classes
    &&& a.applied == b.applied
    &&& a.hook_time == b.hook_time
    &&& a.search_time == b.search_time
    &&& a.apply_time == b.apply_time
    &&& a.rebuild_time == b.rebuild_time
    &&& a.total_time == b.total_time
    &&& a.data == b.data
    &&& a.n_rebuilds == b.n_rebuilds
}

/// The result of a check that gave this reason to stop, or none.
pub open spec fn verdict_of(stop: Option<StopReason>) -> RunnerResult<()> {
    match stop {
        Some(reason) => Err(reason),
        None => Ok(()),
    }
}

/// The limit check behind an iteration that gave no reason to stop: a time that the clock
/// tells, the total size of the e-graph, the number of records with the new one, and the
/// latest memory sample are compared with the limits. No new sample is taken.
pub open spec fn goes_on_or_stops<G: EGraph>(
    before: LimitsModel<G::Probe>,
    records: nat,
    egraph: G,
    after: LimitsModel<G::Probe>,
    stop: Option<StopReason>,
) -> bool {
    exists|now: u64, nodes: usize|
        #![trigger
            <G::Probe as Probe>::tells(before.probe, now, after.probe),
            call_ensures(G::total_size, (&egraph,), nodes)]
        {
            &&& <G::Probe as Probe>::tells(before.probe, now, after.probe)
            &&& call_ensures(G::total_size, (&egraph,), nodes)
            &&& is_verdict(
                before,
                records as usize,
                now,
                nodes,
                match before.memory {
                    Some(memory) => Some(memory.latest),
                    None => None,
                },
                verdict_of(stop),
            )
            &&& same_but_memory(before, after)
            &&& after.memory == before.memory
        }
}

/// One round of a run: an iteration, whose record is put behind those that the iteration
/// left, with the round's reason to stop. That is the iteration's own, or else the one
/// that the limit check behind it gives, if any.
pub open spec fn is_round<G: EGraph, S: RewriteScheduler<G>, H, D>(
    moments: Moments<G, S, H, D>,
    calls: Calls<G, S, H, D>,
    rewrites: Seq<Rewrite<G::Rule>>,
    before: Runner<G, S, H, D>,
    left: Runner<G, S, H, D>,
    record: Iteration<D>,
    after: Runner<G, S, H, D>,
    stop: Option<StopReason>,
) -> bool {
    let n = left.iterations@.len();
    &&& moments.explain(calls, rewrites, before, left, record)
    &&& after.iterations@.len() == n + 1
    &&& forall|j: int| 0 <= j < n ==> #[trigger] after.iterations@[j] == left.iterations@[j]
    &&& same_but_reason(after.iterations@[n as int], record)
    &&& after.iterations@[n as int].stop_reason == stop
    &&& after.egraph == left.egraph
    &&& after.roots == left.roots
    &&& after.stop_reason == left.stop_reason
    &&& after.scheduler_snapshot == left.scheduler_snapshot
    &&& after.hooks == left.hooks
    &&& after.scheduler == left.scheduler
    &&& record.stop_reason is Some ==> stop == record.stop_reason && after.limits@ == left.limits@
    &&& record.stop_reason is None ==> goes_on_or_stops(
        left.limits@,
        n + 1,
        left.egraph,
        after.limits@,
        stop,
    )
}

/// A round of a run, with the iteration in it.
pub open spec fn round<G: EGraph, S: RewriteScheduler<G>, H, D: IterationData<G, S, H>>(
    calls: Calls<G, S, H, D>,
    rewrites: Seq<Rewrite<G::Rule>>,
    before: Runner<G, S, H, D>,
    record: Iteration<D>,
    after: Runner<G, S, H, D>,
    stop: Option<StopReason>,
) -> bool {
    exists|moments: Moments<G, S, H, D>, left: Runner<G, S, H, D>|
        {
            &&& #[trigger] is_round(
                moments,
                calls,
                rewrites,
                before,
                left,
                record,
                after,
                stop,
            )
            &&& call_ensures(D::make, (&moments.ended,), record.data)
        }
}

/// A step of a run is a round.
proof fn lemma_round<G: EGraph, S: RewriteScheduler<G>, H, D: IterationData<G, S, H>>(
    calls: Calls<G, S, H, D>,
    rewrites: Seq<Rewrite<G::Rule>>,
    before: Runner<G, S, H, D>,
    record: Iteration<D>,
    after: Runner<G, S, H, D>,
    stop: Option<StopReason>,
)
    requires
        stepped(calls, rewrites, before, record, after, stop),
    ensures
        round(calls, rewrites, before, record, after, stop),
{
    let left = choose|left: Runner<G, S, H, D>|
        {
            &&& #[trigger] iterated(calls, rewrites, before, left, record)
            &&& after.iterations@ == left.iterations@.push(stamped(record, stop))
            &&& after == (Runner { iterations: after.iterations, limits: after.limits, ..left })
            &&& match record.stop_reason {
                Some(reason) => stop == Some(reason) && after.limits@ == left.limits@,
                None => exists|check: RunnerResult<()>| #[trigger]
                    reason_of(check) == stop && checked(
                        left.limits@,
                        after.iterations.len(),
                        after.egraph,
                        left.limits@.latest(),
                        after.limits@,
                        check,
                    ),
            }
        };
    let moments = choose|moments: Moments<G, S, H, D>| #[trigger]
        moments.explain(calls, rewrites, before, left, record) && call_ensures(
            D::make,
            (&moments.ended,),
            record.data,
        );
    if record.stop_reason is None {
        let check = choose|check: RunnerResult<()>| #[trigger]
            reason_of(check) == stop && checked(
                left.limits@,
                after.iterations.len(),
                after.egraph,
                left.limits@.latest(),
                after.limits@,
                check,
            );
        let (now, nodes) = law_check_compares_total_size(
            left.limits@,
            after.iterations.len(),
            after.egraph,
            left.limits@.latest(),
            after.limits@,
            check,
        );
        assert(after.iterations.len() == (left.iterations@.len() + 1) as usize);
        assert(goes_on_or_stops(
            left.limits@,
            left.iterations@.len() + 1,
            left.egraph,
            after.limits@,
            stop,
        ));
    }
    assert(is_round(moments, calls, rewrites, before, left, record, after, stop));
}

/// What the end of a run does: the reason to stop is set, memory is sampled once more
/// where it is tracked, and the report of it is fixed. Nothing else changes.
pub open spec fn closes<G: EGraph, S, H, D>(
    before: Runner<G, S, H, D>,
    stop: Option<StopReason>,
    after: Runner<G, S, H, D>,
) -> bool {
    let limits = before.limits@;
    let left = after.limits@;
    &&& after.stop_reason == stop
    &&& after.egraph == before.egraph
    &&& after.iterations == before.iterations
    &&& after.roots == before.roots
    &&& after.scheduler_snapshot == before.scheduler_snapshot
    &&& after.hooks == before.hooks
    &&& after.scheduler == before.scheduler
    &&& same_but_memory(limits, left)
    &&& match limits.memory {
        None => left.memory is None && left.probe == limits.probe,
        Some(memory) => {
            &&& left.memory is Some
            &&& <G::Probe as Probe>::samples(limits.probe, left.memory->0.latest, left.probe)
            &&& recorded(memory, left.memory->0.latest, left.memory->0)
            &&& left.memory->0.iteration_peak == memory.iteration_peak
            &&& left.memory->0.final_report == Some(
                MemoryReport {
                    final_reading: left.memory->0.latest,
                    peak_reading: left.memory->0.peak_reading,
                    absolute_limit: memory.absolute_limit,
                },
            )
        },
    }
}

/// A run goes through rounds, each from the runner that the one before it left. The first
/// starts from the runner with its e-graph rebuilt. There is at least one round. All but
/// the last go on, and the last gives the reason to stop.
pub open spec fn goes_through<
    G: EGraph,
    S: RewriteScheduler<G>,
    H,
    D: IterationData<G, S, H>,
>(
    calls: Calls<G, S, H, D>,
    rewrites: Seq<Rewrite<G::Rule>>,
    before: Runner<G, S, H, D>,
    runners: Seq<Runner<G, S, H, D>>,
    records: Seq<Iteration<D>>,
    stops: Seq<Option<StopReason>>,
    after: Runner<G, S, H, D>,
) -> bool {
    let n = records.len();
    &&& n > 0
    &&& runners.len() == n + 1
    &&& stops.len() == n
    &&& exists|rounds: usize| #[trigger]
        (calls.rebuild)(before.egraph, runners[0].egraph, rounds)
    &&& runners[0] == (Runner { egraph: runners[0].egraph, ..before })
    &&& forall|j: int|
        #![trigger records[j]]
        0 <= j < n ==> round(calls, rewrites, runners[j], records[j], runners[j + 1], stops[j])
    &&& forall|j: int| 0 <= j < n - 1 ==> (#[trigger] stops[j]) is None
    &&& stops[n - 1] is Some
    &&& closes(runners[n as int], stops[n - 1], after)
}

/// A run goes through rounds until one gives a reason to stop.
pub proof fn law_run_goes_through_rounds<
    G: EGraph,
    S: RewriteScheduler<G>,
    H,
    D: IterationData<G, S, H>,
>(
    calls: Calls<G, S, H, D>,
    rewrites: Seq<Rewrite<G::Rule>>,
    before: Runner<G, S, H, D>,
    after: Runner<G, S, H, D>,
)
    requires
        ran(calls, rewrites, before, after),
    ensures
        exists|
            runners: Seq<Runner<G, S, H, D>>,
            records: Seq<Iteration<D>>,
            stops: Seq<Option<StopReason>>,
        | #[trigger]
            goes_through(calls, rewrites, before, runners, records, stops, after),
{
    let trace = choose|trace: RunTrace<G, S, H, D>|
        {
            &&& #[trigger] trace.follows(calls, rewrites)
            &&& rebuilt(calls, before, trace.runners.first())
            &&& trace.stops.len() > 0
            &&& trace.stops.last() is Some
            &&& finished(trace.runners.last(), trace.stops.last(), after)
        };
    let last = trace.runners.last();
    let n = trace.records.len();
    assert forall|j: int| #![trigger trace.records[j]] 0 <= j < n implies round(
        calls,
        rewrites,
        trace.runners[j],
        trace.records[j],
        trace.runners[j + 1],
        trace.stops[j],
    ) by {
        lemma_round(
            calls,
            rewrites,
            trace.runners[j],
            trace.records[j],
            trace.runners[j + 1],
            trace.stops[j],
        );
    }
    let sample = choose|sample: Option<u64>| #[trigger]
        sampled_at_end(last.limits@, sample, after.limits@);
    assert(closes(last, trace.stops.last(), after));
    assert(goes_through(
        calls,
        rewrites,
        before,
        trace.runners,
        trace.records,
        trace.stops,
        after,
    ));
}

/// Running a runner is such a run. Its calls are those of the runner's own hooks,
/// scheduler and e-graph.
pub proof fn law_run_is_a_run<
    G: EGraph,
    S: RewriteScheduler<G>,
    H: Hook<G, S, D>,
    D: IterationData<G, S, H>,
>(runner: Runner<G, S, H, D>, rules: &[Rewrite<G::Rule>], after: Runner<G, S, H, D>)
    requires
        call_ensures(Runner::<G, S, H, D>::run, (runner, rules), after),
    ensures
        ran(
            Calls {
                hook: |
                    hook: H,
                    seen: Runner<G, S, H, D>,
                    hook_after: H,
                    left: Runner<G, S, H, D>,
                    outcome: Result<(), String>,
                |
                    exists|h: &mut H, m: &mut Runner<G, S, H, D>|
                        *h == hook && *final(h) == hook_after && *m == seen && *final(m) == left
                            && #[trigger] call_ensures(H::call, (h, m), outcome),
                search: |
                    iteration: usize,
                    scheduler: S,
                    limits: LimitsModel<G::Probe>,
                    egraph: G,
                    scheduler_after: S,
                    limits_after: LimitsModel<G::Probe>,
                    result: RunnerResult<Vec<Vec<SearchMatches<G::Subst>>>>,
                |
                    exists|s: &mut S, l: &mut RunnerLimits<G::Probe>|
                        *s == scheduler && *final(s) == scheduler_after && l@ == limits
                            && final(l)@ == limits_after && #[trigger] call_ensures(
                            S::search_rewrites,
                            (s, iteration, &egraph, rules, l),
                            result,
                        ),
                apply: |
                    iteration: usize,
                    scheduler: S,
                    egraph: G,
                    rewrite: Rewrite<G::Rule>,
                    matches: Vec<SearchMatches<G::Subst>>,
                    scheduler_after: S,
                    egraph_after: G,
                    count: usize,
                |
                    exists|s: &mut S, g: &mut G|
                        *s == scheduler && *final(s) == scheduler_after && *g == egraph
                            && *final(g) == egraph_after && #[trigger] call_ensures(
                            S::apply_rewrite,
                            (s, iteration, g, &rewrite, matches),
                            count,
                        ),
                rebuild: |egraph: G, egraph_after: G, n: usize|
                    exists|g: &mut G|
                        *g == egraph && *final(g) == egraph_after && #[trigger] call_ensures(
                            G::rebuild,
                            (g,),
                            n,
                        ),
                can_stop: |iteration: usize, scheduler: S, scheduler_after: S, stop: bool|
                    exists|s: &mut S|
                        *s == scheduler && *final(s) == scheduler_after && #[trigger] call_ensures(
                            S::can_stop,
                            (s, iteration),
                            stop,
                        ),
            },
            rules@,
            runner,
            after,
        ),
{
}

/// The e-graph that a run hands back is fresh from a rebuild, which returned the number
/// on the last record, whatever stopped the run.
pub proof fn law_run_hands_back_a_rebuilt_egraph<
    G: EGraph,
    S: RewriteScheduler<G>,
    H,
    D: IterationData<G, S, H>,
>(
    calls: Calls<G, S, H, D>,
    rewrites: Seq<Rewrite<G::Rule>>,
    before: Runner<G, S, H, D>,
    after: Runner<G, S, H, D>,
) -> (applied: G)
    requires
        ran(calls, rewrites, before, after),
    ensures
        (calls.rebuild)(applied, after.egraph, after.iterations@.last().n_rebuilds),
{
    law_run_goes_through_rounds(calls, rewrites, before, after);
    let (runners, records, stops) = choose|
        runners: Seq<Runner<G, S, H, D>>,
        records: Seq<Iteration<D>>,
        stops: Seq<Option<StopReason>>,
    | #[trigger]
        goes_through(calls, rewrites, before, runners, records, stops, after);
    let n = records.len() - 1;
    let record = records[n];
    let (moments, left) = choose|moments: Moments<G, S, H, D>, left: Runner<G, S, H, D>| #[trigger]
        is_round(
            moments,
            calls,
            rewrites,
            runners[n],
            left,
            record,
            runners[n + 1],
            stops[n],
        );
    moments.applied.egraph
}

/// Whatever stops a run, it hands back a runner whose e-graph is fresh from a rebuild, and
/// whose reason to stop is set and stands on the last record.
pub proof fn law_run_ends_rebuilt<
    G: EGraph,
    S: RewriteScheduler<G>,
    H: Hook<G, S, D>,
    D: IterationData<G, S, H>,
>(runner: Runner<G, S, H, D>, rules: &[Rewrite<G::Rule>], after: Runner<G, S, H, D>)
    requires
        call_ensures(Runner::<G, S, H, D>::run, (runner, rules), after),
    ensures
        exists|g: &mut G|
            *final(g) == after.egraph && #[trigger] call_ensures(
                G::rebuild,
                (g,),
                after.iterations@.last().n_rebuilds,
            ),
        after.stop_reason is Some,
        after.iterations@.len() > runner.iterations@.len(),
        after.iterations@.last().stop_reason == after.stop_reason,
{
    let calls = Calls {
        hook: |
            hook: H,
            seen: Runner<G, S, H, D>,
            hook_after: H,
            left: Runner<G, S, H, D>,
            outcome: Result<(), String>,
        |
            exists|h: &mut H, m: &mut Runner<G, S, H, D>|
                *h == hook && *final(h) == hook_after && *m == seen && *final(m) == left
                    && #[trigger] call_ensures(H::call, (h, m), outcome),
        search: |
            iteration: usize,
            scheduler: S,
            limits: LimitsModel<G::Probe>,
            egraph: G,
            scheduler_after: S,
            limits_after: LimitsModel<G::Probe>,
            result: RunnerResult<Vec<Vec<SearchMatches<G::Subst>>>>,
        |
            exists|s: &mut S, l: &mut RunnerLimits<G::Probe>|
                *s == scheduler && *final(s) == scheduler_after && l@ == limits && final(l)@
                    == limits_after && #[trigger] call_ensures(
                    S::search_rewrites,
                    (s, iteration, &egraph, rules, l),
                    result,
                ),
        apply: |
            iteration: usize,
            scheduler: S,
            egraph: G,
            rewrite: Rewrite<G::Rule>,
            matches: Vec<SearchMatches<G::Subst>>,
            scheduler_after: S,
            egraph_after: G,
            count: usize,
        |
            exists|s: &mut S, g: &mut G|
                *s == scheduler && *final(s) == scheduler_after && *g == egraph && *final(g)
                    == egraph_after && #[trigger] call_ensures(
                    S::apply_rewrite,
                    (s, iteration, g, &rewrite, matches),
                    count,
                ),
        rebuild: |egraph: G, egraph_after: G, n: usize|
            exists|g: &mut G|
                *g == egraph && *final(g) == egraph_after && #[trigger] call_ensures(
                    G::rebuild,
                    (g,),
                    n,
                ),
        can_stop: |iteration: usize, scheduler: S, scheduler_after: S, stop: bool|
            exists|s: &mut S|
                *s == scheduler && *final(s) == scheduler_after && #[trigger] call_ensures(
                    S::can_stop,
                    (s, iteration),
                    stop,
                ),
    };
    let applied = law_run_hands_back_a_rebuilt_egraph(calls, rules@, runner, after);
    assert((calls.rebuild)(applied, after.egraph, after.iterations@.last().n_rebuilds));
}

} // verus!
