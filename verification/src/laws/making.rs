//! What making a runner, setting it up and asking it back gives.

use vstd::prelude::*;
use crate::backoff::BackoffScheduler;
use crate::egraph::{EGraph, Id, Probe};
use crate::laws::checking::{
    attributed, is_verdict, law_check_compares_total_size, recorded, same_but_memory,
};
use crate::laws::steps::same_but_limits;
use crate::limits::RunnerResult;
use crate::memory::{IterationMemoryPeak, MemoryReport, MemorySamplePhase, MemoryTracker};
use crate::runner::{Hook, IterationData, Runner};
use crate::scheduler::RewriteScheduler;

verus! {

/// The runner has its default parameters and has not run: it stops at 30 iterations,
/// above 10,000 e-nodes or after five seconds, and bans rules from 1,000 matches on for
/// five iterations at first.
pub open spec fn has_defaults<G: EGraph, H, D>(
    runner: Runner<G, BackoffScheduler, H, D>,
    memory: Option<MemoryTracker>,
    probe: G::Probe,
) -> bool {
    &&& runner.limits@.iter_limit == 30
    &&& runner.limits@.node_limit == 10_000
    &&& runner.limits@.time_limit == 5_000_000_000
    &&& runner.limits@.start_time is None
    &&& runner.limits@.memory == memory
    &&& runner.limits@.probe == probe
    &&& runner.roots@.len() == 0
    &&& runner.iterations@.len() == 0
    &&& runner.stop_reason is None
    &&& runner.scheduler_snapshot.scheduler@ == ""@
    &&& runner.scheduler_snapshot.rules@.len() == 0
    &&& runner.scheduler_snapshot.n_active == 0
    &&& runner.scheduler_snapshot.n_banned == 0
    &&& runner.scheduler_snapshot.n_newly_unbanned == 0
    &&& runner.scheduler_snapshot.min_ban_remaining == 0
    &&& runner.scheduler_snapshot.total_times_banned == 0
    &&& runner.scheduler_snapshot.max_active_match_limit == 0
    &&& runner.scheduler_snapshot.active_match_limit_sum == 0
    &&& runner.scheduler_snapshot.max_active_times_banned == 0
    &&& runner.hooks@.len() == 0
    &&& runner.scheduler@.default_match_limit == 1_000
    &&& runner.scheduler@.default_ban_length == 5
    &&& runner.scheduler@.stats.len() == 0
}

/// A new runner has an e-graph made with the given analysis, the defaults, and no memory
/// accounting.
pub proof fn law_new_runner<G: EGraph, H, D>(
    analysis: G::Analysis,
    probe: G::Probe,
    runner: Runner<G, BackoffScheduler, H, D>,
)
    requires
        call_ensures(Runner::<G, BackoffScheduler, H, D>::new, (analysis, probe), runner),
    ensures
        call_ensures(G::new, (analysis,), runner.egraph),
        has_defaults(runner, None, probe),
{
}

/// A new runner with memory accounting has one sample, which counts as the latest and the
/// largest, and the given ceiling.
pub proof fn law_new_runner_with_memory<G: EGraph, H, D>(
    analysis: G::Analysis,
    probe: G::Probe,
    ceiling: Option<u64>,
    runner: Runner<G, BackoffScheduler, H, D>,
) -> (initial: u64)
    requires
        call_ensures(
            Runner::<G, BackoffScheduler, H, D>::new_with_memory_tracker,
            (analysis, probe, ceiling),
            runner,
        ),
    ensures
        call_ensures(G::new, (analysis,), runner.egraph),
        <G::Probe as Probe>::samples(probe, initial, runner.limits@.probe),
        runner.limits@.memory is Some,
        runner.limits@.memory->0.latest == initial,
        runner.limits@.memory->0.peak_reading == initial,
        runner.limits@.memory->0.absolute_limit == ceiling,
        runner.limits@.memory->0.final_report is None,
        runner.limits@.memory->0.iteration_peak is None,
        has_defaults(runner, runner.limits@.memory, runner.limits@.probe),
{
    runner.limits@.memory->0.latest
}

/// The default runner is a new one, made with the default analysis in the default process.
pub proof fn law_default_runner<G: EGraph, H>(runner: Runner<G, BackoffScheduler, H, ()>)
    where
        G::Analysis: Default,
        G::Probe: Default,
    requires
        call_ensures(<Runner<G, BackoffScheduler, H, ()> as Default>::default, (), runner),
    ensures
        exists|analysis: G::Analysis|
            call_ensures(<G::Analysis as Default>::default, (), analysis)
                && #[trigger] call_ensures(G::new, (analysis,), runner.egraph),
        exists|probe: G::Probe|
            call_ensures(<G::Probe as Default>::default, (), probe) && #[trigger] has_defaults(
                runner,
                None,
                probe,
            ),
{
    let probe = choose|probe: G::Probe|
        call_ensures(<G::Probe as Default>::default, (), probe) && #[trigger] runner.is_new(
            None,
            probe,
        );
    assert(has_defaults(runner, None, probe));
}

/// Setting a limit of a runner sets that limit and leaves everything else.
pub proof fn law_runner_limits_are_set<G: EGraph, S, H, D>(
    runner: Runner<G, S, H, D>,
    n: usize,
    t: u64,
    fewer: Runner<G, S, H, D>,
    smaller: Runner<G, S, H, D>,
    shorter: Runner<G, S, H, D>,
)
    requires
        call_ensures(Runner::<G, S, H, D>::with_iter_limit, (runner, n), fewer),
        call_ensures(Runner::<G, S, H, D>::with_node_limit, (runner, n), smaller),
        call_ensures(Runner::<G, S, H, D>::with_time_limit, (runner, t), shorter),
    ensures
        fewer.limits@.iter_limit == n,
        fewer.limits@.node_limit == runner.limits@.node_limit,
        fewer.limits@.time_limit == runner.limits@.time_limit,
        fewer.limits@.start_time == runner.limits@.start_time,
        fewer.limits@.memory == runner.limits@.memory,
        fewer.limits@.probe == runner.limits@.probe,
        same_but_limits(fewer, runner),
        smaller.limits@.iter_limit == runner.limits@.iter_limit,
        smaller.limits@.node_limit == n,
        smaller.limits@.time_limit == runner.limits@.time_limit,
        smaller.limits@.start_time == runner.limits@.start_time,
        smaller.limits@.memory == runner.limits@.memory,
        smaller.limits@.probe == runner.limits@.probe,
        same_but_limits(smaller, runner),
        shorter.limits@.iter_limit == runner.limits@.iter_limit,
        shorter.limits@.node_limit == runner.limits@.node_limit,
        shorter.limits@.time_limit == t,
        shorter.limits@.start_time == runner.limits@.start_time,
        shorter.limits@.memory == runner.limits@.memory,
        shorter.limits@.probe == runner.limits@.probe,
        same_but_limits(shorter, runner),
{
}

/// A hook is added behind the others.
pub proof fn law_hook_is_added<G: EGraph, S, H, D>(
    runner: Runner<G, S, H, D>,
    hook: H,
    longer: Runner<G, S, H, D>,
)
    requires
        call_ensures(Runner::<G, S, H, D>::with_hook, (runner, hook), longer),
    ensures
        longer.hooks@.len() == runner.hooks@.len() + 1,
        longer.hooks@.last() == hook,
        forall|j: int|
            0 <= j < runner.hooks@.len() ==> #[trigger] longer.hooks@[j] == runner.hooks@[j],
        longer.egraph == runner.egraph,
        longer.iterations == runner.iterations,
        longer.roots == runner.roots,
        longer.stop_reason == runner.stop_reason,
        longer.scheduler_snapshot == runner.scheduler_snapshot,
        longer.limits == runner.limits,
        longer.scheduler == runner.scheduler,
{
}

/// Changing out the scheduler or the e-graph leaves everything else.
pub proof fn law_parts_are_changed_out<G: EGraph, S, H, D, T>(
    runner: Runner<G, S, H, D>,
    scheduler: T,
    scheduled: Runner<G, T, H, D>,
    egraph: G,
    holding: Runner<G, S, H, D>,
)
    requires
        call_ensures(
            Runner::<G, S, H, D>::with_scheduler::<T>,
            (runner, scheduler),
            scheduled,
        ),
        call_ensures(Runner::<G, S, H, D>::with_egraph, (runner, egraph), holding),
    ensures
        scheduled.scheduler == scheduler,
        scheduled.egraph == runner.egraph,
        scheduled.iterations == runner.iterations,
        scheduled.roots == runner.roots,
        scheduled.stop_reason == runner.stop_reason,
        scheduled.scheduler_snapshot == runner.scheduler_snapshot,
        scheduled.hooks == runner.hooks,
        scheduled.limits == runner.limits,
        holding.egraph == egraph,
        holding.iterations == runner.iterations,
        holding.roots == runner.roots,
        holding.stop_reason == runner.stop_reason,
        holding.scheduler_snapshot == runner.scheduler_snapshot,
        holding.hooks == runner.hooks,
        holding.limits == runner.limits,
        holding.scheduler == runner.scheduler,
{
}

/// All parts but the e-graph are the same.
pub open spec fn same_but_egraph<G: EGraph, S, H, D>(
    a: Runner<G, S, H, D>,
    b: Runner<G, S, H, D>,
) -> bool {
    &&& a.iterations == b.iterations
    &&& a.roots == b.roots
    &&& a.stop_reason == b.stop_reason
    &&& a.scheduler_snapshot == b.scheduler_snapshot
    &&& a.hooks == b.hooks
    &&& a.limits == b.limits
    &&& a.scheduler == b.scheduler
}

/// An expression is added to the e-graph, and its class is put behind the other roots.
pub proof fn law_expression_is_added<G: EGraph, S, H, D>(
    runner: Runner<G, S, H, D>,
    expr: &G::Expr,
    larger: Runner<G, S, H, D>,
)
    requires
        call_ensures(Runner::<G, S, H, D>::with_expr, (runner, expr), larger),
    ensures
        larger.roots@.len() == runner.roots@.len() + 1,
        forall|j: int|
            0 <= j < runner.roots@.len() ==> #[trigger] larger.roots@[j] == runner.roots@[j],
        exists|g: &mut G|
            {
                &&& *g == runner.egraph
                &&& *final(g) == larger.egraph
                &&& #[trigger] call_ensures(
                    G::add_expr,
                    (g, expr),
                    larger.roots@[runner.roots@.len() as int],
                )
            },
        larger.iterations == runner.iterations,
        larger.stop_reason == runner.stop_reason,
        larger.scheduler_snapshot == runner.scheduler_snapshot,
        larger.hooks == runner.hooks,
        larger.limits == runner.limits,
        larger.scheduler == runner.scheduler,
{
    let (g, id) = choose|g: &mut G, id: Id|
        *g == runner.egraph && *final(g) == larger.egraph && larger.roots@ == runner.roots@.push(id)
            && #[trigger] call_ensures(G::add_expr, (g, expr), id);
    assert(larger.roots@[runner.roots@.len() as int] == id);
}

/// Each switch for explanations is that switch of the e-graph, and leaves everything else.
pub proof fn law_explanations_are_switched<G: EGraph, S, H, D>(
    runner: Runner<G, S, H, D>,
    on: Runner<G, S, H, D>,
    off: Runner<G, S, H, D>,
    short: Runner<G, S, H, D>,
    long: Runner<G, S, H, D>,
)
    requires
        call_ensures(Runner::<G, S, H, D>::with_explanations_enabled, (runner,), on),
        call_ensures(Runner::<G, S, H, D>::with_explanations_disabled, (runner,), off),
        call_ensures(
            Runner::<G, S, H, D>::with_explanation_length_optimization,
            (runner,),
            short,
        ),
        call_ensures(
            Runner::<G, S, H, D>::without_explanation_length_optimization,
            (runner,),
            long,
        ),
    ensures
        call_ensures(G::with_explanations_enabled, (runner.egraph,), on.egraph),
        same_but_egraph(on, runner),
        call_ensures(G::with_explanations_disabled, (runner.egraph,), off.egraph),
        same_but_egraph(off, runner),
        call_ensures(G::with_explanation_length_optimization, (runner.egraph,), short.egraph),
        same_but_egraph(short, runner),
        call_ensures(G::without_explanation_length_optimization, (runner.egraph,), long.egraph),
        same_but_egraph(long, runner),
{
}

/// The explanation of an equivalence is the e-graph's own, of the two expressions in
/// their order.
pub proof fn law_equivalence_is_explained<G: EGraph, S, H, D>(
    runner: &mut Runner<G, S, H, D>,
    left: &G::Expr,
    right: &G::Expr,
    explanation: G::Explanation,
)
    requires
        call_ensures(
            Runner::<G, S, H, D>::explain_equivalence,
            (runner, left, right),
            explanation,
        ),
    ensures
        exists|g: &mut G|
            {
                &&& *g == old(runner).egraph
                &&& *final(g) == final(runner).egraph
                &&& #[trigger] call_ensures(
                    G::explain_equivalence,
                    (g, left, right),
                    explanation,
                )
            },
        same_but_egraph(*final(runner), *old(runner)),
{
}

/// The explanation of a match is the e-graph's own.
pub proof fn law_match_is_explained<G: EGraph, S, H, D>(
    runner: &mut Runner<G, S, H, D>,
    left: &G::Expr,
    right: &G::Pattern,
    subst: &G::Subst,
    explanation: G::Explanation,
)
    requires
        call_ensures(
            Runner::<G, S, H, D>::explain_matches,
            (runner, left, right, subst),
            explanation,
        ),
    ensures
        exists|g: &mut G|
            {
                &&& *g == old(runner).egraph
                &&& *final(g) == final(runner).egraph
                &&& #[trigger] call_ensures(
                    G::explain_matches,
                    (g, left, right, subst),
                    explanation,
                )
            },
        same_but_egraph(*final(runner), *old(runner)),
{
}

/// What a runner says of its memory accounting is what the accounting holds.
pub proof fn law_memory_is_asked_back<G: EGraph, S, H, D>(
    runner: Runner<G, S, H, D>,
    reading: Option<u64>,
    peak: Option<IterationMemoryPeak>,
    ceiling: Option<u64>,
    report: Option<MemoryReport>,
)
    requires
        call_ensures(Runner::<G, S, H, D>::memory_reading, (&runner,), reading),
        call_ensures(Runner::<G, S, H, D>::iteration_memory_peak, (&runner,), peak),
        call_ensures(Runner::<G, S, H, D>::absolute_memory_limit, (&runner,), ceiling),
        call_ensures(Runner::<G, S, H, D>::final_memory_report, (&runner,), report),
    ensures
        runner.limits@.memory is None ==> reading is None && peak is None && ceiling is None
            && report is None,
        runner.limits@.memory matches Some(memory) ==> {
            &&& reading == Some(memory.latest)
            &&& peak == memory.iteration_peak
            &&& ceiling == memory.absolute_limit
            &&& report == memory.final_report
        },
{
}

/// A sample that a hook takes is recorded, and belongs to the hooks. Without accounting
/// nothing is sampled.
pub proof fn law_runner_samples_memory<G: EGraph, S, H, D>(
    runner: &mut Runner<G, S, H, D>,
    sample: Option<u64>,
)
    requires
        call_ensures(Runner::<G, S, H, D>::sample_memory, (runner,), sample),
    ensures
        same_but_limits(*final(runner), *old(runner)),
        same_but_memory(old(runner).limits@, final(runner).limits@),
        match old(runner).limits@.memory {
            None => sample is None && final(runner).limits@.memory is None
                && final(runner).limits@.probe == old(runner).limits@.probe,
            Some(memory) => {
                let left = final(runner).limits@;
                &&& sample is Some
                &&& left.memory is Some
                &&& <G::Probe as Probe>::samples(
                    old(runner).limits@.probe,
                    sample->0,
                    left.probe,
                )
                &&& recorded(memory, sample->0, left.memory->0)
                &&& attributed(
                    memory.iteration_peak,
                    MemorySamplePhase::DuringHook,
                    None,
                    sample->0,
                    left.memory->0.iteration_peak,
                )
                &&& left.memory->0.final_report == memory.final_report
            },
        },
{
}

/// A runner's own limit check compares the number of its records, the total size of its
/// e-graph, a time that the clock tells and its latest sample with its limits.
pub proof fn law_runner_checks_limits<
    G: EGraph,
    S: RewriteScheduler<G>,
    H: Hook<G, S, D>,
    D: IterationData<G, S, H>,
>(runner: &mut Runner<G, S, H, D>, result: RunnerResult<()>)
    requires
        old(runner).limits@.start_time is Some,
        call_ensures(Runner::<G, S, H, D>::check_limits, (runner,), result),
    ensures
        exists|now: u64, nodes: usize|
            #![trigger
                <G::Probe as Probe>::tells(
                    old(runner).limits@.probe,
                    now,
                    final(runner).limits@.probe,
                ),
                call_ensures(G::total_size, (&old(runner).egraph,), nodes)]
            {
                &&& <G::Probe as Probe>::tells(
                    old(runner).limits@.probe,
                    now,
                    final(runner).limits@.probe,
                )
                &&& call_ensures(G::total_size, (&old(runner).egraph,), nodes)
                &&& is_verdict(
                    old(runner).limits@,
                    old(runner).iterations.len(),
                    now,
                    nodes,
                    match old(runner).limits@.memory {
                        Some(memory) => Some(memory.latest),
                        None => None,
                    },
                    result,
                )
            },
        same_but_limits(*final(runner), *old(runner)),
        same_but_memory(old(runner).limits@, final(runner).limits@),
        final(runner).limits@.memory == old(runner).limits@.memory,
{
    let seen = law_check_compares_total_size(
        old(runner).limits@,
        old(runner).iterations.len(),
        old(runner).egraph,
        old(runner).limits@.latest(),
        final(runner).limits@,
        result,
    );
}

/// The hook that does nothing lets the runner go on as it is. In the process in which
/// nothing happens the clock shows zero, and nothing is on the heap.
pub proof fn law_idle_parts<G: EGraph, S, D>(
    hook: &mut (),
    runner: &mut Runner<G, S, (), D>,
    outcome: Result<(), String>,
    clock: &mut (),
    now: u64,
    heap: &mut (),
    reading: u64,
)
    requires
        call_ensures(<() as Hook<G, S, D>>::call, (hook, runner), outcome),
        call_ensures(<() as Probe>::now, (clock,), now),
        call_ensures(<() as Probe>::live_heap, (heap,), reading),
    ensures
        outcome is Ok,
        *final(runner) == *old(runner),
        now == 0,
        reading == 0,
{
}

} // verus!
