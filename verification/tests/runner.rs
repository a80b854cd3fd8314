use saturation::backoff::BackoffScheduler;
use saturation::egraph::{EGraph, Id, Probe, Rewrite, SearchMatches};
use saturation::iteration::{IterationTimes, Readings};
use saturation::limits::{RunnerLimits, RunnerResult, StopReason};
use saturation::memory::{IterationMemoryPeak, MemoryReport, MemorySamplePhase, MemoryTracker};
use saturation::runner::{Hook, IterationData, Runner};
use saturation::scheduler::{RewriteScheduler, Scheduler, SimpleScheduler};
use saturation::snapshot::SchedulerSnapshot;
use std::cell::{Cell, RefCell};
use std::collections::VecDeque;
use std::rc::Rc;

/// A process whose heap is sampled from a list and whose clock moves on by a tick
/// whenever it is read.
#[derive(Clone, Default)]
struct World {
    samples: Rc<RefCell<VecDeque<u64>>>,
    clock: Rc<Cell<u64>>,
    tick: u64,
}

impl World {
    fn samples_left(&self) -> usize {
        self.samples.borrow().len()
    }
}

impl Probe for World {
    fn now(&mut self) -> u64 {
        self.clock.set(self.clock.get() + self.tick);
        self.clock.get()
    }

    fn live_heap(&mut self) -> u64 {
        self.samples.borrow_mut().pop_front().expect("a sample is left")
    }
}

/// A leaf, or an operator over one class.
#[derive(Clone, PartialEq, Eq, Debug)]
struct Node {
    op: String,
    child: Option<Id>,
}

/// An e-graph over unary terms.
struct Graph {
    nodes: Vec<(Node, Id)>,
    parents: Vec<Id>,
    explained: bool,
    shortened: bool,
}

/// What a rule does with the class that it matches.
#[derive(Clone)]
enum Effect {
    /// `?x => (op ?x)`
    Equate(&'static str),
    /// Adds `(op ?x)` as a class of its own.
    Grow(&'static str),
    /// Adds `(op ?x)` as a class of its own and reports no change.
    GrowSilently(&'static str),
}

impl Graph {
    fn find(&self, id: Id) -> Id {
        let mut id = id;
        while self.parents[id as usize] != id {
            id = self.parents[id as usize];
        }
        id
    }

    fn roots(&self) -> Vec<Id> {
        (0..self.parents.len() as Id).filter(|id| self.find(*id) == *id).collect()
    }

    fn add(&mut self, op: &str, child: Option<Id>) -> (Id, bool) {
        let node = Node { op: op.to_string(), child: child.map(|id| self.find(id)) };
        if let Some((_, id)) = self.nodes.iter().find(|(known, _)| *known == node) {
            return (self.find(*id), false);
        }
        let id = self.parents.len() as Id;
        self.parents.push(id);
        self.nodes.push((node, id));
        (id, true)
    }

    fn union(&mut self, a: Id, b: Id) -> bool {
        let (a, b) = (self.find(a), self.find(b));
        let (low, high) = (a.min(b), a.max(b));
        self.parents[high as usize] = low;
        a != b
    }
}

impl EGraph for Graph {
    type Probe = World;
    type Analysis = ();
    type Expr = Vec<&'static str>;
    type Pattern = &'static str;
    type Rule = Effect;
    type Subst = Id;
    type Explanation = String;

    fn new(_: ()) -> Self {
        Graph {
            nodes: vec![],
            parents: vec![],
            explained: false,
            shortened: true,
        }
    }

    fn add_expr(&mut self, expr: &Vec<&'static str>) -> Id {
        let mut class = None;
        for op in expr.iter().rev() {
            class = Some(self.add(op, class).0);
        }
        class.expect("an expression is not empty")
    }

    fn total_size(&self) -> usize {
        self.nodes.len()
    }

    fn total_number_of_nodes(&self) -> usize {
        self.nodes.len()
    }

    fn number_of_classes(&self) -> usize {
        self.roots().len()
    }

    fn rebuild(&mut self) -> usize {
        let mut rounds = 0;
        loop {
            rounds += 1;
            let mut kept: Vec<(Node, Id)> = vec![];
            let mut merged = vec![];
            for (node, id) in &self.nodes {
                let node = Node { op: node.op.clone(), child: node.child.map(|c| self.find(c)) };
                match kept.iter().find(|(known, _)| *known == node) {
                    Some((_, other)) => merged.push((*id, *other)),
                    None => kept.push((node, *id)),
                }
            }
            self.nodes = kept;
            if merged.is_empty() {
                return rounds;
            }
            for (a, b) in merged {
                self.union(a, b);
            }
        }
    }

    fn search(&self, _rule: &Effect) -> Vec<SearchMatches<Id>> {
        self.roots()
            .into_iter()
            .map(|id| SearchMatches { eclass: id, substs: vec![id] })
            .collect()
    }

    fn search_with_limit(&self, rule: &Effect, limit: usize) -> Vec<SearchMatches<Id>> {
        let mut found = self.search(rule);
        found.truncate(limit);
        found
    }

    fn apply(&mut self, rule: &Effect, matches: &Vec<SearchMatches<Id>>) -> Vec<Id> {
        let mut changed = vec![];
        for found in matches {
            match rule {
                Effect::Equate(op) => {
                    let (id, _) = self.add(op, Some(found.eclass));
                    if self.union(id, found.eclass) {
                        changed.push(found.eclass);
                    }
                }
                Effect::Grow(op) => {
                    let (id, new) = self.add(op, Some(found.eclass));
                    if new {
                        changed.push(id);
                    }
                }
                Effect::GrowSilently(op) => {
                    self.add(op, Some(found.eclass));
                }
            }
        }
        changed
    }

    fn with_explanations_enabled(mut self) -> Self {
        self.explained = true;
        self
    }

    fn with_explanations_disabled(mut self) -> Self {
        self.explained = false;
        self
    }

    fn with_explanation_length_optimization(mut self) -> Self {
        self.shortened = true;
        self
    }

    fn without_explanation_length_optimization(mut self) -> Self {
        self.shortened = false;
        self
    }

    fn explain_equivalence(
        &mut self,
        left: &Vec<&'static str>,
        right: &Vec<&'static str>,
    ) -> String {
        let (left, right) = (self.add_expr(left), self.add_expr(right));
        format!("{} = {}", left, right)
    }

    fn explain_matches(
        &mut self,
        left: &Vec<&'static str>,
        right: &&'static str,
        subst: &Id,
    ) -> String {
        format!("{} ~ {} [{}]", self.add_expr(left), right, subst)
    }
}

/// An e-graph that notes how many samples are left when it is made.
struct Late {
    samples_left: usize,
}

impl EGraph for Late {
    type Probe = World;
    type Analysis = World;
    type Expr = ();
    type Pattern = ();
    type Rule = ();
    type Subst = ();
    type Explanation = ();

    fn new(process: World) -> Self {
        Late { samples_left: process.samples_left() }
    }

    fn add_expr(&mut self, _: &()) -> Id {
        0
    }

    fn total_size(&self) -> usize {
        0
    }

    fn total_number_of_nodes(&self) -> usize {
        0
    }

    fn number_of_classes(&self) -> usize {
        0
    }

    fn rebuild(&mut self) -> usize {
        0
    }

    fn search(&self, _: &()) -> Vec<SearchMatches<()>> {
        vec![]
    }

    fn search_with_limit(&self, _: &(), _: usize) -> Vec<SearchMatches<()>> {
        vec![]
    }

    fn apply(&mut self, _: &(), _: &Vec<SearchMatches<()>>) -> Vec<Id> {
        vec![]
    }

    fn with_explanations_enabled(self) -> Self {
        self
    }

    fn with_explanations_disabled(self) -> Self {
        self
    }

    fn with_explanation_length_optimization(self) -> Self {
        self
    }

    fn without_explanation_length_optimization(self) -> Self {
        self
    }

    fn explain_equivalence(&mut self, _: &(), _: &()) {}

    fn explain_matches(&mut self, _: &(), _: &(), _: &()) {}
}

fn equate(name: &str, op: &'static str) -> Rewrite<Effect> {
    Rewrite { name: name.to_string(), rule: Effect::Equate(op) }
}

fn grow(name: &str, op: &'static str) -> Rewrite<Effect> {
    Rewrite { name: name.to_string(), rule: Effect::Grow(op) }
}

fn samples(list: &[u64]) -> World {
    World { samples: Rc::new(RefCell::new(list.to_vec().into())), ..World::default() }
}

fn ticking(tick: u64) -> World {
    World { tick, ..World::default() }
}

fn match_limit_log2(limit: usize) -> f64 {
    if limit == 0 {
        0.0
    } else {
        (limit as f64).log2()
    }
}

type Plain = Runner<Graph, BackoffScheduler, (), ()>;

#[test]
fn introspected_effective_limit_is_the_search_threshold() {
    let rewrite = equate("explode", "f");
    let mut scheduler = BackoffScheduler::default().with_initial_match_limit(0);
    let before = scheduler.snapshot(0, &["explode".to_string()]);
    assert_eq!(before.rules[0].match_limit, 0);
    assert_eq!(match_limit_log2(before.rules[0].match_limit), 0.0);

    let mut egraph = Graph::new(());
    egraph.add_expr(&vec!["x"]);
    egraph.rebuild();
    let matches = scheduler.search_rewrite(0, &egraph, &rewrite);
    assert!(matches.is_empty());
    assert_eq!(scheduler.stats["explode"].times_banned, 1);
}

#[test]
fn a_search_within_the_threshold_is_handed_on() {
    let rewrite = equate("explode", "f");
    let mut scheduler = BackoffScheduler::default().with_initial_match_limit(1);
    let mut egraph = Graph::new(());
    egraph.add_expr(&vec!["x"]);
    let matches = scheduler.search_rewrite(0, &egraph, &rewrite);
    assert_eq!(matches.len(), 1);
    assert_eq!(scheduler.stats["explode"].times_applied, 1);

    egraph.add_expr(&vec!["y"]);
    egraph.add_expr(&vec!["z"]);
    assert!(scheduler.search_rewrite(1, &egraph, &rewrite).is_empty());
    assert_eq!(scheduler.stats["explode"].banned_until, 6);
    let banned = scheduler.stats["explode"];
    assert!(scheduler.search_rewrite(5, &egraph, &rewrite).is_empty());
    assert_eq!(scheduler.stats["explode"], banned);
    assert!(scheduler.search_rewrite(6, &egraph, &rewrite).is_empty());
    assert_eq!(scheduler.stats["explode"].times_banned, 2);
    assert_eq!(scheduler.stats["explode"].banned_until, 16);
    assert_eq!(scheduler.search_rewrite(16, &egraph, &rewrite).len(), 3);
}

#[derive(Debug, PartialEq)]
struct CapturedSnapshot(SchedulerSnapshot);

impl<G: EGraph, S, H> IterationData<G, S, H> for CapturedSnapshot {
    fn make(runner: &Runner<G, S, H, Self>) -> Self {
        Self(runner.scheduler_snapshot.clone())
    }
}

#[test]
fn runner_stores_snapshot_from_before_search() {
    let rewrite = equate("expand", "f");
    let runner =
        Runner::<Graph, BackoffScheduler, (), CapturedSnapshot>::new((), World::default())
            .with_expr(&vec!["x"])
            .with_iter_limit(3)
            .with_scheduler(
                BackoffScheduler::default().with_initial_match_limit(0).with_ban_length(5),
            )
            .run(&[rewrite]);

    assert_eq!(runner.iterations[0].data.0.total_times_banned, 0);
    assert_eq!(runner.iterations[0].data.0.rules.len(), 1);
    assert_eq!(runner.iterations[1].data.0.total_times_banned, 1);
    assert!(runner.iterations[1].data.0.rules[0].will_search);
    assert!(!runner.iterations[1].data.0.rules[0].newly_unbanned);
    assert_eq!(runner.iterations[2].data.0.total_times_banned, 2);
}

#[derive(Debug)]
struct CapturedPeak {
    peak: IterationMemoryPeak,
    end: u64,
}

impl<S, H> IterationData<Graph, S, H> for CapturedPeak {
    fn make(runner: &Runner<Graph, S, H, Self>) -> Self {
        Self {
            peak: runner.iteration_memory_peak().unwrap(),
            end: runner.memory_reading().unwrap(),
        }
    }
}

#[test]
fn transient_search_peak_is_attributed_retained_and_reset() {
    // tracker initialization; iteration 0 start/search/apply/finalize;
    // iteration 1 start/search/apply/finalize; final run report.
    let process = samples(&[90, 100, 500, 120, 110, 200, 180, 170, 160, 150]);
    let rewrite = equate("expand", "f");
    let runner =
        Runner::<Graph, BackoffScheduler, (), CapturedPeak>::new_with_memory_tracker(
            (),
            process.clone(),
            None,
        )
        .with_expr(&vec!["x"])
        .with_iter_limit(2)
        .run(&[rewrite]);

    let first = &runner.iterations[0].data;
    assert_eq!(first.peak.iteration_start_allocated, 100);
    assert_eq!(first.peak.iteration_peak_allocated, 500);
    assert_eq!(first.peak.peak_phase, MemorySamplePhase::AfterRuleSearch);
    assert_eq!(first.peak.peak_rule, Some(String::from("expand")));
    assert_eq!(first.end, 110);

    let second = &runner.iterations[1].data;
    assert_eq!(second.peak.iteration_start_allocated, 200);
    assert_eq!(second.peak.iteration_peak_allocated, 200);
    assert_eq!(second.peak.peak_phase, MemorySamplePhase::BeforeHooks);
    assert_eq!(second.peak.peak_rule, None);
    assert_eq!(second.end, 160);

    assert_eq!(
        runner.final_memory_report(),
        Some(MemoryReport { final_reading: 150, peak_reading: 500, absolute_limit: None })
    );
    assert_eq!(process.samples_left(), 0);
    assert_eq!(runner.memory_reading(), Some(150));
    assert_eq!(runner.absolute_memory_limit(), None);
}

#[test]
fn transient_crossing_survives_after_match_vector_is_dropped() {
    // No application sample occurs because the post-search hard-limit
    // check stops the iteration and drops its match vector.
    let process = samples(&[90, 100, 500, 120, 110]);
    let rewrite = equate("catastrophic", "f");
    let runner = Runner::<Graph, BackoffScheduler, (), CapturedPeak>::new_with_memory_tracker(
        (),
        process.clone(),
        Some(400),
    )
    .with_expr(&vec!["x"])
    .with_iter_limit(5)
    .run(&[rewrite]);

    assert!(matches!(runner.stop_reason, Some(StopReason::MemoryLimit(500))));
    let data = &runner.iterations[0].data;
    assert_eq!(data.peak.iteration_peak_allocated, 500);
    assert_eq!(data.peak.peak_rule, Some(String::from("catastrophic")));
    assert_eq!(data.end, 120);
    assert!(data.end < 400);

    assert_eq!(runner.absolute_memory_limit(), Some(400));
    assert_eq!(runner.iterations.len(), 1);
    assert!(runner.iterations[0].applied.is_empty());
    assert_eq!(process.samples_left(), 0);
}

#[test]
fn the_final_report_is_fixed_when_the_run_ends() {
    let process = samples(&[90, 100, 120, 110, 105, 95, 700]);
    let mut runner = Plain::new_with_memory_tracker((), process.clone(), Some(600))
        .with_expr(&vec!["x"])
        .with_iter_limit(1)
        .run(&[equate("a", "f")]);
    let report =
        Some(MemoryReport { final_reading: 95, peak_reading: 120, absolute_limit: Some(600) });
    assert_eq!(runner.final_memory_report(), report);
    assert_eq!(runner.sample_memory(), Some(700));
    assert_eq!(runner.memory_reading(), Some(700));
    assert_eq!(runner.final_memory_report(), report);
}

#[test]
fn memory_is_sampled_at_every_boundary() {
    // two iterations over three rules, and the samples before and after the run
    let list: Vec<u64> = (0..1 + 2 * (2 + 2 * 3) + 1).collect();
    let rules = [equate("a", "f"), equate("b", "g"), equate("c", "h")];
    let process = samples(&list);
    let runner = Plain::new_with_memory_tracker((), process.clone(), None)
        .with_expr(&vec!["x"])
        .run(&rules);
    assert_eq!(runner.iterations.len(), 2);
    assert_eq!(process.samples_left(), 0);
    assert_eq!(runner.final_memory_report().unwrap().final_reading, 17);
}

#[test]
fn the_first_sample_is_taken_before_the_graph_is_made() {
    let process = samples(&[7]);
    let runner = Runner::<Late, BackoffScheduler, (), ()>::new_with_memory_tracker(
        process.clone(),
        process,
        None,
    );
    assert_eq!(runner.egraph.samples_left, 0);
    assert_eq!(runner.memory_reading(), Some(7));
}

#[test]
fn another_graph_leaves_clock_and_sampler_alone() {
    let process = World { tick: 1, ..samples(&[1, 2, 3, 4, 5, 6]) };
    let mut other = Graph::new(());
    other.add_expr(&vec!["x"]);
    let runner = Plain::new_with_memory_tracker((), process.clone(), None)
        .with_egraph(other)
        .with_iter_limit(1)
        .run(&[equate("a", "f")]);
    assert_eq!(process.samples_left(), 0);
    assert_eq!(runner.final_memory_report().unwrap().final_reading, 6);
    assert_eq!(runner.iterations[0].total_time, 14);
}

#[test]
fn times_are_taken_between_their_own_readings() {
    let readings = Readings {
        start: 1,
        hook_start: 10,
        hook_end: 12,
        search_start: 20,
        search_end: 25,
        apply_start: 30,
        apply_end: 37,
        rebuild_start: 40,
        rebuild_end: 51,
        end: 100,
    };
    let times =
        IterationTimes { hook: 2, search: 5, apply: 7, rebuild: 11, total: 99 };
    assert_eq!(readings.times(), times);
    assert_eq!(Readings { search_end: 3, ..readings }.times().search, 0);
}

#[test]
fn a_run_saturates_when_nothing_new_is_learned() {
    let rules = [equate("a", "f"), equate("b", "g")];
    let runner = Plain::new((), World::default()).with_expr(&vec!["x"]).run(&rules);
    assert_eq!(runner.stop_reason, Some(StopReason::Saturated));
    assert_eq!(runner.iterations.len(), 2);
    assert_eq!(runner.iterations[0].stop_reason, None);
    assert_eq!(runner.iterations[1].stop_reason, Some(StopReason::Saturated));
    let applied: Vec<_> = runner.iterations[0].applied.iter().collect();
    assert_eq!(applied, vec![(&"a".to_string(), &1), (&"b".to_string(), &1)]);
    assert!(runner.iterations[1].applied.is_empty());
    assert_eq!(runner.iterations[0].egraph_nodes, 1);
    assert_eq!(runner.iterations[1].egraph_nodes, 3);
    assert_eq!(runner.iterations[1].egraph_classes, 1);
    assert_eq!(runner.final_memory_report(), None);
    assert_eq!(runner.memory_reading(), None);
    assert_eq!(runner.iteration_memory_peak(), None);
    assert_eq!(runner.roots, vec![0]);
}

#[test]
fn rules_without_matches_saturate_at_once() {
    let runner = Plain::default().run(&[equate("a", "f")]);
    assert_eq!(runner.stop_reason, Some(StopReason::Saturated));
    assert_eq!(runner.iterations.len(), 1);
    let runner = Plain::default().with_expr(&vec!["x"]).run(&[]);
    assert_eq!(runner.stop_reason, Some(StopReason::Saturated));
}

#[test]
fn rules_that_share_a_name_share_a_count() {
    let runner = Plain::default()
        .with_expr(&vec!["x"])
        .with_iter_limit(1)
        .run(&[equate("a", "f"), equate("b", "g"), equate("a", "h")]);
    let applied: Vec<_> = runner.iterations[0].applied.iter().collect();
    assert_eq!(applied, vec![(&"a".to_string(), &2), (&"b".to_string(), &1)]);
    assert_eq!(runner.stop_reason, Some(StopReason::IterationLimit(1)));
}

#[test]
fn a_run_stops_at_the_iteration_limit() {
    let runner = Plain::new((), World::default())
        .with_expr(&vec!["x"])
        .with_iter_limit(4)
        .run(&[grow("a", "f")]);
    assert_eq!(runner.stop_reason, Some(StopReason::IterationLimit(4)));
    assert_eq!(runner.iterations.len(), 4);
    assert!(runner.iterations[..3].iter().all(|iteration| iteration.stop_reason.is_none()));
    assert_eq!(runner.iterations[3].stop_reason, Some(StopReason::IterationLimit(4)));

    let runner = Plain::new((), World::default()).with_expr(&vec!["x"]).run(&[grow("a", "f")]);
    assert_eq!(runner.stop_reason, Some(StopReason::IterationLimit(30)));
    assert_eq!(runner.iterations.len(), 30);
}

#[test]
fn an_iteration_limit_of_zero_records_one_refused_iteration() {
    let runner = Plain::default()
        .with_expr(&vec!["x"])
        .with_iter_limit(0)
        .run(&[grow("a", "f")]);
    assert_eq!(runner.stop_reason, Some(StopReason::IterationLimit(0)));
    assert_eq!(runner.iterations.len(), 1);
    assert!(runner.iterations[0].applied.is_empty());
    assert_eq!(runner.egraph.total_size(), 1);
    assert!(runner.scheduler.stats.is_empty());
}

#[test]
fn a_run_stops_at_the_node_limit() {
    let runner = Plain::default()
        .with_expr(&vec!["x"])
        .with_node_limit(3)
        .run(&[grow("a", "f"), grow("b", "g")]);
    assert_eq!(runner.stop_reason, Some(StopReason::NodeLimit(3)));
    assert_eq!(runner.iterations.len(), 2);
    assert_eq!(runner.iterations[1].stop_reason, Some(StopReason::NodeLimit(3)));
    // the second rule of the last iteration was not applied
    assert_eq!(runner.iterations[1].applied.len(), 1);
}

#[test]
fn a_run_stops_at_the_time_limit() {
    let runner = Plain::new((), ticking(10))
        .with_expr(&vec!["x"])
        .with_time_limit(100)
        .run(&[grow("a", "f")]);
    assert_eq!(runner.stop_reason, Some(StopReason::TimeLimit(100)));
    assert_eq!(runner.iterations.len(), 1);
    assert_eq!(runner.iterations[0].applied.len(), 1);
}

#[test]
fn memory_at_the_ceiling_stops_a_run() {
    let runner = Plain::new_with_memory_tracker((), samples(&[10, 400, 20, 30]), Some(400))
        .with_expr(&vec!["x"])
        .run(&[grow("a", "f")]);
    assert_eq!(runner.stop_reason, Some(StopReason::MemoryLimit(400)));
    assert_eq!(
        runner.final_memory_report(),
        Some(MemoryReport { final_reading: 30, peak_reading: 400, absolute_limit: Some(400) })
    );
}

#[test]
fn time_counts_before_size_and_iterations_before_memory() {
    let memory = Some(MemoryTracker::new(0, Some(50)));
    let mut limits = RunnerLimits::new(3, 10, 100, memory, World::default());
    limits.try_start();
    assert_eq!(limits.limit_hit(2, 100, 10, Some(49)), Ok(()));
    assert_eq!(limits.limit_hit(3, 101, 11, Some(50)), Err(StopReason::TimeLimit(100)));
    assert_eq!(limits.limit_hit(3, 100, 11, Some(50)), Err(StopReason::NodeLimit(10)));
    assert_eq!(limits.limit_hit(3, 100, 10, Some(50)), Err(StopReason::IterationLimit(3)));
    assert_eq!(limits.limit_hit(2, 100, 10, Some(50)), Err(StopReason::MemoryLimit(50)));
    assert_eq!(limits.limit_hit(2, 100, 10, None), Ok(()));

    let memory = Some(MemoryTracker::new(0, None));
    let mut unlimited = RunnerLimits::new(3, 10, 100, memory, World::default());
    unlimited.try_start();
    assert_eq!(unlimited.limit_hit(0, 0, 0, Some(u64::MAX)), Ok(()));
}

#[test]
fn the_clock_starts_once() {
    let graph = Graph::new(());
    let process = ticking(10);
    let mut limits = RunnerLimits::new(30, 100, 5, None, process.clone());
    limits.try_start();
    limits.try_start();
    assert_eq!(limits.check_reading(0, &graph, None), Err(StopReason::TimeLimit(5)));
    assert_eq!(process.clock.get(), 20);
    assert_eq!(limits.limit_hit(0, 15, 0, None), Ok(()));
    assert_eq!(limits.limit_hit(0, 16, 0, None), Err(StopReason::TimeLimit(5)));
    // a clock that runs backward has not moved
    assert_eq!(limits.limit_hit(0, 3, 0, None), Ok(()));
}

#[test]
fn limit_checks_sample_memory_at_their_boundary() {
    let graph = Graph::new(());
    let memory = Some(MemoryTracker::new(1, Some(9)));
    let mut limits = RunnerLimits::new(30, 100, 5, memory, samples(&[7, 5, 9, 3]));
    limits.try_start();
    assert_eq!(limits.begin_iteration(0, &graph), Ok(()));
    assert_eq!(limits.check_limits(0, &graph), Ok(()));
    assert_eq!(limits.iteration_memory_peak().unwrap().iteration_peak_allocated, 7);
    assert_eq!(
        limits.check_limits_at(
            0,
            &graph,
            MemorySamplePhase::AfterRuleApplication,
            Some("a".to_string())
        ),
        Err(StopReason::MemoryLimit(9))
    );
    let peak = limits.iteration_memory_peak().unwrap();
    assert_eq!(peak.peak_phase, MemorySamplePhase::AfterRuleApplication);
    assert_eq!(peak.peak_rule, Some("a".to_string()));
    assert_eq!(limits.final_memory_report(), None);
    limits.finish();
    assert_eq!(
        limits.final_memory_report(),
        Some(MemoryReport { final_reading: 3, peak_reading: 9, absolute_limit: Some(9) })
    );
}

/// Hooks that each do one thing.
enum TestHook {
    Fail(usize, &'static str),
    Count(usize),
    Sample,
    Listed(usize),
    Add(&'static str),
}

impl<S, D> Hook<Graph, S, D> for TestHook {
    fn call(&mut self, runner: &mut Runner<Graph, S, Self, D>) -> Result<(), String> {
        match self {
            TestHook::Fail(0, message) => Err(message.to_string()),
            TestHook::Fail(left, _) => {
                *left -= 1;
                Ok(())
            }
            TestHook::Count(n) => {
                *n += 1;
                Ok(())
            }
            TestHook::Sample => {
                runner.sample_memory();
                Ok(())
            }
            TestHook::Listed(n) => {
                *n = runner.hooks.len();
                Ok(())
            }
            TestHook::Add(leaf) => {
                runner.egraph.add_expr(&vec![*leaf]);
                Ok(())
            }
        }
    }
}

fn counted(hook: &TestHook) -> usize {
    match hook {
        TestHook::Count(n) => *n,
        _ => panic!("not a counting hook"),
    }
}

#[test]
fn a_failing_hook_stops_the_run_before_the_search() {
    let runner = Runner::<Graph, BackoffScheduler, TestHook, ()>::new((), World::default())
        .with_expr(&vec!["x"])
        .with_hook(TestHook::Count(0))
        .with_hook(TestHook::Fail(1, "enough"))
        .with_hook(TestHook::Count(0))
        .run(&[grow("a", "f")]);
    assert_eq!(runner.stop_reason, Some(StopReason::Other("enough".to_string())));
    assert_eq!(runner.iterations.len(), 2);
    assert_eq!(runner.iterations[0].applied.len(), 1);
    assert!(runner.iterations[1].applied.is_empty());
    assert_eq!(runner.hooks.len(), 3);
    assert_eq!(counted(&runner.hooks[0]), 2);
    assert_eq!(counted(&runner.hooks[2]), 1);
    assert_eq!(runner.scheduler.stats["a"].times_applied, 1);
}

#[test]
fn hooks_do_not_run_in_a_refused_iteration() {
    let runner = Runner::<Graph, BackoffScheduler, TestHook, ()>::new((), World::default())
        .with_expr(&vec!["x"])
        .with_node_limit(0)
        .with_hook(TestHook::Count(0))
        .run(&[grow("a", "f")]);
    assert_eq!(runner.stop_reason, Some(StopReason::NodeLimit(0)));
    assert_eq!(counted(&runner.hooks[0]), 0);
}

#[test]
fn a_hook_that_changes_the_graph_prevents_saturation() {
    let runner = Runner::<Graph, BackoffScheduler, TestHook, ()>::new((), World::default())
        .with_expr(&vec!["x"])
        .with_hook(TestHook::Add("y"))
        .run(&[]);
    assert_eq!(runner.stop_reason, Some(StopReason::Saturated));
    assert_eq!(runner.iterations.len(), 2);
    assert_eq!(runner.iterations[0].stop_reason, None);
}

#[test]
fn silent_changes_prevent_saturation() {
    let rule = Rewrite { name: "quiet".to_string(), rule: Effect::GrowSilently("f") };
    let runner = Plain::default().with_expr(&vec!["x"]).with_iter_limit(6).run(&[rule]);
    assert_eq!(runner.stop_reason, Some(StopReason::IterationLimit(6)));
    assert!(runner.iterations.iter().all(|iteration| iteration.applied.is_empty()));
}

#[test]
fn a_sample_in_a_hook_is_attributed_to_it() {
    let runner = Runner::<Graph, BackoffScheduler, TestHook, CapturedPeak>::new_with_memory_tracker(
        (),
        samples(&[1, 2, 50, 3, 4, 5, 6]),
        None,
    )
    .with_expr(&vec!["x"])
    .with_iter_limit(1)
    .with_hook(TestHook::Sample)
    .run(&[equate("a", "f")]);
    let peak = &runner.iterations[0].data.peak;
    assert_eq!(peak.iteration_peak_allocated, 50);
    assert_eq!(peak.peak_phase, MemorySamplePhase::DuringHook);
    assert_eq!(peak.peak_rule, None);
}

#[test]
fn without_a_tracker_nothing_is_sampled() {
    let mut runner = Plain::default();
    assert_eq!(runner.sample_memory(), None);
    let mut sampled = Plain::new_with_memory_tracker((), samples(&[4, 9]), Some(5));
    assert_eq!(sampled.memory_reading(), Some(4));
    assert_eq!(sampled.sample_memory(), Some(9));
    assert_eq!(sampled.memory_reading(), Some(9));
    assert_eq!(sampled.iteration_memory_peak(), None);
    assert_eq!(sampled.absolute_memory_limit(), Some(5));
}

#[test]
fn times_are_recorded_and_summed_up() {
    let runner = Plain::new((), ticking(1)).with_expr(&vec!["x"]).run(&[equate("a", "f")]);
    assert_eq!(runner.stop_reason, Some(StopReason::Saturated));
    assert_eq!(runner.iterations.len(), 2);
    for iteration in &runner.iterations {
        assert_eq!(iteration.hook_time, 1);
        assert_eq!(iteration.search_time, 2);
        assert_eq!(iteration.apply_time, 2);
        assert_eq!(iteration.rebuild_time, 1);
        assert_eq!(iteration.n_rebuilds, 1);
    }
    assert_eq!(runner.iterations[0].total_time, 14);
    assert_eq!(runner.iterations[1].total_time, 13);

    let report = runner.report();
    assert_eq!(report.stop_reason, StopReason::Saturated);
    assert_eq!(report.iterations, 2);
    assert_eq!(report.egraph_nodes, 2);
    assert_eq!(report.egraph_classes, 1);
    assert_eq!(report.memo_size, 2);
    assert_eq!(report.rebuilds, 2);
    assert_eq!(report.search_time, 4);
    assert_eq!(report.apply_time, 4);
    assert_eq!(report.rebuild_time, 2);
    assert_eq!(report.total_time, 27);
}

#[test]
fn a_record_can_be_cloned() {
    let runner = Plain::new((), ticking(1)).with_expr(&vec!["x"]).run(&[equate("a", "f")]);
    let copy = runner.iterations[0].clone();
    assert_eq!(copy.applied, runner.iterations[0].applied);
    assert_eq!(copy.applied["a"], 1);
    assert_eq!(copy.total_time, 14);
    assert_eq!(runner.iterations[1].clone().stop_reason, Some(StopReason::Saturated));
}

#[test]
fn a_scheduler_searches_every_rule_in_turn() {
    let mut graph = Graph::new(());
    graph.add_expr(&vec!["f", "x"]);
    let mut limits = RunnerLimits::new(30, 100, 5, None, World::default());
    limits.try_start();
    let rules = [equate("a", "f"), equate("b", "g")];
    let found = SimpleScheduler.search_rewrites(0, &graph, &rules, &mut limits).unwrap();
    assert_eq!(found.len(), 2);
    assert!(found.iter().all(|matches| matches.len() == 2));
    assert!(SimpleScheduler.search_rewrites(30, &graph, &[], &mut limits).unwrap().is_empty());
    assert!(matches!(
        SimpleScheduler.search_rewrites(30, &graph, &rules, &mut limits),
        Err(StopReason::IterationLimit(30))
    ));
}

#[test]
fn the_simple_scheduler_applies_everything() {
    let runner = Plain::default()
        .with_expr(&vec!["f", "x"])
        .with_scheduler(SimpleScheduler)
        .with_iter_limit(1)
        .run(&[equate("a", "g")]);
    assert_eq!(runner.iterations[0].applied["a"], 2);
    assert_eq!(runner.scheduler_snapshot.scheduler, "generic");
}

/// A scheduler that refuses to stop a few times.
struct Stubborn(usize);

impl Scheduler for Stubborn {
    fn can_stop(&mut self, _iteration: usize) -> bool {
        if self.0 == 0 {
            return true;
        }
        self.0 -= 1;
        false
    }
}

impl RewriteScheduler<Graph> for Stubborn {}

#[test]
fn a_scheduler_may_keep_a_run_from_saturating() {
    let runner =
        Plain::default().with_expr(&vec!["x"]).with_scheduler(Stubborn(3)).run(&[]);
    assert_eq!(runner.stop_reason, Some(StopReason::Saturated));
    assert_eq!(runner.iterations.len(), 4);
    // the scheduler is asked only when nothing else was learned
    let runner = Plain::default()
        .with_expr(&vec!["x"])
        .with_scheduler(Stubborn(3))
        .with_iter_limit(2)
        .run(&[grow("a", "f")]);
    assert_eq!(runner.scheduler.0, 3);
}

/// A scheduler that hands on matches for some rules only, or an error.
struct Partial(Result<usize, &'static str>);

impl Scheduler for Partial {}

impl RewriteScheduler<Graph> for Partial {
    fn search_rewrites(
        &mut self,
        _iteration: usize,
        egraph: &Graph,
        rewrites: &[Rewrite<Effect>],
        _limits: &mut RunnerLimits<World>,
    ) -> RunnerResult<Vec<Vec<SearchMatches<Id>>>> {
        match self.0 {
            Ok(n) => Ok(rewrites.iter().take(n).map(|rw| egraph.search(&rw.rule)).collect()),
            Err(message) => Err(StopReason::Other(message.to_string())),
        }
    }
}

#[test]
fn rules_are_applied_as_far_as_there_are_matches() {
    let rules = [equate("a", "f"), equate("b", "g")];
    let runner = Plain::default()
        .with_expr(&vec!["x"])
        .with_scheduler(Partial(Ok(1)))
        .with_iter_limit(1)
        .run(&rules);
    assert_eq!(runner.iterations[0].applied.len(), 1);
    assert_eq!(runner.iterations[0].applied["a"], 1);
}

#[test]
fn a_failing_search_stops_the_run() {
    let runner = Plain::default()
        .with_expr(&vec!["x"])
        .with_scheduler(Partial(Err("no more")))
        .run(&[equate("a", "f")]);
    assert_eq!(runner.stop_reason, Some(StopReason::Other("no more".to_string())));
    assert!(runner.iterations[0].applied.is_empty());
    assert_eq!(runner.egraph.total_size(), 1);
}

#[test]
fn the_first_reason_to_stop_counts() {
    // the search crosses the ceiling, and so does the end of the iteration
    let runner = Plain::new_with_memory_tracker((), samples(&[1, 2, 60, 70, 3]), Some(50))
        .with_expr(&vec!["x"])
        .run(&[equate("a", "f")]);
    assert_eq!(runner.stop_reason, Some(StopReason::MemoryLimit(60)));
    assert_eq!(runner.iterations[0].stop_reason, Some(StopReason::MemoryLimit(60)));
    assert_eq!(
        runner.final_memory_report(),
        Some(MemoryReport { final_reading: 3, peak_reading: 70, absolute_limit: Some(50) })
    );
}

#[test]
fn builders_change_one_thing_each() {
    let runner = Plain::default().with_explanations_enabled();
    assert!(runner.egraph.explained && runner.egraph.shortened);
    let runner = runner.without_explanation_length_optimization();
    assert!(runner.egraph.explained && !runner.egraph.shortened);
    let runner = runner.with_explanation_length_optimization().with_explanations_disabled();
    assert!(!runner.egraph.explained && runner.egraph.shortened);

    let mut other = Graph::new(());
    other.add_expr(&vec!["y"]);
    other.add_expr(&vec!["x"]);
    let mut runner = runner.with_egraph(other).with_expr(&vec!["f", "y"]).with_expr(&vec!["x"]);
    assert_eq!(runner.roots, vec![2, 1]);
    assert_eq!(runner.egraph.total_size(), 3);
    assert_eq!(runner.explain_equivalence(&vec!["x"], &vec!["z"]), "1 = 3");
    assert_eq!(runner.explain_matches(&vec!["x"], &"?a", &7), "1 ~ ?a [7]");
    assert!(runner.stop_reason.is_none());
    assert_eq!(runner.scheduler_snapshot, SchedulerSnapshot::default());
}

#[test]
fn hooks_see_no_hooks_while_they_run() {
    let runner = Runner::<Graph, BackoffScheduler, TestHook, ()>::new((), World::default())
        .with_expr(&vec!["x"])
        .with_hook(TestHook::Listed(9))
        .with_hook(TestHook::Listed(9))
        .with_iter_limit(1)
        .run(&[]);
    assert!(runner.hooks.iter().all(|hook| matches!(hook, TestHook::Listed(0))));
}

#[test]
fn a_snapshot_survives_hooks_that_keep_it() {
    let runner =
        Runner::<Graph, BackoffScheduler, TestHook, CapturedSnapshot>::new((), World::default())
            .with_expr(&vec!["x"])
            .with_iter_limit(2)
            .with_hook(TestHook::Add("y"))
            .with_scheduler(BackoffScheduler::default().with_initial_match_limit(0))
            .run(&[equate("a", "f")]);
    assert_eq!(runner.iterations[0].data.0.total_times_banned, 0);
    assert_eq!(runner.iterations[1].data.0.total_times_banned, 1);
}

#[test]
fn the_total_time_covers_the_parts() {
    let runner = Plain::new((), ticking(3)).with_expr(&vec!["x"]).run(&[equate("a", "f")]);
    for it in &runner.iterations {
        let parts = it.hook_time + it.search_time + it.apply_time + it.rebuild_time;
        assert_eq!(parts, 18);
        assert!(it.total_time >= parts);
    }
}

#[test]
fn a_runner_can_go_on_once_its_stop_reason_is_cleared() {
    let mut runner = Plain::default()
        .with_expr(&vec!["x"])
        .with_iter_limit(2)
        .run(&[grow("a", "f")]);
    runner.stop_reason = None;
    let runner = runner.with_iter_limit(5).run(&[grow("a", "f")]);
    assert_eq!(runner.iterations.len(), 5);
    assert_eq!(runner.stop_reason, Some(StopReason::IterationLimit(5)));
}
