use saturation::egraph::Rewrite;
use saturation::iteration::rule_names;
use saturation::memory::{IterationMemoryPeak, MemoryReport, MemorySamplePhase, MemoryTracker};
use saturation::report::{add_count, check_rules};

fn rewrite(name: &str) -> Rewrite<()> {
    Rewrite { name: name.to_string(), rule: () }
}

#[test]
fn a_tracker_starts_with_its_first_reading() {
    let tracker = MemoryTracker::new(90, Some(400));
    assert_eq!(tracker.latest, 90);
    assert_eq!(tracker.peak_reading, 90);
    assert_eq!(tracker.absolute_limit, Some(400));
    assert_eq!(tracker.iteration_peak(), None);
    assert_eq!(tracker.final_report(), None);
}

#[test]
fn the_peak_of_an_iteration_is_first_observed_and_then_reset() {
    let mut tracker = MemoryTracker::new(10, None);
    assert_eq!(tracker.sample_at(MemorySamplePhase::DuringHook, None, 95), 95);
    assert_eq!(tracker.iteration_peak(), None);

    assert_eq!(tracker.begin_iteration(20), 20);
    tracker.sample_at(MemorySamplePhase::AfterRuleSearch, Some("a".to_string()), 30);
    tracker.sample_at(MemorySamplePhase::AfterRuleSearch, Some("b".to_string()), 50);
    tracker.sample_at(MemorySamplePhase::AfterRuleApplication, Some("a".to_string()), 50);
    tracker.sample_at(MemorySamplePhase::AfterRebuildFinalization, None, 40);
    assert_eq!(
        tracker.iteration_peak(),
        Some(IterationMemoryPeak {
            iteration_start_allocated: 20,
            iteration_peak_allocated: 50,
            peak_phase: MemorySamplePhase::AfterRuleSearch,
            peak_rule: Some("b".to_string()),
        })
    );
    assert_eq!(tracker.latest, 40);
    assert_eq!(tracker.peak_reading, 95);

    tracker.begin_iteration(25);
    tracker.sample_at(MemorySamplePhase::AfterRuleSearch, Some("a".to_string()), 25);
    assert_eq!(
        tracker.iteration_peak(),
        Some(IterationMemoryPeak {
            iteration_start_allocated: 25,
            iteration_peak_allocated: 25,
            peak_phase: MemorySamplePhase::BeforeHooks,
            peak_rule: None,
        })
    );
}

#[test]
fn the_final_report_holds_the_largest_reading() {
    let mut tracker = MemoryTracker::new(10, Some(7));
    tracker.raw_sample(60);
    tracker.finish(40);
    assert_eq!(
        tracker.final_report(),
        Some(MemoryReport { final_reading: 40, peak_reading: 60, absolute_limit: Some(7) })
    );
    let mut higher = MemoryTracker::new(10, None);
    higher.finish(80);
    assert_eq!(
        higher.final_report(),
        Some(MemoryReport { final_reading: 80, peak_reading: 80, absolute_limit: None })
    );
}

#[test]
fn duplicated_rule_names_are_counted() {
    let rules: Vec<_> = ["a", "b", "a", "c", "b", "a"].into_iter().map(rewrite).collect();
    assert_eq!(check_rules(&rules), vec![("a".to_string(), 3), ("b".to_string(), 2)]);
    assert_eq!(check_rules(&rules[1..4]), vec![]);
    assert_eq!(check_rules::<()>(&[]), vec![]);
}

#[test]
fn counts_are_added_by_name() {
    let mut counts = Default::default();
    add_count(&mut counts, &"b".to_string(), 2);
    add_count(&mut counts, &"a".to_string(), 5);
    add_count(&mut counts, &"b".to_string(), 3);
    assert_eq!(counts.len(), 2);
    assert_eq!(counts.get_index(0), Some((&"b".to_string(), &5)));
    assert_eq!(counts.get_index(1), Some((&"a".to_string(), &5)));
    add_count(&mut counts, &"a".to_string(), usize::MAX);
    assert_eq!(counts["a"], usize::MAX);
}

#[test]
fn rules_are_named_in_order() {
    assert_eq!(rule_names(&[rewrite("b"), rewrite("a")]), vec!["b".to_string(), "a".to_string()]);
}
