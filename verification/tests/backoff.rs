use saturation::backoff::{effective_match_limit, BackoffScheduler, RuleStats};
use saturation::egraph::{more_substs_than, SearchMatches};
use saturation::scheduler::{Scheduler, SimpleScheduler};
use saturation::snapshot::{SchedulerRuleState, SchedulerSnapshot, SchedulerStats};

fn names(list: &[&str]) -> Vec<String> {
    list.iter().map(|name| name.to_string()).collect()
}

fn matches_of(sizes: &[usize]) -> Vec<SearchMatches<u8>> {
    sizes
        .iter()
        .enumerate()
        .map(|(i, n)| SearchMatches { eclass: i as u32, substs: vec![0; *n] })
        .collect()
}

fn rule(banned_until: usize, times_banned: usize) -> RuleStats {
    RuleStats { times_applied: 0, banned_until, times_banned, match_limit: 10, ban_length: 3 }
}

fn match_limit_log2(limit: usize) -> f64 {
    if limit == 0 {
        0.0
    } else {
        (limit as f64).log2()
    }
}

#[test]
fn snapshot_includes_every_rule_before_first_search() {
    let state = BackoffScheduler::default().snapshot(0, &names(&["a", "b"]));
    assert_eq!(state.scheduler, "backoff");
    assert_eq!(state.n_active, 2);
    assert_eq!(
        state.rules.iter().map(|rule| rule.name.clone()).collect::<Vec<_>>(),
        vec![String::from("a"), String::from("b")]
    );
    assert!(state.rules.iter().all(|rule| rule.will_search));
    assert!(state.rules.iter().all(|rule| !rule.newly_unbanned));
}

#[test]
fn active_banned_and_newly_unbanned_state_is_exact() {
    let mut scheduler = BackoffScheduler::default();
    scheduler.stats.insert("a".into(), rule(8, 2));
    scheduler.stats.insert("b".into(), rule(6, 1));
    scheduler.stats.insert("c".into(), rule(0, 4));

    let state = scheduler.snapshot(6, &names(&["a", "b", "c"]));
    assert_eq!(state.n_active, 2);
    assert_eq!(state.n_banned, 1);
    assert_eq!(state.n_newly_unbanned, 1);
    assert_eq!(state.min_ban_remaining, 2);
    assert_eq!(state.total_times_banned, 7);
    assert!(!state.rules[0].will_search);
    assert_eq!(state.rules[0].ban_remaining, 2);
    assert!(state.rules[1].will_search);
    assert!(state.rules[1].newly_unbanned);
    assert!(state.rules[2].will_search);

    assert_eq!(state.max_active_match_limit, 160);
    assert_eq!(state.active_match_limit_sum, 180);
    assert_eq!(state.max_active_times_banned, 4);
    let reordered = scheduler.snapshot(6, &names(&["c", "a", "b"]));
    assert_eq!(reordered.total_times_banned, state.total_times_banned);
    assert_eq!(reordered.n_banned, state.n_banned);
    assert_eq!(reordered.min_ban_remaining, state.min_ban_remaining);
    assert_eq!(
        scheduler.stats(6),
        SchedulerStats {
            n_banned: 1,
            n_unbanned_this_iter: 1,
            min_ban_remaining: 2,
            total_times_banned: 7,
        }
    );
}

#[test]
fn effective_limit_saturates_instead_of_shifting_with_overflow() {
    assert_eq!(effective_match_limit(1_000, 3), 8_000);
    assert_eq!(effective_match_limit(usize::MAX, 1), usize::MAX);
    assert_eq!(effective_match_limit(1, usize::MAX), usize::MAX);
    assert_eq!(effective_match_limit(0, usize::MAX), 0);
    assert!(match_limit_log2(effective_match_limit(1, usize::MAX)).is_finite());
}

#[test]
fn effective_limit_doubles_with_each_ban() {
    assert_eq!(effective_match_limit(5, 0), 5);
    for times in 0..usize::BITS as usize + 3 {
        let limit = effective_match_limit(5, times);
        assert_eq!(effective_match_limit(5, times + 1), limit.saturating_mul(2));
        assert_eq!(effective_match_limit(0, times), 0);
    }
    assert_eq!(effective_match_limit(1, usize::BITS as usize - 1), usize::MAX / 2 + 1);
    assert_eq!(effective_match_limit(1, usize::BITS as usize), usize::MAX);
}

#[test]
fn fast_forwarded_rule_is_active_in_the_next_snapshot() {
    let mut scheduler = BackoffScheduler::default();
    scheduler.stats.insert("a".into(), rule(10, 1));
    assert!(!scheduler.can_stop(4));
    let state = scheduler.snapshot(5, &names(&["a"]));
    assert!(state.rules[0].will_search);
    assert!(!state.rules[0].newly_unbanned);
    assert_eq!(state.rules[0].ban_remaining, 0);
}

#[test]
fn fast_forward_shortens_every_ban_by_the_shortest() {
    let mut scheduler = BackoffScheduler::default();
    scheduler.stats.insert("a".into(), rule(10, 1));
    scheduler.stats.insert("b".into(), rule(7, 2));
    scheduler.stats.insert("c".into(), rule(3, 1));
    assert_eq!(scheduler.stats(4).n_banned, 2);
    assert_eq!(scheduler.stats(4).min_ban_remaining, 3);

    assert!(!scheduler.can_stop(4));
    assert_eq!(scheduler.stats[0], rule(7, 1));
    assert_eq!(scheduler.stats[1], rule(4, 2));
    assert_eq!(scheduler.stats[2], rule(3, 1));
    assert_eq!(scheduler.stats(4).n_banned, 1);

    assert!(!scheduler.can_stop(4));
    assert_eq!(scheduler.stats(4).n_banned, 0);
    assert!(scheduler.can_stop(4));
    assert_eq!(scheduler.stats[0], rule(4, 1));
    assert_eq!(scheduler.stats[1], rule(4, 2));
    assert_eq!(scheduler.stats[2], rule(3, 1));
}

#[test]
fn a_scheduler_without_rules_can_stop() {
    assert!(BackoffScheduler::default().can_stop(0));
    assert_eq!(BackoffScheduler::default().stats(3), SchedulerStats::default());
}

#[test]
fn a_ban_doubles_the_threshold_and_the_next_ban() {
    let mut scheduler =
        BackoffScheduler::default().with_initial_match_limit(2).with_ban_length(3);
    let handed = scheduler.record_search(0, "r".to_string(), matches_of(&[1, 1]));
    assert_eq!(handed.len(), 2);
    assert_eq!(scheduler.known(&"r".to_string()).times_applied, 1);

    assert!(scheduler.record_search(1, "r".to_string(), matches_of(&[2, 1])).is_empty());
    let state = scheduler.upcoming(2, &"r".to_string());
    assert_eq!(
        state,
        SchedulerRuleState {
            name: "r".to_string(),
            will_search: false,
            newly_unbanned: false,
            times_banned: 1,
            ban_remaining: 2,
            match_limit: 4,
        }
    );
    assert!(!scheduler.upcoming(3, &"r".to_string()).will_search);
    assert!(scheduler.upcoming(4, &"r".to_string()).newly_unbanned);
    assert!(scheduler.upcoming(5, &"r".to_string()).will_search);
    assert!(!scheduler.upcoming(5, &"r".to_string()).newly_unbanned);

    assert_eq!(scheduler.record_search(5, "r".to_string(), matches_of(&[4])).len(), 1);
    assert!(scheduler.record_search(5, "r".to_string(), matches_of(&[5])).is_empty());
    assert_eq!(
        scheduler.known(&"r".to_string()),
        RuleStats {
            times_applied: 2,
            banned_until: 11,
            times_banned: 2,
            match_limit: 2,
            ban_length: 3,
        }
    );
}

#[test]
fn a_search_leaves_other_rules_alone() {
    let mut scheduler = BackoffScheduler::default()
        .rule_match_limit("r".to_string(), 0)
        .rule_match_limit("s".to_string(), 7);
    let other = scheduler.known(&"s".to_string());
    assert!(scheduler.record_search(0, "r".to_string(), matches_of(&[1])).is_empty());
    assert_eq!(scheduler.known(&"s".to_string()), other);
    assert_eq!(scheduler.stats.len(), 2);
}

#[test]
fn a_rule_that_must_not_be_banned_is_not() {
    let mut scheduler = BackoffScheduler::default()
        .with_initial_match_limit(0)
        .do_not_ban("r".to_string());
    for iteration in 0..4 {
        let handed = scheduler.record_search(iteration, "r".to_string(), matches_of(&[50, 50]));
        assert_eq!(handed.len(), 2);
    }
    let known = scheduler.known(&"r".to_string());
    assert_eq!(known.times_banned, 0);
    assert_eq!(known.times_applied, 4);
    assert_eq!(known.match_limit, usize::MAX);
}

#[test]
fn limits_of_one_rule_are_its_own() {
    let scheduler = BackoffScheduler::default()
        .rule_match_limit("r".to_string(), 7)
        .rule_ban_length("r".to_string(), 2)
        .rule_ban_length("s".to_string(), 9);
    let known = |name: &str| scheduler.known(&name.to_string());
    assert_eq!((known("r").match_limit, known("r").ban_length), (7, 2));
    assert_eq!((known("s").match_limit, known("s").ban_length), (1_000, 9));
    assert_eq!((known("t").match_limit, known("t").ban_length), (1_000, 5));
    assert_eq!(scheduler.stats.keys().cloned().collect::<Vec<_>>(), names(&["r", "s"]));
}

#[test]
fn rule_stats_are_changed_in_place() {
    let mut scheduler = BackoffScheduler::default();
    scheduler.rule_stats("r".to_string()).banned_until = 4;
    scheduler.rule_stats("s".to_string()).banned_until = 5;
    scheduler.rule_stats("r".to_string()).times_banned = 1;
    assert_eq!(scheduler.stats.len(), 2);
    assert_eq!(scheduler.known(&"r".to_string()).banned_until, 4);
    assert_eq!(scheduler.known(&"r".to_string()).times_banned, 1);
    assert_eq!(scheduler.known(&"s".to_string()).banned_until, 5);
}

#[test]
fn counters_stop_at_the_largest_number() {
    let mut scheduler = BackoffScheduler::default();
    scheduler.stats.insert(
        "r".into(),
        RuleStats {
            times_applied: usize::MAX,
            banned_until: 0,
            times_banned: usize::MAX,
            match_limit: 0,
            ban_length: 1,
        },
    );
    scheduler.stats.insert("s".into(), rule(0, 1));
    assert!(scheduler.record_search(3, "r".to_string(), matches_of(&[1])).is_empty());
    let known = scheduler.known(&"r".to_string());
    assert_eq!(known.times_banned, usize::MAX);
    assert_eq!(known.banned_until, usize::MAX);
    assert_eq!(scheduler.stats(3).total_times_banned, usize::MAX);
    scheduler.rule_stats("r".to_string()).match_limit = 1;
    assert_eq!(scheduler.record_search(3, "r".to_string(), matches_of(&[1])).len(), 1);
    assert_eq!(scheduler.known(&"r".to_string()).times_applied, usize::MAX);
}

#[test]
fn substitutions_are_counted_over_all_classes() {
    assert!(!more_substs_than(&matches_of(&[]), 0));
    assert!(!more_substs_than(&matches_of(&[2, 0, 3]), 5));
    assert!(more_substs_than(&matches_of(&[2, 0, 3]), 4));
}

#[test]
fn the_simple_scheduler_gives_a_generic_snapshot() {
    let mut scheduler = SimpleScheduler;
    let state = scheduler.snapshot(2, &names(&["a", "b"]));
    assert_eq!(state.scheduler, "generic");
    assert_eq!(state, SchedulerSnapshot::generic(0, &names(&["a", "b"])));
    assert_eq!((state.n_active, state.n_banned, state.n_newly_unbanned), (2, 0, 0));
    assert_eq!((state.min_ban_remaining, state.total_times_banned), (0, 0));
    assert_eq!(state.max_active_match_limit, usize::MAX);
    assert_eq!(state.active_match_limit_sum, 2 * usize::MAX as u128);
    assert_eq!(state.max_active_times_banned, 0);
    assert!(state.rules.iter().all(|rule| rule.match_limit == usize::MAX));
    assert_eq!(scheduler.stats(2), SchedulerStats::default());
    assert!(scheduler.can_stop(2));
}

#[test]
fn a_snapshot_without_rules_is_all_zero() {
    let state = BackoffScheduler::default().snapshot(0, &[]);
    assert_eq!((state.n_active, state.n_banned, state.n_newly_unbanned), (0, 0, 0));
    assert_eq!(state.max_active_match_limit, 0);
    assert_eq!(state.active_match_limit_sum, 0);
    assert_eq!(SchedulerSnapshot::default().scheduler, "");
    assert_eq!(SchedulerSnapshot::default().rules.len(), 0);
}

#[test]
fn aggregates_are_recomputed_from_the_rules() {
    let mut state = BackoffScheduler::default().snapshot(0, &names(&["a", "b", "c"]));
    state.rules[0].will_search = false;
    state.rules[0].ban_remaining = 4;
    state.rules[0].times_banned = 3;
    state.rules[1].newly_unbanned = true;
    state.rules[1].times_banned = 2;
    state.rules[2].match_limit = 5;
    state.recompute_aggregates();
    assert_eq!((state.n_active, state.n_banned, state.n_newly_unbanned), (2, 1, 1));
    assert_eq!((state.min_ban_remaining, state.total_times_banned), (4, 5));
    assert_eq!(state.max_active_match_limit, 1_000);
    assert_eq!(state.active_match_limit_sum, 1_005);
    assert_eq!(state.max_active_times_banned, 2);
    let once = state.clone();
    state.recompute_aggregates();
    assert_eq!(state, once);
}
