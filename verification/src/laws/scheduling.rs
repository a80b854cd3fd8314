//! What schedulers give their callers, call by call.

use vstd::arithmetic::power2::pow2;
use vstd::prelude::*;
use crate::backoff::{effective_match_limit, BackoffScheduler, RuleStats};
use crate::egraph::{more_substs_than, SearchMatches, Symbol};
use crate::laws::backoff::{law_rule_is_read_back, law_stop_without_bans};
use crate::laws::meanings::law_total_substs;
use crate::maps::distinct_keys;
use crate::scheduler::{Scheduler, SimpleScheduler};
use crate::snapshot::{
    ban_counts, bans_remaining, is_least_positive, match_limits, SchedulerRuleState,
    SchedulerSnapshot, SchedulerStats,
};
use crate::sums::{lemma_sum_bounds, sum};

verus! {

/// `limit` is a base limit doubled once for each ban, or the largest number where that
/// does not fit.
pub open spec fn is_doubled(base: usize, times: usize, limit: usize) -> bool {
    let exact = base * pow2(times as nat);
    &&& exact <= usize::MAX ==> limit == exact
    &&& exact > usize::MAX ==> limit == usize::MAX
}

/// `total` is what a sum comes to, or the largest number where that does not fit.
pub open spec fn is_total(exact: int, total: usize) -> bool {
    &&& exact <= usize::MAX ==> total == exact
    &&& exact > usize::MAX ==> total == usize::MAX
}

/// A limit is doubled once for each ban.
pub proof fn law_effective_match_limit(base: usize, times: usize, limit: usize)
    requires
        call_ensures(effective_match_limit, (base, times), limit),
    ensures
        is_doubled(base, times, limit),
{
}

/// More substitutions than a threshold are found if and only if there are.
pub proof fn law_more_substs_than<T>(
    matches: Vec<SearchMatches<T>>,
    threshold: usize,
    more: bool,
)
    requires
        call_ensures(more_substs_than::<T>, (&matches, threshold), more),
    ensures
        more <==> matches@.fold_left(
            0int,
            |total: int, found: SearchMatches<T>| total + found.substs@.len(),
        ) > threshold,
{
    law_total_substs(matches@);
}

/// A new scheduler knows no rule. Rules are banned after a thousand matches, at first
/// for five iterations.
pub proof fn law_default_scheduler(scheduler: BackoffScheduler, name: Seq<char>)
    requires
        call_ensures(<BackoffScheduler as Default>::default, (), scheduler),
    ensures
        scheduler@.stats.len() == 0,
        scheduler@.rule(name) == (RuleStats {
            times_applied: 0,
            banned_until: 0,
            times_banned: 0,
            match_limit: 1_000,
            ban_length: 5,
        }),
{
}

/// Setting the defaults sets them for the rules that have not come up, and for no
/// other.
pub proof fn law_defaults_are_set(
    scheduler: BackoffScheduler,
    n: usize,
    limited: BackoffScheduler,
    lasting: BackoffScheduler,
)
    requires
        call_ensures(BackoffScheduler::with_initial_match_limit, (scheduler, n), limited),
        call_ensures(BackoffScheduler::with_ban_length, (scheduler, n), lasting),
    ensures
        limited@.default_match_limit == n,
        limited@.default_ban_length == scheduler@.default_ban_length,
        limited@.stats == scheduler@.stats,
        lasting@.default_ban_length == n,
        lasting@.default_match_limit == scheduler@.default_match_limit,
        lasting@.stats == scheduler@.stats,
{
}

/// Configuring a rule sets what is named of that rule, and nothing else of any.
pub proof fn law_rules_are_configured(
    scheduler: BackoffScheduler,
    name: Symbol,
    n: usize,
    other: Seq<char>,
    free: BackoffScheduler,
    limited: BackoffScheduler,
    lasting: BackoffScheduler,
)
    requires
        distinct_keys(scheduler@.stats),
        call_ensures(BackoffScheduler::do_not_ban, (scheduler, name), free),
        call_ensures(BackoffScheduler::rule_match_limit, (scheduler, name, n), limited),
        call_ensures(BackoffScheduler::rule_ban_length, (scheduler, name, n), lasting),
    ensures
        free@.rule(name@).match_limit == usize::MAX,
        limited@.rule(name@).match_limit == n,
        lasting@.rule(name@).ban_length == n,
        free@.rule(name@) == (RuleStats {
            match_limit: free@.rule(name@).match_limit,
            ..scheduler@.rule(name@)
        }),
        limited@.rule(name@) == (RuleStats {
            match_limit: limited@.rule(name@).match_limit,
            ..scheduler@.rule(name@)
        }),
        lasting@.rule(name@) == (RuleStats {
            ban_length: lasting@.rule(name@).ban_length,
            ..scheduler@.rule(name@)
        }),
        other != name@ ==> free@.rule(other) == scheduler@.rule(other),
        other != name@ ==> limited@.rule(other) == scheduler@.rule(other),
        other != name@ ==> lasting@.rule(other) == scheduler@.rule(other),
        free@.default_match_limit == scheduler@.default_match_limit,
        limited@.default_match_limit == scheduler@.default_match_limit,
        lasting@.default_match_limit == scheduler@.default_match_limit,
        free@.default_ban_length == scheduler@.default_ban_length,
        limited@.default_ban_length == scheduler@.default_ban_length,
        lasting@.default_ban_length == scheduler@.default_ban_length,
        distinct_keys(free@.stats),
        distinct_keys(limited@.stats),
        distinct_keys(lasting@.stats),
{
    let rule = scheduler@.rule(name@);
    law_rule_is_read_back(
        scheduler@,
        name@,
        RuleStats { match_limit: usize::MAX, ..rule },
        other,
    );
    law_rule_is_read_back(scheduler@, name@, RuleStats { match_limit: n, ..rule }, other);
    law_rule_is_read_back(scheduler@, name@, RuleStats { ban_length: n, ..rule }, other);
}

/// What is changed of a rule in place is found there afterwards, and no other rule
/// changes.
pub proof fn law_rule_stats(
    scheduler: &mut BackoffScheduler,
    name: Symbol,
    rule: &mut RuleStats,
    other: Seq<char>,
)
    requires
        distinct_keys(old(scheduler)@.stats),
        call_ensures(BackoffScheduler::rule_stats, (scheduler, name), rule),
    ensures
        *old(rule) == old(scheduler)@.rule(name@),
        final(scheduler)@.rule(name@) == *final(rule),
        other != name@ ==> final(scheduler)@.rule(other) == old(scheduler)@.rule(other),
        final(scheduler)@.default_match_limit == old(scheduler)@.default_match_limit,
        final(scheduler)@.default_ban_length == old(scheduler)@.default_ban_length,
        distinct_keys(final(scheduler)@.stats),
{
    law_rule_is_read_back(old(scheduler)@, name@, *final(rule), other);
}

/// What is known of a rule is handed out as it is.
pub proof fn law_known(scheduler: BackoffScheduler, name: Symbol, rule: RuleStats)
    requires
        call_ensures(BackoffScheduler::known, (&scheduler, &name), rule),
    ensures
        rule == scheduler@.rule(name@),
{
}

/// The search state of a rule: it is searched once its ban is over, and its threshold
/// has doubled with each ban.
pub open spec fn is_state(
    rule: RuleStats,
    iteration: usize,
    name: Symbol,
    state: SchedulerRuleState,
) -> bool {
    &&& state.name == name
    &&& state.will_search <==> rule.banned_until <= iteration
    &&& state.newly_unbanned <==> rule.times_banned > 0 && rule.banned_until == iteration
    &&& state.times_banned == rule.times_banned
    &&& rule.banned_until >= iteration ==> state.ban_remaining == rule.banned_until - iteration
    &&& rule.banned_until <= iteration ==> state.ban_remaining == 0
    &&& is_doubled(rule.match_limit, rule.times_banned, state.match_limit)
}

/// The figures of a snapshot are those of its rules.
pub open spec fn figures_are_right(snapshot: SchedulerSnapshot) -> bool {
    let rules = snapshot.rules@;
    let active = rules.filter(|rule: SchedulerRuleState| rule.will_search);
    &&& snapshot.n_active == active.len()
    &&& snapshot.n_active + snapshot.n_banned == rules.len()
    &&& snapshot.n_newly_unbanned == rules.filter(
        |rule: SchedulerRuleState| rule.newly_unbanned,
    ).len()
    &&& forall|j: int|
        0 <= j < rules.len() && (#[trigger] rules[j]).ban_remaining > 0 ==> 0
            < snapshot.min_ban_remaining <= rules[j].ban_remaining
    &&& snapshot.min_ban_remaining > 0 ==> exists|j: int|
        0 <= j < rules.len() && (#[trigger] rules[j]).ban_remaining == snapshot.min_ban_remaining
    &&& is_total(
        sum(rules.map_values(|rule: SchedulerRuleState| rule.times_banned as int)),
        snapshot.total_times_banned,
    )
    &&& forall|j: int|
        0 <= j < active.len() ==> (#[trigger] active[j]).match_limit
            <= snapshot.max_active_match_limit && active[j].times_banned
            <= snapshot.max_active_times_banned
    &&& active.len() == 0 ==> snapshot.max_active_match_limit == 0
        && snapshot.max_active_times_banned == 0
    &&& active.len() > 0 ==> (exists|j: int|
        0 <= j < active.len() && (#[trigger] active[j]).match_limit
            == snapshot.max_active_match_limit) && (exists|j: int|
        0 <= j < active.len() && (#[trigger] active[j]).times_banned
            == snapshot.max_active_times_banned)
    &&& snapshot.active_match_limit_sum == sum(
        active.map_values(|rule: SchedulerRuleState| rule.match_limit as int),
    )
}

/// Figures that match the rules are right.
proof fn lemma_figures(snapshot: SchedulerSnapshot)
    requires
        snapshot.aggregates_match(),
    ensures
        figures_are_right(snapshot),
{
    let rules = snapshot.rules@;
    let active = rules.filter(|rule: SchedulerRuleState| rule.will_search);
    let left = bans_remaining(rules);
    lemma_sum_bounds(ban_counts(rules), usize::MAX as int);
    assert(ban_counts(rules) =~= rules.map_values(
        |rule: SchedulerRuleState| rule.times_banned as int,
    ));
    assert(match_limits(active) =~= active.map_values(
        |rule: SchedulerRuleState| rule.match_limit as int,
    ));
    assert forall|j: int|
        0 <= j < rules.len() && (#[trigger] rules[j]).ban_remaining > 0 implies 0
        < snapshot.min_ban_remaining <= rules[j].ban_remaining by {
        assert(left[j] == rules[j].ban_remaining);
    }
    if snapshot.min_ban_remaining > 0 {
        let j = choose|j: int| 0 <= j < left.len() && left[j] == snapshot.min_ban_remaining;
        assert(rules[j].ban_remaining == snapshot.min_ban_remaining);
    }
    let limits = match_limits(active);
    let counts = ban_counts(active);
    assert forall|j: int| 0 <= j < active.len() implies (#[trigger] active[j]).match_limit
        <= snapshot.max_active_match_limit && active[j].times_banned
        <= snapshot.max_active_times_banned by {
        assert(limits[j] == active[j].match_limit);
        assert(counts[j] == active[j].times_banned);
    }
    if active.len() > 0 {
        let j = choose|j: int|
            0 <= j < limits.len() && limits[j] == snapshot.max_active_match_limit;
        assert(active[j].match_limit == snapshot.max_active_match_limit);
        let k = choose|k: int|
            0 <= k < counts.len() && counts[k] == snapshot.max_active_times_banned;
        assert(active[k].times_banned == snapshot.max_active_times_banned);
    }
}

/// The search state of one rule is handed out as it is.
pub proof fn law_upcoming(
    scheduler: BackoffScheduler,
    iteration: usize,
    name: Symbol,
    state: SchedulerRuleState,
)
    requires
        call_ensures(BackoffScheduler::upcoming, (&scheduler, iteration, &name), state),
    ensures
        is_state(scheduler@.rule(name@), iteration, name, state),
{
}

/// A backoff snapshot shows the search state of each rule in turn, and the right
/// figures.
pub proof fn law_backoff_snapshot_is_exact(
    scheduler: BackoffScheduler,
    iteration: usize,
    names: &[Symbol],
    snapshot: SchedulerSnapshot,
)
    requires
        call_ensures(
            <BackoffScheduler as Scheduler>::snapshot,
            (&scheduler, iteration, names),
            snapshot,
        ),
    ensures
        snapshot.scheduler@ == "backoff"@,
        snapshot.rules@.len() == names@.len(),
        forall|j: int|
            0 <= j < names@.len() ==> is_state(
                scheduler@.rule(names@[j]@),
                iteration,
                names@[j],
                #[trigger] snapshot.rules@[j],
            ),
        figures_are_right(snapshot),
{
    lemma_figures(snapshot);
}

/// Figures are recomputed rightly, and the rules stay.
pub proof fn law_recompute_aggregates(snapshot: &mut SchedulerSnapshot)
    requires
        call_ensures(SchedulerSnapshot::recompute_aggregates, (snapshot,), ()),
    ensures
        final(snapshot).scheduler == old(snapshot).scheduler,
        final(snapshot).rules == old(snapshot).rules,
        figures_are_right(*final(snapshot)),
{
    lemma_figures(*final(snapshot));
}

/// A generic snapshot shows each rule in turn as active, without a limit and never
/// banned.
pub proof fn law_generic_snapshot_is_exact(
    iteration: usize,
    names: &[Symbol],
    snapshot: SchedulerSnapshot,
    default: SchedulerSnapshot,
)
    requires
        call_ensures(SchedulerSnapshot::generic, (iteration, names), snapshot),
        call_ensures(<SchedulerSnapshot as Default>::default, (), default),
    ensures
        snapshot.scheduler@ == "generic"@,
        snapshot.rules@.len() == names@.len(),
        forall|j: int|
            0 <= j < names@.len() ==> #[trigger] snapshot.rules@[j] == (SchedulerRuleState {
                name: names@[j],
                will_search: true,
                newly_unbanned: false,
                times_banned: 0,
                ban_remaining: 0,
                match_limit: usize::MAX,
            }),
        figures_are_right(snapshot),
        default.scheduler@ == ""@,
        default.rules@.len() == 0,
        default.n_active == 0,
        default.n_banned == 0,
        default.n_newly_unbanned == 0,
        default.min_ban_remaining == 0,
        default.total_times_banned == 0,
        default.max_active_match_limit == 0,
        default.active_match_limit_sum == 0,
        default.max_active_times_banned == 0,
{
    lemma_figures(snapshot);
}

/// A scheduler without state shows a generic snapshot and empty figures, and agrees to
/// stop.
pub proof fn law_simple_scheduler_has_no_state(
    scheduler: &mut SimpleScheduler,
    iteration: usize,
    names: &[Symbol],
    snapshot: SchedulerSnapshot,
    stats: SchedulerStats,
    stop: bool,
    default: SchedulerStats,
)
    requires
        call_ensures(
            <SimpleScheduler as Scheduler>::snapshot,
            (&*scheduler, iteration, names),
            snapshot,
        ),
        call_ensures(<SimpleScheduler as Scheduler>::stats, (&*scheduler, iteration), stats),
        call_ensures(<SimpleScheduler as Scheduler>::can_stop, (scheduler, iteration), stop),
        call_ensures(<SchedulerStats as Default>::default, (), default),
    ensures
        snapshot.scheduler@ == "generic"@,
        snapshot.rules@.len() == names@.len(),
        forall|j: int|
            0 <= j < names@.len() ==> #[trigger] snapshot.rules@[j] == (SchedulerRuleState {
                name: names@[j],
                will_search: true,
                newly_unbanned: false,
                times_banned: 0,
                ban_remaining: 0,
                match_limit: usize::MAX,
            }),
        figures_are_right(snapshot),
        stats.n_banned == 0,
        stats.n_unbanned_this_iter == 0,
        stats.min_ban_remaining == 0,
        stats.total_times_banned == 0,
        default == stats,
        stop,
{
    lemma_figures(snapshot);
}

/// The figures of a backoff scheduler count the rules that have come up.
pub proof fn law_backoff_stats_are_exact(
    scheduler: BackoffScheduler,
    iteration: usize,
    stats: SchedulerStats,
)
    requires
        call_ensures(<BackoffScheduler as Scheduler>::stats, (&scheduler, iteration), stats),
    ensures
        stats.n_banned == scheduler@.stats.filter(
            |entry: (Seq<char>, RuleStats)| entry.1.banned_until > iteration,
        ).len(),
        stats.n_unbanned_this_iter == scheduler@.stats.filter(
            |entry: (Seq<char>, RuleStats)|
                entry.1.times_banned > 0 && entry.1.banned_until == iteration,
        ).len(),
        forall|j: int|
            0 <= j < scheduler@.stats.len() && (#[trigger] scheduler@.stats[j]).1.banned_until
                > iteration ==> 0 < stats.min_ban_remaining <= scheduler@.stats[j].1.banned_until
                - iteration,
        stats.min_ban_remaining > 0 ==> exists|j: int|
            0 <= j < scheduler@.stats.len() && (#[trigger] scheduler@.stats[j]).1.banned_until
                - iteration == stats.min_ban_remaining,
        is_total(
            sum(
                scheduler@.stats.map_values(
                    |entry: (Seq<char>, RuleStats)| entry.1.times_banned as int,
                ),
            ),
            stats.total_times_banned,
        ),
{
    let entries = scheduler@.stats;
    let p = |entry: (Seq<char>, RuleStats)| entry.1.banned_until > iteration;
    let q = |entry: (Seq<char>, RuleStats)|
        entry.1.times_banned > 0 && entry.1.banned_until == iteration;
    lemma_same_filter(entries, |entry: (Seq<char>, RuleStats)| entry.1.is_banned(iteration), p);
    lemma_same_filter(
        entries,
        |entry: (Seq<char>, RuleStats)| entry.1.is_newly_unbanned(iteration),
        q,
    );
    let left = scheduler@.remaining(iteration);
    assert forall|j: int|
        0 <= j < entries.len() && (#[trigger] entries[j]).1.banned_until > iteration implies 0
        < stats.min_ban_remaining <= entries[j].1.banned_until - iteration by {
        assert(left[j] == entries[j].1.ban_remaining(iteration));
    }
    if stats.min_ban_remaining > 0 {
        let j = choose|j: int| 0 <= j < left.len() && left[j] == stats.min_ban_remaining;
        assert(entries[j].1.banned_until - iteration == stats.min_ban_remaining);
    }
    lemma_sum_bounds(scheduler@.ban_counts(), usize::MAX as int);
    assert(scheduler@.ban_counts() =~= entries.map_values(
        |entry: (Seq<char>, RuleStats)| entry.1.times_banned as int,
    ));
}

/// Filters that let the same elements pass keep the same.
proof fn lemma_same_filter<A>(s: Seq<A>, p: spec_fn(A) -> bool, q: spec_fn(A) -> bool)
    requires
        forall|x: A| #[trigger] p(x) == q(x),
    ensures
        s.filter(p) == s.filter(q),
    decreases s.len(),
{
    reveal(Seq::filter);
    if s.len() > 0 {
        lemma_same_filter(s.drop_last(), p, q);
    }
}

/// The same number of iterations is taken off each wait, just so many that one is
/// over, and nothing else changes.
pub open spec fn shortened(
    before: Seq<(Seq<char>, RuleStats)>,
    iteration: usize,
    delta: int,
    after: Seq<(Seq<char>, RuleStats)>,
) -> bool {
    &&& delta > 0
    &&& after.len() == before.len()
    &&& forall|j: int|
        #![trigger after[j]]
        #![trigger before[j]]
        0 <= j < before.len() ==> {
            &&& after[j].0 == before[j].0
            &&& after[j].1 == (RuleStats { banned_until: after[j].1.banned_until, ..before[j].1 })
            &&& before[j].1.banned_until > iteration ==> after[j].1.banned_until
                == before[j].1.banned_until - delta && after[j].1.banned_until >= iteration
            &&& before[j].1.banned_until <= iteration ==> after[j].1 == before[j].1
        }
    &&& exists|j: int|
        0 <= j < before.len() && (#[trigger] before[j]).1.banned_until == iteration + delta
}

/// A backoff scheduler agrees to stop if and only if no rule has to wait. Otherwise it
/// shortens all waits until one is over.
pub proof fn law_backoff_can_stop(scheduler: &mut BackoffScheduler, iteration: usize, stop: bool)
    requires
        call_ensures(<BackoffScheduler as Scheduler>::can_stop, (scheduler, iteration), stop),
    ensures
        stop <==> forall|j: int|
            0 <= j < old(scheduler)@.stats.len() ==> (
            #[trigger] old(scheduler)@.stats[j]).1.banned_until <= iteration,
        stop ==> final(scheduler)@ == old(scheduler)@,
        final(scheduler)@.default_match_limit == old(scheduler)@.default_match_limit,
        final(scheduler)@.default_ban_length == old(scheduler)@.default_ban_length,
        !stop ==> exists|delta: int| #[trigger]
            shortened(old(scheduler)@.stats, iteration, delta, final(scheduler)@.stats),
{
    let before = old(scheduler)@;
    let after = final(scheduler)@;
    let delta = choose|delta: usize| #[trigger]
        is_least_positive(before.remaining(iteration), delta as int) && after
            == before.forwarded(iteration, delta) && stop == (delta == 0);
    law_stop_without_bans(before, iteration, delta);
    let left = before.remaining(iteration);
    assert forall|j: int| 0 <= j < before.stats.len() implies left[j]
        == (#[trigger] before.stats[j]).1.ban_remaining(iteration) by {}
    assert forall|j: int| 0 <= j < before.stats.len() implies (
    #[trigger] before.stats[j]).1.is_banned(iteration) == (before.stats[j].1.banned_until
        > iteration) by {}
    if stop {
        assert forall|j: int| 0 <= j < before.stats.len() implies (
        #[trigger] before.stats[j]).1.banned_until <= iteration by {
            assert(!before.stats[j].1.is_banned(iteration));
        }
    } else {
        let i = choose|i: int| 0 <= i < left.len() && left[i] == delta;
        assert(before.stats[i].1.banned_until == iteration + delta);
        assert(shortened(before.stats, iteration, delta as int, after.stats));
    }
}

} // verus!
