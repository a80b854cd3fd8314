//! Read-only pictures of a scheduler's state.

use vstd::prelude::*;
use crate::egraph::Symbol;
use crate::sums::{capped, lemma_sum_bounds, lemma_sum_push, sum};

verus! {

/// Fixed-width aggregate scheduler state.
#[derive(Debug, Clone, Copy, PartialEq, Eq)]
pub struct SchedulerStats {
    /// Number of rules whose ban expires after this iteration.
    pub n_banned: usize,
    /// Number of rules whose ban expires exactly at this iteration.
    pub n_unbanned_this_iter: usize,
    /// Fewest iterations remaining among currently banned rules.
    pub min_ban_remaining: usize,
    /// Total number of bans issued across all rules.
    pub total_times_banned: usize,
}

impl Default for SchedulerStats {
    fn default() -> (r: Self)
        ensures
            r == (SchedulerStats {
                n_banned: 0,
                n_unbanned_this_iter: 0,
                min_ban_remaining: 0,
                total_times_banned: 0,
            }),
    {
        SchedulerStats {
            n_banned: 0,
            n_unbanned_this_iter: 0,
            min_ban_remaining: 0,
            total_times_banned: 0,
        }
    }
}

/// Per-rule state governing one upcoming rewrite search.
#[derive(Debug, Clone, PartialEq, Eq)]
pub struct SchedulerRuleState {
    /// The rule's name.
    pub name: Symbol,
    /// Whether this rule will be searched in the upcoming iteration.
    pub will_search: bool,
    /// Whether a previous ban expires exactly at this iteration.
    pub newly_unbanned: bool,
    /// Number of times the scheduler has banned this rule.
    pub times_banned: usize,
    /// Remaining iterations in the ban, or zero when active.
    pub ban_remaining: usize,
    /// Exact effective match threshold that the search uses.
    pub match_limit: usize,
}

/// Aggregate and per-rule scheduler state for one upcoming iteration.
#[derive(Debug, Clone, PartialEq, Eq)]
pub struct SchedulerSnapshot {
    /// Name of the kind of scheduler.
    pub scheduler: &'static str,
    /// Number of rules active for the upcoming search.
    pub n_active: usize,
    /// Number of rules whose ban expires after this iteration.
    pub n_banned: usize,
    /// Number of rules whose previous ban expires exactly this iteration.
    pub n_newly_unbanned: usize,
    /// Fewest iterations remaining among currently banned rules.
    pub min_ban_remaining: usize,
    /// Total number of bans issued across all rules.
    pub total_times_banned: usize,
    /// Largest effective match limit among active rules.
    pub max_active_match_limit: usize,
    /// Sum of the effective match limits of active rules.
    pub active_match_limit_sum: u128,
    /// Largest ban count among active rules.
    pub max_active_times_banned: usize,
    /// State for every rule, in the order of the rewrites.
    pub rules: Vec<SchedulerRuleState>,
}

/// The rules that will be searched.
pub open spec fn active_rules(rules: Seq<SchedulerRuleState>) -> Seq<SchedulerRuleState> {
    rules.filter(|r: SchedulerRuleState| r.will_search)
}

/// The rules whose ban has just run out.
pub open spec fn newly_unbanned_rules(rules: Seq<SchedulerRuleState>) -> Seq<SchedulerRuleState> {
    rules.filter(|r: SchedulerRuleState| r.newly_unbanned)
}

/// The ban counts of the rules.
pub open spec fn ban_counts(rules: Seq<SchedulerRuleState>) -> Seq<int> {
    rules.map_values(|r: SchedulerRuleState| r.times_banned as int)
}

/// The match limits of the rules.
pub open spec fn match_limits(rules: Seq<SchedulerRuleState>) -> Seq<int> {
    rules.map_values(|r: SchedulerRuleState| r.match_limit as int)
}

/// The remaining ban lengths of the rules.
pub open spec fn bans_remaining(rules: Seq<SchedulerRuleState>) -> Seq<int> {
    rules.map_values(|r: SchedulerRuleState| r.ban_remaining as int)
}

/// `m` is the largest element, or zero where there is none.
pub open spec fn is_largest(s: Seq<int>, m: int) -> bool {
    &&& forall|i: int| 0 <= i < s.len() ==> #[trigger] s[i] <= m
    &&& if s.len() == 0 {
        m == 0
    } else {
        s.contains(m)
    }
}

/// `m` is the least element above zero, or zero where there is none.
pub open spec fn is_least_positive(s: Seq<int>, m: int) -> bool {
    &&& forall|i: int| 0 <= i < s.len() && #[trigger] s[i] > 0 ==> 0 < m <= s[i]
    &&& m != 0 ==> m > 0 && s.contains(m)
}

impl SchedulerRuleState {
    /// The state of a rule that a scheduler keeps no state of.
    pub open spec fn generic(name: Symbol) -> Self {
        SchedulerRuleState {
            name,
            will_search: true,
            newly_unbanned: false,
            times_banned: 0,
            ban_remaining: 0,
            match_limit: usize::MAX,
        }
    }
}

impl SchedulerSnapshot {
    /// The aggregate fields are those of the listed rules.
    pub open spec fn aggregates_match(&self) -> bool {
        let rules = self.rules@;
        let active = active_rules(rules);
        &&& self.n_active == active.len()
        &&& self.n_banned == rules.len() - active.len()
        &&& self.n_newly_unbanned == newly_unbanned_rules(rules).len()
        &&& is_least_positive(bans_remaining(rules), self.min_ban_remaining as int)
        &&& self.total_times_banned == capped(sum(ban_counts(rules)))
        &&& is_largest(match_limits(active), self.max_active_match_limit as int)
        &&& self.active_match_limit_sum == sum(match_limits(active))
        &&& is_largest(ban_counts(active), self.max_active_times_banned as int)
    }

    /// The snapshot of no scheduler.
    pub open spec fn is_default(&self) -> bool {
        &&& self.scheduler@ == ""@
        &&& self.rules@.len() == 0
        &&& self.n_active == 0
        &&& self.n_banned == 0
        &&& self.n_newly_unbanned == 0
        &&& self.min_ban_remaining == 0
        &&& self.total_times_banned == 0
        &&& self.max_active_match_limit == 0
        &&& self.active_match_limit_sum == 0
        &&& self.max_active_times_banned == 0
    }

    /// Every rule is active with no finite match threshold, and none was ever
    /// banned.
    pub open spec fn is_generic(&self, rewrites: Seq<Symbol>) -> bool {
        &&& self.scheduler@ == "generic"@
        &&& self.rules@ == Seq::new(
            rewrites.len(),
            |i: int| SchedulerRuleState::generic(rewrites[i]),
        )
        &&& self.aggregates_match()
    }

    /// The snapshot of a scheduler that keeps no state: every rule active, with
    /// no finite match threshold.
    pub fn generic(iteration: usize, rewrites: &[Symbol]) -> (r: Self)
        ensures
            r.is_generic(rewrites@),
    {
        let mut rules: Vec<SchedulerRuleState> = Vec::new();
        let mut i: usize = 0;
        while i < rewrites.len()
            invariant
                i <= rewrites.len(),
                rules.len() == i,
                forall|j: int|
                    0 <= j < i ==> #[trigger] rules@[j] == SchedulerRuleState::generic(
                        rewrites@[j],
                    ),
            decreases rewrites.len() - i,
        {
            rules.push(
                SchedulerRuleState {
                    name: rewrites[i].clone(),
                    will_search: true,
                    newly_unbanned: false,
                    times_banned: 0,
                    ban_remaining: 0,
                    match_limit: usize::MAX,
                },
            );
            i += 1;
        }
        assert(rules@ =~= Seq::new(
            rewrites@.len(),
            |i: int| SchedulerRuleState::generic(rewrites@[i]),
        ));
        let mut result = SchedulerSnapshot { scheduler: "generic", rules, ..Default::default() };
        result.recompute_aggregates();
        result
    }

    /// Recomputes the aggregate fields from the listed rules.
    pub fn recompute_aggregates(&mut self)
        ensures
            final(self).scheduler == old(self).scheduler,
            final(self).rules == old(self).rules,
            final(self).aggregates_match(),
    {
        let mut n_active: usize = 0;
        let mut n_newly_unbanned: usize = 0;
        let mut min_ban_remaining: usize = 0;
        let mut total_times_banned: usize = 0;
        let mut max_limit: usize = 0;
        let mut limit_sum: u128 = 0;
        let mut max_banned: usize = 0;
        let mut i: usize = 0;
        let ghost rules = self.rules@;
        while i < self.rules.len()
            invariant
                i <= self.rules.len(),
                *self == *old(self),
                rules == self.rules@,
                n_active == active_rules(rules.take(i as int)).len(),
                n_active <= i,
                n_newly_unbanned == newly_unbanned_rules(rules.take(i as int)).len(),
                n_newly_unbanned <= i,
                is_least_positive(bans_remaining(rules.take(i as int)), min_ban_remaining as int),
                total_times_banned == capped(sum(ban_counts(rules.take(i as int)))),
                is_largest(match_limits(active_rules(rules.take(i as int))), max_limit as int),
                limit_sum == sum(match_limits(active_rules(rules.take(i as int)))),
                is_largest(ban_counts(active_rules(rules.take(i as int))), max_banned as int),
            decreases self.rules.len() - i,
        {
            let rule = &self.rules[i];
            let ghost done = rules.take(i as int);
            proof {
                lemma_one_more(rules, i as int);
                lemma_sum_room(active_rules(done), i as int);
                lemma_largest_push(
                    match_limits(active_rules(done)),
                    max_limit as int,
                    rule.match_limit as int,
                );
                lemma_largest_push(
                    ban_counts(active_rules(done)),
                    max_banned as int,
                    rule.times_banned as int,
                );
                lemma_least_positive_push(
                    bans_remaining(done),
                    min_ban_remaining as int,
                    rule.ban_remaining as int,
                );
                lemma_sum_bounds(ban_counts(done), usize::MAX as int);
                lemma_sum_push(ban_counts(done), rule.times_banned as int);
                lemma_sum_push(match_limits(active_rules(done)), rule.match_limit as int);
            }
            if rule.will_search {
                n_active += 1;
                limit_sum += rule.match_limit as u128;
                if rule.match_limit > max_limit {
                    max_limit = rule.match_limit;
                }
                if rule.times_banned > max_banned {
                    max_banned = rule.times_banned;
                }
            }
            if rule.newly_unbanned {
                n_newly_unbanned += 1;
            }
            if rule.ban_remaining > 0 && (min_ban_remaining == 0 || rule.ban_remaining
                < min_ban_remaining) {
                min_ban_remaining = rule.ban_remaining;
            }
            total_times_banned = total_times_banned.saturating_add(rule.times_banned);
            i += 1;
        }
        assert(rules.take(i as int) =~= rules);
        self.n_active = n_active;
        self.n_banned = self.rules.len() - n_active;
        self.n_newly_unbanned = n_newly_unbanned;
        self.min_ban_remaining = min_ban_remaining;
        self.total_times_banned = total_times_banned;
        self.max_active_match_limit = max_limit;
        self.active_match_limit_sum = limit_sum;
        self.max_active_times_banned = max_banned;
    }
}

/// How the sequences behind the aggregates grow by one rule.
proof fn lemma_one_more(rules: Seq<SchedulerRuleState>, i: int)
    requires
        0 <= i < rules.len(),
    ensures
        ({
            let done = rules.take(i);
            let more = rules.take(i + 1);
            let rule = rules[i];
            &&& active_rules(more) == if rule.will_search {
                active_rules(done).push(rule)
            } else {
                active_rules(done)
            }
            &&& newly_unbanned_rules(more) == if rule.newly_unbanned {
                newly_unbanned_rules(done).push(rule)
            } else {
                newly_unbanned_rules(done)
            }
            &&& ban_counts(more) == ban_counts(done).push(rule.times_banned as int)
            &&& bans_remaining(more) == bans_remaining(done).push(rule.ban_remaining as int)
            &&& ban_counts(active_rules(done).push(rule)) == ban_counts(active_rules(done)).push(
                rule.times_banned as int,
            )
            &&& match_limits(active_rules(done).push(rule)) == match_limits(
                active_rules(done),
            ).push(rule.match_limit as int)
        }),
{
    reveal(Seq::filter);
    let done = rules.take(i);
    let more = rules.take(i + 1);
    let rule = rules[i];
    assert(more.drop_last() =~= done);
    assert(more.last() == rule);
    assert(ban_counts(more) =~= ban_counts(done).push(rule.times_banned as int));
    assert(bans_remaining(more) =~= bans_remaining(done).push(rule.ban_remaining as int));
    assert(ban_counts(active_rules(done).push(rule)) =~= ban_counts(active_rules(done)).push(
        rule.times_banned as int,
    ));
    assert(match_limits(active_rules(done).push(rule)) =~= match_limits(active_rules(done)).push(
        rule.match_limit as int,
    ));
}

/// The match limits of up to `n` rules, and of one more, sum up in a `u128`.
proof fn lemma_sum_room(active: Seq<SchedulerRuleState>, n: int)
    requires
        active.len() <= n < usize::MAX,
    ensures
        sum(match_limits(active)) + usize::MAX <= u128::MAX,
{
    lemma_sum_bounds(match_limits(active), usize::MAX as int);
    assert(match_limits(active).len() * usize::MAX <= (usize::MAX - 1) * usize::MAX)
        by (nonlinear_arith)
        requires
            match_limits(active).len() <= usize::MAX - 1,
    ;
    assert((usize::MAX - 1) * usize::MAX + usize::MAX <= u128::MAX) by (nonlinear_arith)
        requires
            usize::MAX <= u64::MAX,
    ;
}

/// The larger of the largest element and a new one is the new largest.
proof fn lemma_largest_push(s: Seq<int>, m: int, x: int)
    requires
        is_largest(s, m),
        x >= 0,
    ensures
        is_largest(s.push(x), if x > m { x } else { m }),
{
    assert(s.push(x)[s.len() as int] == x);
    if x <= m && s.len() > 0 {
        let i = choose|i: int| 0 <= i < s.len() && s[i] == m;
        assert(s.push(x)[i] == m);
    }
}

/// How the least positive element changes with a new one.
pub proof fn lemma_least_positive_push(s: Seq<int>, m: int, x: int)
    requires
        is_least_positive(s, m),
        x >= 0,
    ensures
        is_least_positive(s.push(x), if x > 0 && (m == 0 || x < m) { x } else { m }),
{
    let t = s.push(x);
    assert(t[s.len() as int] == x);
    assert forall|i: int| 0 <= i < s.len() implies t[i] == s[i] by {}
    if m != 0 {
        let i = choose|i: int| 0 <= i < s.len() && s[i] == m;
        assert(t[i] == m);
    }
}

impl Default for SchedulerSnapshot {
    fn default() -> (r: Self)
        ensures
            r.is_default(),
    {
        SchedulerSnapshot {
            scheduler: "",
            n_active: 0,
            n_banned: 0,
            n_newly_unbanned: 0,
            min_ban_remaining: 0,
            total_times_banned: 0,
            max_active_match_limit: 0,
            active_match_limit_sum: 0,
            max_active_times_banned: 0,
            rules: Vec::new(),
        }
    }
}

} // verus!
