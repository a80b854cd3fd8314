//! Exponential rule backoff.

use indexmap::IndexMap;
use vstd::arithmetic::power2::pow2;
use vstd::prelude::*;
use crate::egraph::{more_substs_than, total_substs, EGraph, Rewrite, SearchMatches, Symbol};
use crate::maps::{
    bind, has_key, key_index, stats_entries, stats_get_index, stats_index_mut, stats_index_of,
    stats_insert, stats_len, stats_new,
};
use crate::scheduler::{RewriteScheduler, Scheduler};
use crate::snapshot::{
    is_least_positive, lemma_least_positive_push, SchedulerRuleState, SchedulerSnapshot,
    SchedulerStats,
};
use crate::sums::{capped, lemma_sum_bounds, lemma_sum_push, sum};

verus! {

/// What a [`BackoffScheduler`] remembers of one rule.
#[derive(Debug, Clone, Copy, PartialEq, Eq)]
pub struct RuleStats {
    /// Searches whose matches were handed on.
    pub times_applied: usize,
    /// First iteration in which the rule is searched again.
    pub banned_until: usize,
    /// Bans issued so far.
    pub times_banned: usize,
    /// Match limit before any doubling.
    pub match_limit: usize,
    /// Ban length before any doubling.
    pub ban_length: usize,
}

/// A limit after it was doubled `times` times, cut off at the largest `usize`.
pub open spec fn doubled(base: usize, times: usize) -> usize {
    capped(base * pow2(times as nat))
}

/// Doubling a positive number as often as a `usize` has bits exceeds every
/// `usize`.
proof fn lemma_pow2_large(base: usize, times: usize)
    requires
        base > 0,
        times >= usize::BITS,
    ensures
        base * pow2(times as nat) > usize::MAX,
{
    vstd::arithmetic::power2::lemma2_to64();
    if times > usize::BITS {
        vstd::arithmetic::power2::lemma_pow2_strictly_increases(usize::BITS as nat, times as nat);
    }
    assert(pow2(times as nat) > usize::MAX);
    let p: int = pow2(times as nat) as int;
    assert(base * p >= p) by (nonlinear_arith)
        requires
            base > 0,
            p > 0,
    ;
}

/// Saturating effective threshold shared by introspection and search: `base`
/// doubled once for each ban.
pub fn effective_match_limit(base: usize, times_banned: usize) -> (r: usize)
    ensures
        r == doubled(base, times_banned),
{
    if base == 0 {
        assert(0 * pow2(times_banned as nat) == 0);
        return 0;
    }
    if times_banned >= usize::BITS as usize {
        proof {
            lemma_pow2_large(base, times_banned);
        }
        return usize::MAX;
    }
    proof {
        vstd::bits::lemma_usize_pow2_no_overflow(times_banned as nat);
        vstd::bits::lemma_usize_shl_is_mul(1, times_banned);
    }
    match base.checked_mul(1usize << times_banned) {
        Some(limit) => limit,
        None => usize::MAX,
    }
}

/// A rewrite scheduler that implements exponential rule backoff.
///
/// For each rewrite, there exists a configurable initial match limit.
/// If a rewrite search yields more than this limit, then we ban this
/// rule for a number of iterations, double its limit, and double the time
/// it will be banned next time.
///
/// This seems effective at preventing explosive rules like
/// associativity from taking an unfair amount of resources.
///
/// [`BackoffScheduler`] is configurable in the builder-pattern style.
#[derive(Debug)]
pub struct BackoffScheduler {
    /// The initial match limit of rules without one of their own.
    pub default_match_limit: usize,
    /// The initial ban length of rules without one of their own.
    pub default_ban_length: usize,
    /// What is remembered of each rule, in the order in which they came up.
    pub stats: IndexMap<Symbol, RuleStats>,
}

/// What a [`BackoffScheduler`] holds.
pub struct BackoffModel {
    /// The initial match limit of rules without one of their own.
    pub default_match_limit: usize,
    /// The initial ban length of rules without one of their own.
    pub default_ban_length: usize,
    /// What is remembered of each rule.
    pub stats: Seq<(Seq<char>, RuleStats)>,
}

impl View for BackoffScheduler {
    type V = BackoffModel;

    open spec fn view(&self) -> BackoffModel {
        BackoffModel {
            default_match_limit: self.default_match_limit,
            default_ban_length: self.default_ban_length,
            stats: stats_entries(self.stats),
        }
    }
}

impl RuleStats {
    /// The rule is not searched in this iteration.
    pub open spec fn is_banned(self, iteration: usize) -> bool {
        self.banned_until > iteration
    }

    /// A ban of the rule expires exactly at this iteration.
    pub open spec fn is_newly_unbanned(self, iteration: usize) -> bool {
        self.times_banned > 0 && self.banned_until == iteration
    }

    /// The iterations that are left of the rule's ban.
    pub open spec fn ban_remaining(self, iteration: usize) -> usize {
        if self.banned_until > iteration {
            (self.banned_until - iteration) as usize
        } else {
            0
        }
    }

    /// The number of matches above which a search gets the rule banned.
    pub open spec fn threshold(self) -> usize {
        doubled(self.match_limit, self.times_banned)
    }

    /// The number of matches at which a search for the rule may stop: one more
    /// than the threshold.
    pub open spec fn search_limit(self) -> usize {
        capped(self.threshold() + 1)
    }

    /// The rule once a search found too many matches.
    pub open spec fn after_ban(self, iteration: usize) -> Self {
        RuleStats {
            times_banned: capped(self.times_banned + 1),
            banned_until: capped(iteration + doubled(self.ban_length, self.times_banned)),
            ..self
        }
    }

    /// The rule once a search's matches were handed on.
    pub open spec fn after_use(self) -> Self {
        RuleStats { times_applied: capped(self.times_applied + 1), ..self }
    }

    /// The rule once a search found this many matches.
    pub open spec fn after_search(self, iteration: usize, found: nat) -> Self {
        if found > self.threshold() {
            self.after_ban(iteration)
        } else {
            self.after_use()
        }
    }

    /// The rule with `delta` iterations less to wait, where it is banned.
    pub open spec fn forwarded(self, iteration: usize, delta: usize) -> Self {
        if self.is_banned(iteration) {
            RuleStats { banned_until: (self.banned_until - delta) as usize, ..self }
        } else {
            self
        }
    }
}

impl BackoffModel {
    /// A rule that has not come up yet.
    pub open spec fn fresh(self) -> RuleStats {
        RuleStats {
            times_applied: 0,
            banned_until: 0,
            times_banned: 0,
            match_limit: self.default_match_limit,
            ban_length: self.default_ban_length,
        }
    }

    /// What is known of a rule.
    pub open spec fn rule(self, name: Seq<char>) -> RuleStats {
        if has_key(self.stats, name) {
            self.stats[key_index(self.stats, name)].1
        } else {
            self.fresh()
        }
    }

    /// The scheduler with something else known of one rule.
    pub open spec fn with_rule(self, name: Seq<char>, rule: RuleStats) -> Self {
        BackoffModel { stats: bind(self.stats, name, rule), ..self }
    }

    /// `after` and `handed` are what the scheduler makes of `found`: more than the
    /// rule's threshold gets the rule banned and is dropped, anything else is
    /// handed on.
    pub open spec fn takes<T>(
        self,
        iteration: usize,
        name: Seq<char>,
        found: Vec<SearchMatches<T>>,
        after: Self,
        handed: Vec<SearchMatches<T>>,
    ) -> bool {
        let rule = self.rule(name);
        &&& after == self.with_rule(name, rule.after_search(iteration, total_substs(found@)))
        &&& if total_substs(found@) > rule.threshold() {
            handed@.len() == 0
        } else {
            handed == found
        }
    }

    /// `after` and `handed` are what a search for a rewrite can leave and hand on. A
    /// banned rule is not searched. For any other rule the e-graph may stop at one
    /// more match than the threshold.
    pub open spec fn searches<G: EGraph>(
        self,
        iteration: usize,
        egraph: G,
        rewrite: Rewrite<G::Rule>,
        after: Self,
        handed: Vec<SearchMatches<G::Subst>>,
    ) -> bool {
        let rule = self.rule(rewrite.name@);
        if rule.is_banned(iteration) {
            handed@.len() == 0 && after == self
        } else {
            exists|found: Vec<SearchMatches<G::Subst>>| #[trigger]
                call_ensures(
                    G::search_with_limit,
                    (&egraph, &rewrite.rule, rule.search_limit()),
                    found,
                ) && self.takes(iteration, rewrite.name@, found, after, handed)
        }
    }

    /// The iterations that are left of each rule's ban.
    pub open spec fn remaining(self, iteration: usize) -> Seq<int> {
        self.stats.map_values(
            |entry: (Seq<char>, RuleStats)| entry.1.ban_remaining(iteration) as int,
        )
    }

    /// The bans issued so far, by rule.
    pub open spec fn ban_counts(self) -> Seq<int> {
        self.stats.map_values(|entry: (Seq<char>, RuleStats)| entry.1.times_banned as int)
    }

    /// The rules that are banned.
    pub open spec fn banned(self, iteration: usize) -> Seq<(Seq<char>, RuleStats)> {
        self.stats.filter(|entry: (Seq<char>, RuleStats)| entry.1.is_banned(iteration))
    }

    /// The rules whose ban has just run out.
    pub open spec fn newly_unbanned(self, iteration: usize) -> Seq<(Seq<char>, RuleStats)> {
        self.stats.filter(|entry: (Seq<char>, RuleStats)| entry.1.is_newly_unbanned(iteration))
    }

    /// The scheduler with `delta` iterations less to wait for each banned rule.
    pub open spec fn forwarded(self, iteration: usize, delta: usize) -> Self {
        BackoffModel {
            stats: self.stats.map_values(
                |entry: (Seq<char>, RuleStats)| (entry.0, entry.1.forwarded(iteration, delta)),
            ),
            ..self
        }
    }

    /// The search state of a rule in an upcoming iteration.
    pub open spec fn rule_state(self, iteration: usize, name: Symbol) -> SchedulerRuleState {
        let rule = self.rule(name@);
        SchedulerRuleState {
            name,
            will_search: !rule.is_banned(iteration),
            newly_unbanned: rule.is_newly_unbanned(iteration),
            times_banned: rule.times_banned,
            ban_remaining: rule.ban_remaining(iteration),
            match_limit: rule.threshold(),
        }
    }

    /// The snapshot before an iteration.
    pub open spec fn is_snapshot(
        self,
        iteration: usize,
        rewrites: Seq<Symbol>,
        snapshot: SchedulerSnapshot,
    ) -> bool {
        &&& snapshot.scheduler@ == "backoff"@
        &&& snapshot.rules@ == Seq::new(
            rewrites.len(),
            |i: int| self.rule_state(iteration, rewrites[i]),
        )
        &&& snapshot.aggregates_match()
    }
}

impl BackoffScheduler {
    /// Set the initial match limit after which a rule will be banned.
    /// Default: 1,000
    pub fn with_initial_match_limit(self, limit: usize) -> (r: Self)
        ensures
            r@ == (BackoffModel { default_match_limit: limit, ..self@ }),
    {
        BackoffScheduler { default_match_limit: limit, ..self }
    }

    /// Set the initial ban length.
    /// Default: 5 iterations
    pub fn with_ban_length(self, ban_length: usize) -> (r: Self)
        ensures
            r@ == (BackoffModel { default_ban_length: ban_length, ..self@ }),
    {
        BackoffScheduler { default_ban_length: ban_length, ..self }
    }

    /// What is remembered of a rule, for changing in place. A rule that has not
    /// come up yet starts from the defaults.
    pub fn rule_stats(&mut self, name: Symbol) -> (rule: &mut RuleStats)
        ensures
            *rule == old(self)@.rule(name@),
            final(self)@ == old(self)@.with_rule(name@, *final(rule)),
    {
        let position = stats_index_of(&self.stats, &name);
        match position {
            Some(index) => {
                assert(key_index(stats_entries(self.stats), name@) == index);
                stats_index_mut(&mut self.stats, index)
            },
            None => {
                let fresh = RuleStats {
                    times_applied: 0,
                    banned_until: 0,
                    times_banned: 0,
                    match_limit: self.default_match_limit,
                    ban_length: self.default_ban_length,
                };
                let index = stats_len(&self.stats);
                let ghost entries = stats_entries(self.stats);
                let ghost key = name@;
                stats_insert(&mut self.stats, name, fresh);
                assert forall|rule: RuleStats|
                    #![trigger entries.push((key, rule))]
                    entries.push((key, fresh)).update(index as int, (key, rule)) == entries.push(
                        (key, rule),
                    ) by {
                    assert(entries.push((key, fresh)).update(index as int, (key, rule))
                        =~= entries.push((key, rule)));
                }
                stats_index_mut(&mut self.stats, index)
            },
        }
    }

    /// Never ban a particular rule.
    pub fn do_not_ban(self, name: Symbol) -> (r: Self)
        ensures
            r@ == self@.with_rule(
                name@,
                RuleStats { match_limit: usize::MAX, ..self@.rule(name@) },
            ),
    {
        let mut scheduler = self;
        scheduler.rule_stats(name).match_limit = usize::MAX;
        scheduler
    }

    /// Set the initial match limit for a rule.
    pub fn rule_match_limit(self, name: Symbol, limit: usize) -> (r: Self)
        ensures
            r@ == self@.with_rule(name@, RuleStats { match_limit: limit, ..self@.rule(name@) }),
    {
        let mut scheduler = self;
        scheduler.rule_stats(name).match_limit = limit;
        scheduler
    }

    /// Set the initial ban length for a rule.
    pub fn rule_ban_length(self, name: Symbol, length: usize) -> (r: Self)
        ensures
            r@ == self@.with_rule(name@, RuleStats { ban_length: length, ..self@.rule(name@) }),
    {
        let mut scheduler = self;
        scheduler.rule_stats(name).ban_length = length;
        scheduler
    }
}

impl Default for BackoffScheduler {
    fn default() -> (r: Self)
        ensures
            r@ == (BackoffModel {
                default_match_limit: 1_000,
                default_ban_length: 5,
                stats: Seq::empty(),
            }),
    {
        BackoffScheduler {
            stats: stats_new(),
            default_match_limit: 1_000,
            default_ban_length: 5,
        }
    }
}

impl BackoffModel {
    /// The scheduler's aggregate state before an iteration.
    pub open spec fn is_stats(self, iteration: usize, stats: SchedulerStats) -> bool {
        &&& stats.n_banned == self.banned(iteration).len()
        &&& stats.n_unbanned_this_iter == self.newly_unbanned(iteration).len()
        &&& is_least_positive(self.remaining(iteration), stats.min_ban_remaining as int)
        &&& stats.total_times_banned == capped(sum(self.ban_counts()))
    }

    /// The scheduler with only its first rules.
    pub open spec fn first(self, n: int) -> Self {
        BackoffModel { stats: self.stats.take(n), ..self }
    }

    /// How the sequences behind the aggregates grow by one rule.
    proof fn lemma_one_more(self, iteration: usize, i: int)
        requires
            0 <= i < self.stats.len(),
        ensures
            ({
                let done = self.first(i);
                let more = self.first(i + 1);
                let entry = self.stats[i];
                &&& more.remaining(iteration) == done.remaining(iteration).push(
                    entry.1.ban_remaining(iteration) as int,
                )
                &&& more.ban_counts() == done.ban_counts().push(entry.1.times_banned as int)
                &&& more.banned(iteration) == if entry.1.is_banned(iteration) {
                    done.banned(iteration).push(entry)
                } else {
                    done.banned(iteration)
                }
                &&& more.newly_unbanned(iteration) == if entry.1.is_newly_unbanned(iteration) {
                    done.newly_unbanned(iteration).push(entry)
                } else {
                    done.newly_unbanned(iteration)
                }
            }),
    {
        reveal(Seq::filter);
        let done = self.first(i);
        let more = self.first(i + 1);
        let entry = self.stats[i];
        assert(more.stats.drop_last() =~= done.stats);
        assert(more.stats.last() == entry);
        assert(more.remaining(iteration) =~= done.remaining(iteration).push(
            entry.1.ban_remaining(iteration) as int,
        ));
        assert(more.ban_counts() =~= done.ban_counts().push(entry.1.times_banned as int));
    }
}

impl BackoffScheduler {
    /// The fewest iterations that are left of a ban, or zero where no rule is
    /// banned.
    fn least_remaining(&self, iteration: usize) -> (delta: usize)
        ensures
            is_least_positive(self@.remaining(iteration), delta as int),
    {
        let mut delta: usize = 0;
        let mut i: usize = 0;
        let n = stats_len(&self.stats);
        while i < n
            invariant
                i <= n,
                n == self@.stats.len(),
                is_least_positive(self@.first(i as int).remaining(iteration), delta as int),
            decreases n - i,
        {
            if let Some((_, rule)) = stats_get_index(&self.stats, i) {
                proof {
                    self@.lemma_one_more(iteration, i as int);
                    lemma_least_positive_push(
                        self@.first(i as int).remaining(iteration),
                        delta as int,
                        rule.ban_remaining(iteration) as int,
                    );
                }
                let left: usize = rule.banned_until.saturating_sub(iteration);
                if left > 0 && (delta == 0 || left < delta) {
                    delta = left;
                }
            }
            i += 1;
        }
        assert(self@.first(n as int).stats =~= self@.stats);
        delta
    }
}

impl Scheduler for BackoffScheduler {
    fn stats(&self, iteration: usize) -> (r: SchedulerStats)
        ensures
            self@.is_stats(iteration, r),
    {
        let mut n_banned: usize = 0;
        let mut n_unbanned_this_iter: usize = 0;
        let mut total_times_banned: usize = 0;
        let mut i: usize = 0;
        let n = stats_len(&self.stats);
        while i < n
            invariant
                i <= n,
                n == self@.stats.len(),
                n_banned == self@.first(i as int).banned(iteration).len(),
                n_banned <= i,
                n_unbanned_this_iter == self@.first(i as int).newly_unbanned(iteration).len(),
                n_unbanned_this_iter <= i,
                total_times_banned == capped(sum(self@.first(i as int).ban_counts())),
            decreases n - i,
        {
            if let Some((_, rule)) = stats_get_index(&self.stats, i) {
                proof {
                    self@.lemma_one_more(iteration, i as int);
                    lemma_sum_bounds(self@.first(i as int).ban_counts(), usize::MAX as int);
                    lemma_sum_push(
                        self@.first(i as int).ban_counts(),
                        rule.times_banned as int,
                    );
                }
                total_times_banned = total_times_banned.saturating_add(rule.times_banned);
                if rule.banned_until > iteration {
                    n_banned += 1;
                } else if rule.times_banned > 0 && rule.banned_until == iteration {
                    n_unbanned_this_iter += 1;
                }
            }
            i += 1;
        }
        assert(self@.first(n as int).stats =~= self@.stats);
        let min_ban_remaining = self.least_remaining(iteration);
        SchedulerStats { n_banned, n_unbanned_this_iter, min_ban_remaining, total_times_banned }
    }

    fn snapshot(&self, iteration: usize, rewrites: &[Symbol]) -> (r: SchedulerSnapshot)
        ensures
            self@.is_snapshot(iteration, rewrites@, r),
    {
        let mut rules: Vec<SchedulerRuleState> = Vec::new();
        let mut i: usize = 0;
        while i < rewrites.len()
            invariant
                i <= rewrites.len(),
                rules.len() == i,
                forall|j: int|
                    0 <= j < i ==> #[trigger] rules@[j] == self@.rule_state(
                        iteration,
                        rewrites@[j],
                    ),
            decreases rewrites.len() - i,
        {
            rules.push(self.upcoming(iteration, &rewrites[i]));
            i += 1;
        }
        assert(rules@ =~= Seq::new(
            rewrites@.len(),
            |i: int| self@.rule_state(iteration, rewrites@[i]),
        ));
        let mut result = SchedulerSnapshot { scheduler: "backoff", rules, ..Default::default() };
        result.recompute_aggregates();
        result
    }

    fn can_stop(&mut self, iteration: usize) -> (r: bool)
        ensures
            exists|delta: usize| #[trigger]
                is_least_positive(old(self)@.remaining(iteration), delta as int) && final(self)@
                    == old(self)@.forwarded(iteration, delta) && r == (delta == 0),
    {
        let delta = self.least_remaining(iteration);
        assert(is_least_positive(old(self)@.remaining(iteration), delta as int));
        if delta == 0 {
            assert forall|j: int| 0 <= j < self@.stats.len() implies !(
            #[trigger] self@.stats[j]).1.is_banned(iteration) by {
                assert(self@.remaining(iteration)[j] == self@.stats[j].1.ban_remaining(iteration));
            }
            assert(self@.forwarded(iteration, 0).stats =~= self@.stats);
            return true;
        }
        let mut i: usize = 0;
        let n = stats_len(&self.stats);
        while i < n
            invariant
                i <= n,
                n == old(self)@.stats.len(),
                is_least_positive(old(self)@.remaining(iteration), delta as int),
                self@.default_match_limit == old(self)@.default_match_limit,
                self@.default_ban_length == old(self)@.default_ban_length,
                self@.stats == old(self)@.forwarded(iteration, delta).stats.take(i as int)
                    + old(self)@.stats.skip(i as int),
            decreases n - i,
        {
            assert(old(self)@.remaining(iteration)[i as int]
                == old(self)@.stats[i as int].1.ban_remaining(iteration));
            let rule = stats_index_mut(&mut self.stats, i);
            if rule.banned_until > iteration {
                rule.banned_until -= delta;
            }
            assert(self@.stats =~= old(self)@.forwarded(iteration, delta).stats.take(i + 1)
                + old(self)@.stats.skip(i + 1));
            i += 1;
        }
        assert(self@.stats =~= old(self)@.forwarded(iteration, delta).stats);
        false
    }
}

impl BackoffScheduler {
    /// The search state of a rule in an upcoming iteration.
    pub fn upcoming(&self, iteration: usize, name: &Symbol) -> (r: SchedulerRuleState)
        ensures
            r == self@.rule_state(iteration, *name),
    {
        let rule = self.known(name);
        SchedulerRuleState {
            name: name.clone(),
            will_search: rule.banned_until <= iteration,
            newly_unbanned: rule.times_banned > 0 && rule.banned_until == iteration,
            times_banned: rule.times_banned,
            ban_remaining: rule.banned_until.saturating_sub(iteration),
            match_limit: effective_match_limit(rule.match_limit, rule.times_banned),
        }
    }

    /// What is known of a rule: the defaults for one that has not come up yet.
    pub fn known(&self, name: &Symbol) -> (r: RuleStats)
        ensures
            r == self@.rule(name@),
    {
        if let Some(index) = stats_index_of(&self.stats, name) {
            assert(key_index(stats_entries(self.stats), name@) == index);
            if let Some((_, rule)) = stats_get_index(&self.stats, index) {
                return *rule;
            }
        }
        RuleStats {
            times_applied: 0,
            banned_until: 0,
            times_banned: 0,
            match_limit: self.default_match_limit,
            ban_length: self.default_ban_length,
        }
    }
}

impl BackoffScheduler {
    /// Takes what a search of a rule found. Where that is more than the rule's
    /// threshold, the rule is banned and nothing is handed on.
    pub fn record_search<T>(
        &mut self,
        iteration: usize,
        name: Symbol,
        found: Vec<SearchMatches<T>>,
    ) -> (r: Vec<SearchMatches<T>>)
        ensures
            old(self)@.takes(iteration, name@, found, final(self)@, r),
    {
        let rule = self.rule_stats(name);
        let threshold = effective_match_limit(rule.match_limit, rule.times_banned);
        if more_substs_than(&found, threshold) {
            let ban_length = effective_match_limit(rule.ban_length, rule.times_banned);
            rule.times_banned = rule.times_banned.saturating_add(1);
            rule.banned_until = iteration.saturating_add(ban_length);
            Vec::new()
        } else {
            rule.times_applied = rule.times_applied.saturating_add(1);
            found
        }
    }
}

impl<G: EGraph> RewriteScheduler<G> for BackoffScheduler {
    fn search_rewrite(&mut self, iteration: usize, egraph: &G, rewrite: &Rewrite<G::Rule>) -> (r:
        Vec<SearchMatches<G::Subst>>)
        ensures
            old(self)@.searches(iteration, *egraph, *rewrite, final(self)@, r),
    {
        let rule = self.known(&rewrite.name);
        if iteration < rule.banned_until {
            return Vec::new();
        }
        let threshold = effective_match_limit(rule.match_limit, rule.times_banned);
        let found = egraph.search_with_limit(&rewrite.rule, threshold.saturating_add(1));
        self.record_search(iteration, rewrite.name.clone(), found)
    }
}

} // verus!
