//! What holds of backoff, whatever the rules and the e-graph do.

use vstd::arithmetic::power2::{lemma_pow2_unfold, pow2};
use vstd::prelude::*;
use crate::backoff::{doubled, BackoffModel, RuleStats};
use crate::egraph::{total_substs, EGraph, Rewrite, SearchMatches, Symbol};
use crate::maps::{distinct_keys, has_key, key_index, lemma_bind};
use crate::snapshot::{is_least_positive, SchedulerSnapshot};
use crate::sums::capped;

verus! {

/// One more ban doubles a limit, up to the largest machine value. Without a ban
/// a limit is what it was set to, and a limit of zero stays zero.
pub proof fn law_limit_doubles(base: usize, times: usize)
    requires
        times < usize::MAX,
    ensures
        doubled(base, (times + 1) as usize) == capped(2 * doubled(base, times)),
        doubled(base, 0) == base,
        doubled(0, times) == 0,
{
    lemma_pow2_unfold((times + 1) as nat);
    let p: int = pow2(times as nat) as int;
    assert(base * (2 * p) == 2 * (base * p)) by (nonlinear_arith);
    assert(pow2(0) == 1) by {
        vstd::arithmetic::power2::lemma2_to64();
    }
    assert(0 * pow2(times as nat) == 0);
}

/// A ban doubles the rule's threshold and doubles the length of its next ban.
/// Nothing that was configured changes.
pub proof fn law_ban_doubles_threshold_and_length(rule: RuleStats, iteration: usize)
    requires
        rule.times_banned < usize::MAX,
    ensures
        rule.after_ban(iteration).threshold() == capped(2 * rule.threshold()),
        doubled(rule.ban_length, rule.after_ban(iteration).times_banned) == capped(
            2 * doubled(rule.ban_length, rule.times_banned),
        ),
        rule.after_ban(iteration).match_limit == rule.match_limit,
        rule.after_ban(iteration).ban_length == rule.ban_length,
        rule.after_ban(iteration).times_applied == rule.times_applied,
{
    law_limit_doubles(rule.match_limit, rule.times_banned);
    law_limit_doubles(rule.ban_length, rule.times_banned);
}

/// A ban lasts for exactly its length: the rule is skipped from the iteration of
/// the ban on, and expires that many iterations later.
pub proof fn law_ban_lasts_its_length(rule: RuleStats, iteration: usize, later: usize)
    requires
        rule.times_banned < usize::MAX,
        iteration + doubled(rule.ban_length, rule.times_banned) <= usize::MAX,
        iteration <= later,
    ensures
        ({
            let length = doubled(rule.ban_length, rule.times_banned);
            let banned = rule.after_ban(iteration);
            &&& banned.is_banned(later) <==> later < iteration + length
            &&& banned.is_newly_unbanned(later) <==> later == iteration + length
            &&& banned.ban_remaining(iteration) == length
        }),
{
}

/// Configuring a rule is read back, leaves all other rules alone and keeps every
/// rule listed once.
pub proof fn law_rule_is_read_back(
    scheduler: BackoffModel,
    name: Seq<char>,
    rule: RuleStats,
    other: Seq<char>,
)
    requires
        distinct_keys(scheduler.stats),
    ensures
        scheduler.with_rule(name, rule).rule(name) == rule,
        other != name ==> scheduler.with_rule(name, rule).rule(other) == scheduler.rule(other),
        distinct_keys(scheduler.with_rule(name, rule).stats),
{
    lemma_bind(scheduler.stats, name, rule, other);
}

/// A rule that must not be banned is not: whatever a search finds is handed on,
/// the rule's ban stays as it was, and it still must not be banned.
pub proof fn law_do_not_ban<T>(
    scheduler: BackoffModel,
    name: Seq<char>,
    iteration: usize,
    found: Vec<SearchMatches<T>>,
    after: BackoffModel,
    handed: Vec<SearchMatches<T>>,
)
    requires
        distinct_keys(scheduler.stats),
        scheduler.rule(name).match_limit == usize::MAX,
        total_substs(found@) <= usize::MAX,
        scheduler.takes(iteration, name, found, after, handed),
    ensures
        handed == found,
        after.rule(name).times_banned == scheduler.rule(name).times_banned,
        after.rule(name).banned_until == scheduler.rule(name).banned_until,
        after.rule(name).match_limit == usize::MAX,
{
    let rule = scheduler.rule(name);
    let p: int = pow2(rule.times_banned as nat) as int;
    vstd::arithmetic::power2::lemma_pow2_pos(rule.times_banned as nat);
    assert(usize::MAX * p >= usize::MAX) by (nonlinear_arith)
        requires
            p >= 1,
    ;
    law_rule_is_read_back(
        scheduler,
        name,
        rule.after_search(iteration, total_substs(found@)),
        name,
    );
}

/// A search changes what is remembered of the searched rule only.
pub proof fn law_search_leaves_other_rules_alone<T>(
    scheduler: BackoffModel,
    name: Seq<char>,
    other: Seq<char>,
    iteration: usize,
    found: Vec<SearchMatches<T>>,
    after: BackoffModel,
    handed: Vec<SearchMatches<T>>,
)
    requires
        distinct_keys(scheduler.stats),
        scheduler.takes(iteration, name, found, after, handed),
        other != name,
    ensures
        after.rule(other) == scheduler.rule(other),
        distinct_keys(after.stats),
{
    law_rule_is_read_back(
        scheduler,
        name,
        scheduler.rule(name).after_search(iteration, total_substs(found@)),
        other,
    );
}

/// What a snapshot says of a rule is what the search goes by. A rule that is not
/// listed as active is skipped, and nothing changes. An active rule is searched up
/// to one more than the listed match limit; it is banned if and only if more than
/// that limit is found, and otherwise all that is found is handed on.
pub proof fn law_snapshot_foretells_search<G: EGraph>(
    scheduler: BackoffModel,
    iteration: usize,
    names: Seq<Symbol>,
    snapshot: SchedulerSnapshot,
    j: int,
    egraph: G,
    rewrite: Rewrite<G::Rule>,
    after: BackoffModel,
    handed: Vec<SearchMatches<G::Subst>>,
)
    requires
        distinct_keys(scheduler.stats),
        scheduler.is_snapshot(iteration, names, snapshot),
        0 <= j < names.len(),
        names[j] == rewrite.name,
        scheduler.rule(rewrite.name@).times_banned < usize::MAX,
        scheduler.searches(iteration, egraph, rewrite, after, handed),
    ensures
        ({
            let state = snapshot.rules@[j];
            let rule = after.rule(rewrite.name@);
            &&& state.name == rewrite.name
            &&& !state.will_search ==> handed@.len() == 0 && after == scheduler
            &&& state.will_search ==> exists|found: Vec<SearchMatches<G::Subst>>|
                {
                    &&& #[trigger] call_ensures(
                        G::search_with_limit,
                        (&egraph, &rewrite.rule, capped(state.match_limit + 1)),
                        found,
                    )
                    &&& if total_substs(found@) > state.match_limit {
                        &&& handed@.len() == 0
                        &&& rule.times_banned == state.times_banned + 1
                    } else {
                        &&& handed == found
                        &&& rule.times_banned == state.times_banned
                    }
                }
        }),
{
    let rule = scheduler.rule(rewrite.name@);
    if !rule.is_banned(iteration) {
        let found = choose|found: Vec<SearchMatches<G::Subst>>| #[trigger]
            call_ensures(
                G::search_with_limit,
                (&egraph, &rewrite.rule, rule.search_limit()),
                found,
            ) && scheduler.takes(iteration, rewrite.name@, found, after, handed);
        law_rule_is_read_back(
            scheduler,
            rewrite.name@,
            rule.after_search(iteration, total_substs(found@)),
            rewrite.name@,
        );
    }
}

/// A rule keeps its place when bans are shortened.
proof fn lemma_forwarded_rule(
    scheduler: BackoffModel,
    iteration: usize,
    delta: usize,
    name: Seq<char>,
)
    requires
        distinct_keys(scheduler.stats),
    ensures
        scheduler.forwarded(iteration, delta).rule(name) == scheduler.rule(name).forwarded(
            iteration,
            delta,
        ),
        distinct_keys(scheduler.forwarded(iteration, delta).stats),
{
    let before = scheduler.stats;
    let after = scheduler.forwarded(iteration, delta).stats;
    assert forall|j: int| 0 <= j < before.len() implies (#[trigger] after[j]).0 == before[j].0 by {}
    if has_key(before, name) {
        let k = key_index(before, name);
        assert(after[k].0 == name);
    }
    if has_key(after, name) {
        let k = key_index(after, name);
        assert(before[k].0 == name);
    }
}

/// A scheduler agrees to stop if and only if no rule is banned, and is then left
/// as it was.
pub proof fn law_stop_without_bans(scheduler: BackoffModel, iteration: usize, delta: usize)
    requires
        is_least_positive(scheduler.remaining(iteration), delta as int),
    ensures
        delta == 0 <==> forall|j: int|
            0 <= j < scheduler.stats.len() ==> !(#[trigger] scheduler.stats[j]).1.is_banned(
                iteration,
            ),
        delta == 0 ==> scheduler.forwarded(iteration, delta) == scheduler,
{
    let left = scheduler.remaining(iteration);
    assert forall|j: int| 0 <= j < scheduler.stats.len() implies (#[trigger] scheduler.stats[j])
        .1.is_banned(iteration) == (left[j] > 0) by {}
    if delta == 0 {
        assert(scheduler.forwarded(iteration, delta).stats =~= scheduler.stats);
    } else {
        let j = choose|j: int| 0 <= j < left.len() && left[j] == delta;
        assert(scheduler.stats[j].1.is_banned(iteration));
    }
}

/// Bans that are shortened become fewer, where one of them runs out.
proof fn lemma_fewer_banned(
    before: Seq<(Seq<char>, RuleStats)>,
    after: Seq<(Seq<char>, RuleStats)>,
    iteration: usize,
    j: int,
)
    requires
        before.len() == after.len(),
        forall|i: int|
            0 <= i < before.len() && (#[trigger] after[i]).1.is_banned(iteration)
                ==> before[i].1.is_banned(iteration),
        j < before.len(),
        0 <= j ==> before[j].1.is_banned(iteration) && !after[j].1.is_banned(iteration),
    ensures
        ({
            let banned = |entry: (Seq<char>, RuleStats)| entry.1.is_banned(iteration);
            &&& after.filter(banned).len() <= before.filter(banned).len()
            &&& 0 <= j ==> after.filter(banned).len() < before.filter(banned).len()
        }),
    decreases before.len(),
{
    reveal(Seq::filter);
    if before.len() > 0 {
        let n = before.len() - 1;
        assert forall|i: int| 0 <= i < n && (#[trigger] after.drop_last()[i]).1.is_banned(
            iteration,
        ) implies before.drop_last()[i].1.is_banned(iteration) by {
            assert(after.drop_last()[i] == after[i]);
        }
        lemma_fewer_banned(
            before.drop_last(),
            after.drop_last(),
            iteration,
            if j == n {
                -1
            } else {
                j
            },
        );
        assert(after.last() == after[n] && before.last() == before[n]);
    }
}

/// A scheduler that refuses to stop shortens all bans by the same number of
/// iterations: just enough for one of them to run out. So fewer rules are
/// banned, and rules without a ban are left alone.
pub proof fn law_fast_forward(scheduler: BackoffModel, iteration: usize, delta: usize, j: int)
    requires
        is_least_positive(scheduler.remaining(iteration), delta as int),
        delta > 0,
        0 <= j < scheduler.stats.len(),
    ensures
        ({
            let after = scheduler.forwarded(iteration, delta);
            let rule = scheduler.stats[j].1;
            &&& after.stats[j].0 == scheduler.stats[j].0
            &&& if rule.is_banned(iteration) {
                after.stats[j].1.ban_remaining(iteration) == rule.ban_remaining(iteration) - delta
            } else {
                after.stats[j].1 == rule
            }
            &&& after.stats[j].1 == (RuleStats {
                banned_until: after.stats[j].1.banned_until,
                ..rule
            })
            &&& exists|i: int|
                {
                    &&& 0 <= i < scheduler.stats.len()
                    &&& (#[trigger] scheduler.stats[i]).1.is_banned(iteration)
                    &&& after.stats[i].1.banned_until == iteration
                }
            &&& after.banned(iteration).len() < scheduler.banned(iteration).len()
        }),
{
    let left = scheduler.remaining(iteration);
    let after = scheduler.forwarded(iteration, delta);
    assert forall|i: int| 0 <= i < scheduler.stats.len() implies left[i]
        == (#[trigger] scheduler.stats[i]).1.ban_remaining(iteration) by {}
    let i = choose|i: int| 0 <= i < left.len() && left[i] == delta;
    assert(scheduler.stats[i].1.is_banned(iteration));
    lemma_fewer_banned(scheduler.stats, after.stats, iteration, i);
}

/// A rule that was fast-forwarded to the end of its ban is active in every later
/// snapshot, where its ban does not count as just expired.
pub proof fn law_fast_forwarded_rule_is_active_next(
    scheduler: BackoffModel,
    iteration: usize,
    delta: usize,
    name: Symbol,
    later: usize,
)
    requires
        distinct_keys(scheduler.stats),
        scheduler.rule(name@).ban_remaining(iteration) == delta,
        delta > 0,
        iteration < later,
    ensures
        ({
            let state = scheduler.forwarded(iteration, delta).rule_state(later, name);
            &&& state.will_search
            &&& !state.newly_unbanned
            &&& state.ban_remaining == 0
            &&& state.times_banned == scheduler.rule(name@).times_banned
            &&& state.match_limit == scheduler.rule(name@).threshold()
        }),
{
    lemma_forwarded_rule(scheduler, iteration, delta, name@);
}

/// Shortening bans keeps every rule listed once.
pub proof fn law_fast_forward_keeps_rules_distinct(
    scheduler: BackoffModel,
    iteration: usize,
    delta: usize,
)
    requires
        distinct_keys(scheduler.stats),
    ensures
        distinct_keys(scheduler.forwarded(iteration, delta).stats),
{
    lemma_forwarded_rule(scheduler, iteration, delta, Seq::empty());
}

/// A rule that has to wait, or has waited, was banned.
pub open spec fn waits_only_if_banned(rule: RuleStats) -> bool {
    rule.banned_until > 0 ==> rule.times_banned > 0
}

/// Only a ban makes a rule wait: no search without a ban and no fast-forward does.
pub proof fn law_only_bans_make_a_rule_wait(
    scheduler: BackoffModel,
    rule: RuleStats,
    iteration: usize,
    found: nat,
    delta: usize,
)
    requires
        waits_only_if_banned(rule),
    ensures
        waits_only_if_banned(scheduler.fresh()),
        waits_only_if_banned(rule.after_search(iteration, found)),
        waits_only_if_banned(rule.forwarded(iteration, delta)),
        found <= rule.threshold() ==> rule.after_search(iteration, found).banned_until
            == rule.banned_until,
{
}

/// More bans never lower a limit.
pub proof fn law_limits_never_shrink(base: usize, times: usize, more: usize)
    requires
        times <= more,
    ensures
        doubled(base, times) <= doubled(base, more),
    decreases more - times,
{
    if times < more {
        law_limits_never_shrink(base, times, (more - 1) as usize);
        law_limit_doubles(base, (more - 1) as usize);
    }
}

} // verus!
