//! What holds of scheduler snapshots.

use vstd::prelude::*;
use crate::backoff::{BackoffModel, RuleStats};
use crate::egraph::Symbol;
use crate::laws::backoff::law_limit_doubles;
use crate::maps::{distinct_keys, key_index};
use crate::snapshot::{
    active_rules, ban_counts, bans_remaining, is_largest, match_limits, SchedulerRuleState,
    SchedulerSnapshot, SchedulerStats,
};
use crate::sums::{lemma_sum_push, sum};

verus! {

/// A snapshot counts each rule as either active or banned, and its figures are
/// determined by the rules that it lists.
pub proof fn law_snapshot_is_determined(a: SchedulerSnapshot, b: SchedulerSnapshot)
    requires
        a.aggregates_match(),
        b.aggregates_match(),
        a.rules@ == b.rules@,
    ensures
        a.n_active + a.n_banned == a.rules@.len(),
        a.n_active == b.n_active,
        a.n_banned == b.n_banned,
        a.n_newly_unbanned == b.n_newly_unbanned,
        a.min_ban_remaining == b.min_ban_remaining,
        a.total_times_banned == b.total_times_banned,
        a.max_active_match_limit == b.max_active_match_limit,
        a.active_match_limit_sum == b.active_match_limit_sum,
        a.max_active_times_banned == b.max_active_times_banned,
{
    let left = bans_remaining(a.rules@);
    if a.min_ban_remaining != 0 {
        let i = choose|i: int| 0 <= i < left.len() && left[i] == a.min_ban_remaining;
        assert(left[i] > 0);
    }
    if b.min_ban_remaining != 0 {
        let i = choose|i: int| 0 <= i < left.len() && left[i] == b.min_ban_remaining;
        assert(left[i] > 0);
    }
    lemma_largest_unique(
        match_limits(active_rules(a.rules@)),
        a.max_active_match_limit as int,
        b.max_active_match_limit as int,
    );
    lemma_largest_unique(
        ban_counts(active_rules(a.rules@)),
        a.max_active_times_banned as int,
        b.max_active_times_banned as int,
    );
}

/// Recomputing the figures of a snapshot once more changes nothing.
pub proof fn law_recomputing_changes_nothing(once: SchedulerSnapshot, twice: SchedulerSnapshot)
    requires
        once.aggregates_match(),
        twice.scheduler == once.scheduler,
        twice.rules == once.rules,
        twice.aggregates_match(),
    ensures
        twice == once,
{
    law_snapshot_is_determined(once, twice);
}

/// A sequence has one largest element.
proof fn lemma_largest_unique(s: Seq<int>, m: int, n: int)
    requires
        is_largest(s, m),
        is_largest(s, n),
    ensures
        m == n,
{
    if s.len() > 0 {
        let i = choose|i: int| 0 <= i < s.len() && s[i] == m;
        let j = choose|j: int| 0 <= j < s.len() && s[j] == n;
        assert(s[i] <= n && s[j] <= m);
    }
}

/// A filter keeps no fewer elements where it lets more pass.
proof fn lemma_filter_weaker<A>(s: Seq<A>, p: spec_fn(A) -> bool, q: spec_fn(A) -> bool)
    requires
        forall|j: int| 0 <= j < s.len() && p(#[trigger] s[j]) ==> q(s[j]),
    ensures
        s.filter(p).len() <= s.filter(q).len(),
    decreases s.len(),
{
    reveal(Seq::filter);
    if s.len() > 0 {
        assert forall|j: int| 0 <= j < s.drop_last().len() && p(
            #[trigger] s.drop_last()[j],
        ) implies q(s.drop_last()[j]) by {
            assert(s.drop_last()[j] == s[j]);
        }
        lemma_filter_weaker(s.drop_last(), p, q);
        assert(s.last() == s[s.len() - 1]);
    }
}

/// A filter that lets everything pass changes nothing, and one that lets nothing
/// pass leaves nothing.
proof fn lemma_filter_extremes<A>(s: Seq<A>, p: spec_fn(A) -> bool)
    ensures
        (forall|j: int| 0 <= j < s.len() ==> p(#[trigger] s[j])) ==> s.filter(p) == s,
        (forall|j: int| 0 <= j < s.len() ==> !p(#[trigger] s[j])) ==> s.filter(p).len() == 0,
        s.filter(p).len() <= s.len(),
        s.filter(p).len() == s.len() ==> forall|j: int| 0 <= j < s.len() ==> p(#[trigger] s[j]),
    decreases s.len(),
{
    reveal(Seq::filter);
    if s.len() > 0 {
        let t = s.drop_last();
        lemma_filter_extremes(t, p);
        assert forall|j: int| 0 <= j < t.len() implies t[j] == s[j] by {}
        assert(s.last() == s[s.len() - 1]);
        if forall|j: int| 0 <= j < s.len() ==> p(#[trigger] s[j]) {
            assert forall|j: int| 0 <= j < t.len() implies p(#[trigger] t[j]) by {
                assert(p(s[j]));
            }
            assert(t.push(s.last()) =~= s);
        }
        if forall|j: int| 0 <= j < s.len() ==> !p(#[trigger] s[j]) {
            assert forall|j: int| 0 <= j < t.len() implies !p(#[trigger] t[j]) by {
                assert(!p(s[j]));
            }
        }
        if s.filter(p).len() == s.len() {
            assert forall|j: int| 0 <= j < s.len() implies p(#[trigger] s[j]) by {
                if j < t.len() {
                    assert(p(t[j]));
                }
            }
        }
    }
}

/// In a backoff snapshot a rule is active if and only if nothing is left of its
/// ban, and a rule whose ban has just expired is active. So no more rules are
/// newly unbanned than active, and some ban is left if and only if a rule is
/// banned.
pub proof fn law_backoff_snapshot(
    scheduler: BackoffModel,
    iteration: usize,
    rewrites: Seq<Symbol>,
    snapshot: SchedulerSnapshot,
)
    requires
        scheduler.is_snapshot(iteration, rewrites, snapshot),
    ensures
        snapshot.rules@.len() == rewrites.len(),
        forall|j: int|
            0 <= j < rewrites.len() ==> {
                let rule = #[trigger] snapshot.rules@[j];
                &&& rule.will_search <==> rule.ban_remaining == 0
                &&& rule.newly_unbanned ==> rule.will_search && rule.times_banned > 0
            },
        snapshot.n_newly_unbanned <= snapshot.n_active,
        snapshot.n_banned == 0 <==> snapshot.min_ban_remaining == 0,
{
    let rules = snapshot.rules@;
    let p = |r: SchedulerRuleState| r.newly_unbanned;
    let q = |r: SchedulerRuleState| r.will_search;
    lemma_filter_weaker(rules, p, q);
    lemma_filter_extremes(rules, q);
    let left = bans_remaining(rules);
    assert forall|j: int| 0 <= j < rules.len() implies left[j] == (
    #[trigger] rules[j]).ban_remaining by {}
    if snapshot.min_ban_remaining != 0 {
        let i = choose|i: int| 0 <= i < left.len() && left[i] == snapshot.min_ban_remaining;
        assert(!rules[i].will_search);
    } else {
        assert forall|j: int| 0 <= j < rules.len() implies (#[trigger] rules[j]).will_search by {
            assert(left[j] == rules[j].ban_remaining);
        }
    }
}

/// Before its first search, a scheduler lists every rule as active at the default
/// limit and none as ever banned.
pub proof fn law_first_snapshot(
    scheduler: BackoffModel,
    iteration: usize,
    rewrites: Seq<Symbol>,
    snapshot: SchedulerSnapshot,
)
    requires
        scheduler.stats.len() == 0,
        scheduler.is_snapshot(iteration, rewrites, snapshot),
    ensures
        snapshot.n_active == rewrites.len(),
        snapshot.n_banned == 0,
        snapshot.n_newly_unbanned == 0,
        snapshot.min_ban_remaining == 0,
        snapshot.total_times_banned == 0,
        forall|j: int|
            0 <= j < rewrites.len() ==> #[trigger] snapshot.rules@[j] == (SchedulerRuleState {
                name: rewrites[j],
                will_search: true,
                newly_unbanned: false,
                times_banned: 0,
                ban_remaining: 0,
                match_limit: scheduler.default_match_limit,
            }),
{
    let rules = snapshot.rules@;
    law_limit_doubles(scheduler.default_match_limit, 0);
    assert forall|j: int| 0 <= j < rules.len() implies (#[trigger] rules[j])
        == scheduler.rule_state(iteration, rewrites[j]) by {}
    lemma_filter_extremes(rules, |r: SchedulerRuleState| r.will_search);
    lemma_filter_extremes(rules, |r: SchedulerRuleState| r.newly_unbanned);
    law_backoff_snapshot(scheduler, iteration, rewrites, snapshot);
    lemma_sum_zero(ban_counts(rules));
}

/// Zeros sum up to zero.
proof fn lemma_sum_zero(s: Seq<int>)
    requires
        forall|j: int| 0 <= j < s.len() ==> #[trigger] s[j] == 0,
    ensures
        sum(s) == 0,
    decreases s.len(),
{
    if s.len() > 0 {
        lemma_sum_zero(s.drop_last());
    }
}

/// A scheduler without state of its own lists every rule as active, with no
/// finite threshold and never banned.
pub proof fn law_generic_snapshot(rewrites: Seq<Symbol>, snapshot: SchedulerSnapshot)
    requires
        snapshot.is_generic(rewrites),
    ensures
        snapshot.n_active == rewrites.len(),
        snapshot.n_banned == 0,
        snapshot.n_newly_unbanned == 0,
        snapshot.min_ban_remaining == 0,
        snapshot.total_times_banned == 0,
        snapshot.max_active_times_banned == 0,
        snapshot.max_active_match_limit == if rewrites.len() == 0 {
            0
        } else {
            usize::MAX
        },
{
    let rules = snapshot.rules@;
    let left = bans_remaining(rules);
    lemma_filter_extremes(rules, |r: SchedulerRuleState| r.will_search);
    lemma_filter_extremes(rules, |r: SchedulerRuleState| r.newly_unbanned);
    lemma_sum_zero(ban_counts(rules));
    if snapshot.min_ban_remaining != 0 {
        let i = choose|i: int| 0 <= i < left.len() && left[i] == snapshot.min_ban_remaining;
        assert(rules[i].ban_remaining == 0);
    }
    if rewrites.len() > 0 {
        assert(ban_counts(rules)[0] == 0);
        assert(match_limits(rules)[0] == usize::MAX);
    }
}

/// The names of rules, by their characters.
pub open spec fn names_in(rewrites: Seq<Symbol>) -> Seq<Seq<char>> {
    rewrites.map_values(|name: Symbol| name@)
}

/// The names of the rules that have come up.
pub open spec fn known_names(entries: Seq<(Seq<char>, RuleStats)>) -> Seq<Seq<char>> {
    entries.map_values(|entry: (Seq<char>, RuleStats)| entry.0)
}

/// The list names each rule that has come up once, in any order, and no other.
pub open spec fn lists(rewrites: Seq<Symbol>, entries: Seq<(Seq<char>, RuleStats)>) -> bool {
    names_in(rewrites).to_multiset() == known_names(entries).to_multiset()
}

/// The sum of two sequences in turn.
proof fn lemma_sum_append(s: Seq<int>, t: Seq<int>)
    ensures
        sum(s + t) == sum(s) + sum(t),
    decreases t.len(),
{
    if t.len() == 0 {
        assert(s + t =~= s);
    } else {
        lemma_sum_append(s, t.drop_last());
        assert((s + t).drop_last() =~= s + t.drop_last());
    }
}

/// What is summed up over names does not depend on their order.
proof fn lemma_sum_in_any_order(a: Seq<Seq<char>>, b: Seq<Seq<char>>, f: spec_fn(Seq<char>) -> int)
    requires
        a.to_multiset() == b.to_multiset(),
    ensures
        a.len() == b.len(),
        sum(a.map_values(f)) == sum(b.map_values(f)),
    decreases a.len(),
{
    broadcast use vstd::seq_lib::group_to_multiset_ensures;

    assert(a.to_multiset().len() == a.len() && b.to_multiset().len() == b.len());
    if a.len() > 0 {
        let x = a.last();
        let rest = a.drop_last();
        assert(a.to_multiset().count(x) > 0) by {
            assert(a.contains(x));
        }
        assert(b.contains(x));
        let i = choose|i: int| 0 <= i < b.len() && b[i] == x;
        let other = b.remove(i);
        assert(rest =~= a.remove(a.len() - 1));
        assert(rest.to_multiset() =~= other.to_multiset());
        lemma_sum_in_any_order(rest, other, f);
        let left = b.take(i).map_values(f);
        let right = b.skip(i + 1).map_values(f);
        assert(b.map_values(f) =~= left + seq![f(x)] + right);
        assert(other.map_values(f) =~= left + right);
        lemma_sum_append(left + seq![f(x)], right);
        lemma_sum_append(left, seq![f(x)]);
        lemma_sum_append(left, right);
        lemma_sum_push(Seq::empty(), f(x));
        assert(Seq::<int>::empty().push(f(x)) =~= seq![f(x)]);
        assert(a.map_values(f).drop_last() =~= rest.map_values(f));
    }
}

/// A filter keeps as many elements as a sum over what it lets pass counts.
proof fn lemma_filter_is_sum<A>(s: Seq<A>, p: spec_fn(A) -> bool, ones: Seq<int>)
    requires
        ones.len() == s.len(),
        forall|j: int|
            0 <= j < s.len() ==> (#[trigger] ones[j]) == if p(s[j]) {
                1int
            } else {
                0
            },
    ensures
        s.filter(p).len() == sum(ones),
    decreases s.len(),
{
    reveal(Seq::filter);
    if s.len() > 0 {
        lemma_filter_is_sum(s.drop_last(), p, ones.drop_last());
    }
}

/// Aggregates and snapshots agree on the rules that have come up, in whatever order
/// a snapshot lists them.
pub proof fn law_stats_agree_with_snapshot(
    scheduler: BackoffModel,
    iteration: usize,
    rewrites: Seq<Symbol>,
    snapshot: SchedulerSnapshot,
    stats: SchedulerStats,
)
    requires
        distinct_keys(scheduler.stats),
        lists(rewrites, scheduler.stats),
        scheduler.is_snapshot(iteration, rewrites, snapshot),
        scheduler.is_stats(iteration, stats),
    ensures
        stats.n_banned == snapshot.n_banned,
        stats.n_unbanned_this_iter == snapshot.n_newly_unbanned,
        stats.min_ban_remaining == snapshot.min_ban_remaining,
        stats.total_times_banned == snapshot.total_times_banned,
{
    let rules = snapshot.rules@;
    let entries = scheduler.stats;
    let listed = names_in(rewrites);
    let known = known_names(entries);
    assert forall|j: int| 0 <= j < entries.len() implies scheduler.rule(known[j]) == (
    #[trigger] entries[j]).1 by {
        assert(key_index(entries, known[j]) == j);
    }
    let active = |name: Seq<char>|
        if scheduler.rule(name).is_banned(iteration) {
            0int
        } else {
            1
        };
    let banned = |name: Seq<char>|
        if scheduler.rule(name).is_banned(iteration) {
            1int
        } else {
            0
        };
    let unbanned = |name: Seq<char>|
        if scheduler.rule(name).is_newly_unbanned(iteration) {
            1int
        } else {
            0
        };
    let bans = |name: Seq<char>| scheduler.rule(name).times_banned as int;
    lemma_sum_in_any_order(listed, known, active);
    lemma_sum_in_any_order(listed, known, unbanned);
    lemma_sum_in_any_order(listed, known, bans);
    lemma_filter_is_sum(
        rules,
        |r: SchedulerRuleState| r.will_search,
        listed.map_values(active),
    );
    lemma_filter_is_sum(
        rules,
        |r: SchedulerRuleState| r.newly_unbanned,
        listed.map_values(unbanned),
    );
    lemma_filter_is_sum(
        entries,
        |entry: (Seq<char>, RuleStats)| entry.1.is_banned(iteration),
        known.map_values(banned),
    );
    lemma_filter_is_sum(
        entries,
        |entry: (Seq<char>, RuleStats)| entry.1.is_newly_unbanned(iteration),
        known.map_values(unbanned),
    );
    lemma_complement(known.map_values(active), known.map_values(banned));
    assert(ban_counts(rules) =~= listed.map_values(bans));
    assert(scheduler.ban_counts() =~= known.map_values(bans));
    lemma_same_least(scheduler, iteration, rewrites, snapshot, stats);
}

/// Of two sequences of zeros and ones where each is one where the other is not, the
/// sums make up the length.
proof fn lemma_complement(s: Seq<int>, t: Seq<int>)
    requires
        s.len() == t.len(),
        forall|j: int| 0 <= j < s.len() ==> (#[trigger] s[j]) + t[j] == 1,
    ensures
        sum(s) + sum(t) == s.len(),
    decreases s.len(),
{
    if s.len() > 0 {
        assert forall|j: int| 0 <= j < s.len() - 1 implies (#[trigger] s.drop_last()[j])
            + t.drop_last()[j] == 1 by {
            assert(s[j] + t[j] == 1);
        }
        lemma_complement(s.drop_last(), t.drop_last());
        assert(s[s.len() - 1] + t[s.len() - 1] == 1);
    }
}

/// The shortest ban that is left is the same in any order.
proof fn lemma_same_least(
    scheduler: BackoffModel,
    iteration: usize,
    rewrites: Seq<Symbol>,
    snapshot: SchedulerSnapshot,
    stats: SchedulerStats,
)
    requires
        distinct_keys(scheduler.stats),
        lists(rewrites, scheduler.stats),
        scheduler.is_snapshot(iteration, rewrites, snapshot),
        scheduler.is_stats(iteration, stats),
    ensures
        stats.min_ban_remaining == snapshot.min_ban_remaining,
{
    broadcast use vstd::seq_lib::group_to_multiset_ensures;

    let entries = scheduler.stats;
    let listed = names_in(rewrites);
    let known = known_names(entries);
    let shown = bans_remaining(snapshot.rules@);
    let kept = scheduler.remaining(iteration);
    let m = snapshot.min_ban_remaining as int;
    let n = stats.min_ban_remaining as int;
    if m != 0 {
        let i = choose|i: int| 0 <= i < shown.len() && shown[i] == m;
        assert(listed.contains(listed[i]));
        assert(listed.to_multiset().count(listed[i]) > 0);
        assert(known.contains(listed[i]));
        let j = choose|j: int| 0 <= j < known.len() && known[j] == listed[i];
        assert(entries[j].0 == rewrites[i]@);
        assert(key_index(entries, rewrites[i]@) == j);
        assert(kept[j] == m);
    }
    if n != 0 {
        let j = choose|j: int| 0 <= j < kept.len() && kept[j] == n;
        assert(known.contains(known[j]));
        assert(known.to_multiset().count(known[j]) > 0);
        assert(listed.contains(known[j]));
        let i = choose|i: int| 0 <= i < listed.len() && listed[i] == known[j];
        assert(entries[j].0 == rewrites[i]@);
        assert(key_index(entries, rewrites[i]@) == j);
        assert(shown[i] == n);
    }
}

} // verus!
