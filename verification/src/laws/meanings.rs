//! What the words of the contracts mean, in terms of sequences and numbers alone.

use vstd::arithmetic::power2::pow2;
use vstd::prelude::*;
use crate::backoff::{doubled, BackoffModel, BackoffScheduler, RuleStats};
use crate::egraph::{total_substs, SearchMatches};
use crate::limits::elapsed_since;
use crate::maps::{bind, distinct_keys, has_key, key_index, stats_entries};
use crate::memory::larger;
use crate::snapshot::{is_largest, is_least_positive};
use crate::sums::{capped, sum};

verus! {

/// A sum adds up all elements.
pub proof fn law_sum_adds_up(s: Seq<int>)
    ensures
        sum(s) == s.fold_left(0int, |total: int, x: int| total + x),
    decreases s.len(),
{
    reveal(Seq::fold_left);
    if s.len() > 0 {
        law_sum_adds_up(s.drop_last());
    }
}

/// A capped number is the number itself as long as it fits, and the largest number
/// that does otherwise.
pub proof fn law_capped(n: int)
    requires
        n >= 0,
    ensures
        n <= usize::MAX ==> capped(n) == n,
        n > usize::MAX ==> capped(n) == usize::MAX,
{
}

/// The time from a start to a moment is their difference, and nothing where the
/// moment does not come after the start.
pub proof fn law_elapsed(start: u64, now: u64)
    ensures
        now >= start ==> elapsed_since(start, now) == now - start,
        now <= start ==> elapsed_since(start, now) == 0,
{
}

/// The larger of two readings is one of them and no less than either.
pub proof fn law_larger(a: u64, b: u64)
    ensures
        larger(a, b) == a || larger(a, b) == b,
        larger(a, b) >= a,
        larger(a, b) >= b,
{
}

/// The substitutions of all classes are counted.
pub proof fn law_total_substs<T>(matches: Seq<SearchMatches<T>>)
    ensures
        total_substs(matches) == matches.fold_left(
            0int,
            |total: int, found: SearchMatches<T>| total + found.substs@.len(),
        ),
    decreases matches.len(),
{
    reveal(Seq::fold_left);
    if matches.len() > 0 {
        law_total_substs(matches.drop_last());
    }
}

/// Doubling a limit multiplies it by a power of two, as long as that fits.
pub proof fn law_doubled(base: usize, times: usize)
    ensures
        base * pow2(times as nat) <= usize::MAX ==> doubled(base, times) == base * pow2(
            times as nat,
        ),
        base * pow2(times as nat) > usize::MAX ==> doubled(base, times) == usize::MAX,
{
}

/// A key is there if an entry has it, and is found at that entry.
pub proof fn law_keys<V>(entries: Seq<(Seq<char>, V)>, key: Seq<char>, i: int)
    requires
        distinct_keys(entries),
    ensures
        0 <= i < entries.len() && entries[i].0 == key ==> has_key(entries, key) && key_index(
            entries,
            key,
        ) == i,
        has_key(entries, key) ==> 0 <= key_index(entries, key) < entries.len() && entries[key_index(
            entries,
            key,
        )].0 == key,
{
}

/// Entries have distinct keys if and only if no key is there twice.
pub proof fn law_distinct_keys<V>(entries: Seq<(Seq<char>, V)>)
    ensures
        distinct_keys(entries) <==> entries.map_values(
            |entry: (Seq<char>, V)| entry.0,
        ).no_duplicates(),
{
    let keys = entries.map_values(|entry: (Seq<char>, V)| entry.0);
    if distinct_keys(entries) {
        assert forall|i: int, j: int| 0 <= i < keys.len() && 0 <= j < keys.len() && i != j implies
            keys[i] != keys[j] by {
            if i < j {
                assert(entries[i].0 != entries[j].0);
            } else {
                assert(entries[j].0 != entries[i].0);
            }
        }
    }
    if keys.no_duplicates() {
        assert forall|i: int, j: int| 0 <= i < j < entries.len() implies (
        #[trigger] entries[i]).0 != (#[trigger] entries[j]).0 by {
            assert(keys[i] != keys[j]);
        }
    }
}

/// Binding a key replaces its value in place, and appends a key that is new.
pub proof fn law_bind<V>(entries: Seq<(Seq<char>, V)>, key: Seq<char>, value: V, i: int)
    requires
        distinct_keys(entries),
    ensures
        0 <= i < entries.len() && entries[i].0 == key ==> bind(entries, key, value)
            == entries.update(i, (key, value)),
        (forall|j: int| 0 <= j < entries.len() ==> (#[trigger] entries[j]).0 != key) ==> bind(
            entries,
            key,
            value,
        ) == entries.push((key, value)),
{
}

/// The largest element is one of them and no less than any.
pub proof fn law_largest(s: Seq<int>, m: int, i: int)
    requires
        is_largest(s, m),
        0 <= i < s.len(),
    ensures
        s[i] <= m,
        s.contains(m),
{
}

/// Of no elements, zero counts as the largest.
pub proof fn law_largest_of_none(s: Seq<int>, m: int)
    requires
        is_largest(s, m),
        s.len() == 0,
    ensures
        m == 0,
{
}

/// The least positive element is one of them and no more than any other positive
/// one.
pub proof fn law_least_positive(s: Seq<int>, m: int, i: int)
    requires
        is_least_positive(s, m),
        0 <= i < s.len(),
        s[i] > 0,
    ensures
        0 < m <= s[i],
        s.contains(m),
{
}

/// Without a positive element, zero counts as the least.
pub proof fn law_least_positive_of_none(s: Seq<int>, m: int)
    requires
        is_least_positive(s, m),
        forall|i: int| 0 <= i < s.len() ==> #[trigger] s[i] <= 0,
    ensures
        m == 0,
{
    if m != 0 {
        let i = choose|i: int| 0 <= i < s.len() && s[i] == m;
        assert(s[i] <= 0);
    }
}

/// A scheduler's model shows its fields.
pub proof fn law_backoff_model(scheduler: BackoffScheduler)
    ensures
        scheduler@.default_match_limit == scheduler.default_match_limit,
        scheduler@.default_ban_length == scheduler.default_ban_length,
        scheduler@.stats == stats_entries(scheduler.stats),
{
}

/// What is known of a rule is what its entry holds. A rule without an entry starts
/// from the defaults, unused and never banned.
pub proof fn law_known_rule(scheduler: BackoffModel, name: Seq<char>, i: int)
    requires
        distinct_keys(scheduler.stats),
    ensures
        0 <= i < scheduler.stats.len() && scheduler.stats[i].0 == name ==> scheduler.rule(name)
            == scheduler.stats[i].1,
        (forall|j: int| 0 <= j < scheduler.stats.len() ==> (#[trigger] scheduler.stats[j]).0
            != name) ==> scheduler.rule(name) == (RuleStats {
            times_applied: 0,
            banned_until: 0,
            times_banned: 0,
            match_limit: scheduler.default_match_limit,
            ban_length: scheduler.default_ban_length,
        }),
{
}

} // verus!
