//! What a runner records.

use indexmap::IndexMap;
use vstd::prelude::*;
use crate::egraph::{Rewrite, Symbol};
use crate::limits::StopReason;
use crate::maps::{
    bind, count_clone, count_entries, count_get_index, count_index_mut, count_index_of,
    count_insert, count_len, count_new, has_key, key_index,
};
use crate::sums::{capped, lemma_sum_bounds, sum};

verus! {

/// Data generated by running a runner one iteration.
#[derive(Debug)]
#[non_exhaustive]
pub struct Iteration<D> {
    /// The number of e-nodes in the e-graph at the start of this iteration.
    pub egraph_nodes: usize,
    /// The number of e-classes in the e-graph at the start of this iteration.
    pub egraph_classes: usize,
    /// A map from rule name to number of times it was _newly_ applied in this
    /// iteration.
    pub applied: IndexMap<Symbol, usize>,
    /// Nanoseconds spent running hooks.
    pub hook_time: u64,
    /// Nanoseconds spent searching in this iteration.
    pub search_time: u64,
    /// Nanoseconds spent applying rules in this iteration.
    pub apply_time: u64,
    /// Nanoseconds spent rebuilding the e-graph in this iteration.
    pub rebuild_time: u64,
    /// Total time spent in this iteration, including data generation time, in
    /// nanoseconds.
    pub total_time: u64,
    /// The user provided annotation for this iteration
    pub data: D,
    /// The number of rebuild iterations done after this iteration completed.
    pub n_rebuilds: usize,
    /// If the runner stopped on this iteration, this is the reason
    pub stop_reason: Option<StopReason>,
}

impl<D: Clone> Clone for Iteration<D> {
    fn clone(&self) -> (r: Self)
        ensures
            count_entries(r.applied) == count_entries(self.applied),
            cloned(self.data, r.data),
            r == (Iteration { applied: r.applied, data: r.data, ..*self }),
    {
        let stop_reason = match &self.stop_reason {
            Some(reason) => Some(reason.clone()),
            None => None,
        };
        Iteration {
            egraph_nodes: self.egraph_nodes,
            egraph_classes: self.egraph_classes,
            applied: count_clone(&self.applied),
            hook_time: self.hook_time,
            search_time: self.search_time,
            apply_time: self.apply_time,
            rebuild_time: self.rebuild_time,
            total_time: self.total_time,
            data: self.data.clone(),
            n_rebuilds: self.n_rebuilds,
            stop_reason,
        }
    }
}

/// A report containing data about an entire run.
///
/// This is basically a summary of the [`Iteration`] data, but summed across
/// iterations. See [`Iteration`] docs for details about fields.
#[derive(Debug, Clone)]
#[non_exhaustive]
pub struct Report {
    /// The number of iterations this runner performed.
    pub iterations: usize,
    /// Why the runner stopped.
    pub stop_reason: StopReason,
    /// The number of e-nodes in all e-classes.
    pub egraph_nodes: usize,
    /// The number of e-classes.
    pub egraph_classes: usize,
    /// The number of e-nodes that were hash-consed.
    pub memo_size: usize,
    /// The rebuild iterations of all iterations.
    pub rebuilds: usize,
    /// The total time of all iterations.
    pub total_time: u128,
    /// The search time of all iterations.
    pub search_time: u128,
    /// The apply time of all iterations.
    pub apply_time: u128,
    /// The rebuild time of all iterations.
    pub rebuild_time: u128,
}

/// The rebuild iterations of each iteration.
pub open spec fn rebuild_counts<D>(iterations: Seq<Iteration<D>>) -> Seq<int> {
    iterations.map_values(|iteration: Iteration<D>| iteration.n_rebuilds as int)
}

/// The search time of each iteration.
pub open spec fn search_times<D>(iterations: Seq<Iteration<D>>) -> Seq<int> {
    iterations.map_values(|iteration: Iteration<D>| iteration.search_time as int)
}

/// The apply time of each iteration.
pub open spec fn apply_times<D>(iterations: Seq<Iteration<D>>) -> Seq<int> {
    iterations.map_values(|iteration: Iteration<D>| iteration.apply_time as int)
}

/// The rebuild time of each iteration.
pub open spec fn rebuild_times<D>(iterations: Seq<Iteration<D>>) -> Seq<int> {
    iterations.map_values(|iteration: Iteration<D>| iteration.rebuild_time as int)
}

/// The total time of each iteration.
pub open spec fn total_times<D>(iterations: Seq<Iteration<D>>) -> Seq<int> {
    iterations.map_values(|iteration: Iteration<D>| iteration.total_time as int)
}

/// Sums over iterations.
#[derive(Debug, Clone, Copy)]
pub struct Totals {
    /// The rebuild iterations.
    pub rebuilds: usize,
    /// The search times.
    pub search_time: u128,
    /// The apply times.
    pub apply_time: u128,
    /// The rebuild times.
    pub rebuild_time: u128,
    /// The total times.
    pub total_time: u128,
}

/// How a sum over iterations grows by one, and that it and one more time fit.
proof fn lemma_sum_step(all: Seq<int>, i: int)
    requires
        0 <= i < all.len() <= usize::MAX,
        forall|j: int| 0 <= j < all.len() ==> 0 <= #[trigger] all[j] <= u64::MAX,
    ensures
        sum(all.take(i + 1)) == sum(all.take(i)) + all[i],
        0 <= sum(all.take(i)),
        sum(all.take(i + 1)) <= u128::MAX,
        sum(all.take(i + 1)) <= sum(all),
    decreases all.len() - i,
{
    assert(all.take(i + 1).drop_last() =~= all.take(i));
    lemma_sum_bounds(all.take(i), u64::MAX as int);
    lemma_sum_bounds(all.take(i + 1), u64::MAX as int);
    assert((i + 1) * u64::MAX <= u128::MAX) by (nonlinear_arith)
        requires
            0 <= i < usize::MAX,
            usize::MAX <= u64::MAX,
    ;
    if i + 1 < all.len() {
        lemma_sum_step(all, i + 1);
    } else {
        assert(all.take(i + 1) =~= all);
    }
}

/// Sums up iterations.
pub fn totals<D>(iterations: &Vec<Iteration<D>>) -> (r: Totals)
    requires
        sum(rebuild_counts(iterations@)) <= usize::MAX,
    ensures
        r.rebuilds == sum(rebuild_counts(iterations@)),
        r.search_time == sum(search_times(iterations@)),
        r.apply_time == sum(apply_times(iterations@)),
        r.rebuild_time == sum(rebuild_times(iterations@)),
        r.total_time == sum(total_times(iterations@)),
{
    let mut rebuilds: usize = 0;
    let mut search_time: u128 = 0;
    let mut apply_time: u128 = 0;
    let mut rebuild_time: u128 = 0;
    let mut total_time: u128 = 0;
    let mut i: usize = 0;
    while i < iterations.len()
        invariant
            i <= iterations.len(),
            sum(rebuild_counts(iterations@)) <= usize::MAX,
            rebuilds == sum(rebuild_counts(iterations@).take(i as int)),
            search_time == sum(search_times(iterations@).take(i as int)),
            apply_time == sum(apply_times(iterations@).take(i as int)),
            rebuild_time == sum(rebuild_times(iterations@).take(i as int)),
            total_time == sum(total_times(iterations@).take(i as int)),
        decreases iterations.len() - i,
    {
        proof {
            lemma_sum_step(rebuild_counts(iterations@), i as int);
            lemma_sum_step(search_times(iterations@), i as int);
            lemma_sum_step(apply_times(iterations@), i as int);
            lemma_sum_step(rebuild_times(iterations@), i as int);
            lemma_sum_step(total_times(iterations@), i as int);
        }
        let iteration = &iterations[i];
        rebuilds += iteration.n_rebuilds;
        search_time += iteration.search_time as u128;
        apply_time += iteration.apply_time as u128;
        rebuild_time += iteration.rebuild_time as u128;
        total_time += iteration.total_time as u128;
        i += 1;
    }
    assert(rebuild_counts(iterations@).take(i as int) =~= rebuild_counts(iterations@));
    assert(search_times(iterations@).take(i as int) =~= search_times(iterations@));
    assert(apply_times(iterations@).take(i as int) =~= apply_times(iterations@));
    assert(rebuild_times(iterations@).take(i as int) =~= rebuild_times(iterations@));
    assert(total_times(iterations@).take(i as int) =~= total_times(iterations@));
    Totals { rebuilds, search_time, apply_time, rebuild_time, total_time }
}

/// The count of a name: zero where it has none.
pub open spec fn count_of(entries: Seq<(Seq<char>, usize)>, name: Seq<char>) -> usize {
    if has_key(entries, name) {
        entries[key_index(entries, name)].1
    } else {
        0
    }
}

/// The counts with `n` more for a name.
pub open spec fn counted(entries: Seq<(Seq<char>, usize)>, name: Seq<char>, n: usize) -> Seq<
    (Seq<char>, usize),
> {
    bind(entries, name, capped(count_of(entries, name) + n))
}

/// Adds `n` to the count of a name.
pub fn add_count(counts: &mut IndexMap<Symbol, usize>, name: &Symbol, n: usize)
    ensures
        count_entries(*final(counts)) == counted(count_entries(*old(counts)), name@, n),
{
    match count_index_of(counts, name) {
        Some(index) => {
            assert(key_index(count_entries(*counts), name@) == index);
            let count = count_index_mut(counts, index);
            *count = count.saturating_add(n);
        },
        None => {
            count_insert(counts, name.clone(), n);
        },
    }
}

/// How often each name occurs, in order of first occurrence.
pub open spec fn occurrences(names: Seq<Seq<char>>) -> Seq<(Seq<char>, usize)>
    decreases names.len(),
{
    if names.len() == 0 {
        Seq::empty()
    } else {
        counted(occurrences(names.drop_last()), names.last(), 1)
    }
}

/// The names of rewrites.
pub open spec fn names_of<R>(rewrites: Seq<Rewrite<R>>) -> Seq<Seq<char>> {
    rewrites.map_values(|rewrite: Rewrite<R>| rewrite.name@)
}

/// The entries that count more than one.
pub open spec fn repeated(entries: Seq<(Seq<char>, usize)>) -> Seq<(Seq<char>, usize)> {
    entries.filter(|entry: (Seq<char>, usize)| entry.1 > 1)
}

/// A name and its count, by its characters.
pub open spec fn entry_of(entry: (Symbol, usize)) -> (Seq<char>, usize) {
    (entry.0@, entry.1)
}

/// The rule names that occur more than once, each with the number of times it
/// occurs. Duplicated rule names may affect rule reporting and scheduling.
pub fn check_rules<R>(rules: &[Rewrite<R>]) -> (r: Vec<(Symbol, usize)>)
    ensures
        r@.map_values(|entry: (Symbol, usize)| entry_of(entry)) == repeated(
            occurrences(names_of(rules@)),
        ),
{
    let mut counts = count_new();
    let mut i: usize = 0;
    let ghost names = names_of(rules@);
    while i < rules.len()
        invariant
            i <= rules.len(),
            names == names_of(rules@),
            count_entries(counts) == occurrences(names.take(i as int)),
        decreases rules.len() - i,
    {
        assert(names.take(i + 1).drop_last() =~= names.take(i as int));
        add_count(&mut counts, &rules[i].name, 1);
        i += 1;
    }
    assert(names.take(i as int) =~= names);
    let ghost entries = count_entries(counts);
    let mut result: Vec<(Symbol, usize)> = Vec::new();
    let mut k: usize = 0;
    let n = count_len(&counts);
    while k < n
        invariant
            k <= n,
            n == entries.len(),
            entries == count_entries(counts),
            result@.map_values(|entry: (Symbol, usize)| entry_of(entry)) == repeated(
                entries.take(k as int),
            ),
        decreases n - k,
    {
        if let Some((name, count)) = count_get_index(&counts, k) {
            proof {
                reveal(Seq::filter);
                assert(entries.take(k + 1).drop_last() =~= entries.take(k as int));
            }
            if *count > 1 {
                let ghost before = result@;
                let pair = (name.clone(), *count);
                result.push(pair);
                assert(result@.map_values(|entry: (Symbol, usize)| entry_of(entry))
                    =~= before.map_values(|entry: (Symbol, usize)| entry_of(entry)).push(
                    entry_of(pair),
                ));
            }
        }
        k += 1;
    }
    assert(entries.take(k as int) =~= entries);
    result
}

} // verus!
