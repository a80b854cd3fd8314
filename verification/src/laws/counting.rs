//! What holds of counts by rule name.

use vstd::prelude::*;
use crate::egraph::Rewrite;
use crate::iteration::tally;
use crate::maps::{distinct_keys, has_key, key_index, lemma_bind};
use crate::report::{count_of, counted, occurrences, repeated};
use crate::sums::{capped, lemma_sum_bounds, sum};

verus! {

/// Adding to the count of a name is read back, leaves other counts alone and keeps
/// every name listed once.
pub proof fn law_count_is_read_back(
    entries: Seq<(Seq<char>, usize)>,
    name: Seq<char>,
    n: usize,
    other: Seq<char>,
)
    requires
        distinct_keys(entries),
    ensures
        count_of(counted(entries, name, n), name) == capped(count_of(entries, name) + n),
        other != name ==> count_of(counted(entries, name, n), other) == count_of(entries, other),
        other != name ==> has_key(counted(entries, name, n), other) == has_key(entries, other),
        has_key(counted(entries, name, n), name),
        distinct_keys(counted(entries, name, n)),
{
    lemma_bind(entries, name, capped(count_of(entries, name) + n), other);
}

/// How often each rewrite of this name was applied, and zero for all others.
pub open spec fn applications<R>(
    rewrites: Seq<Rewrite<R>>,
    counts: Seq<usize>,
    name: Seq<char>,
) -> Seq<int> {
    Seq::new(
        counts.len(),
        |j: int|
            if rewrites[j].name@ == name {
                counts[j] as int
            } else {
                0
            },
    )
}

/// An iteration's record counts all applications of the rewrites with a name, and
/// lists exactly the names that were applied, each once.
pub proof fn law_applications_are_counted_by_name<R>(
    rewrites: Seq<Rewrite<R>>,
    counts: Seq<usize>,
    name: Seq<char>,
)
    requires
        counts.len() <= rewrites.len(),
    ensures
        count_of(tally(rewrites, counts), name) == capped(
            sum(applications(rewrites, counts, name)),
        ),
        has_key(tally(rewrites, counts), name) <==> sum(applications(rewrites, counts, name)) > 0,
        distinct_keys(tally(rewrites, counts)),
    decreases counts.len(),
{
    let terms = applications(rewrites, counts, name);
    lemma_sum_bounds(terms, usize::MAX as int);
    if counts.len() > 0 {
        let fewer = counts.drop_last();
        let n = counts.len() - 1;
        law_applications_are_counted_by_name(rewrites, fewer, name);
        assert(terms.drop_last() =~= applications(rewrites, fewer, name));
        lemma_sum_bounds(terms.drop_last(), usize::MAX as int);
        if counts.last() > 0 {
            law_count_is_read_back(
                tally(rewrites, fewer),
                rewrites[n].name@,
                counts.last(),
                name,
            );
        }
    }
}

/// How often a name occurs.
pub open spec fn times_named(names: Seq<Seq<char>>, name: Seq<char>) -> nat {
    names.filter(|other: Seq<char>| other == name).len()
}

/// Counting names one by one gives how often each occurs.
pub proof fn lemma_occurrences(names: Seq<Seq<char>>, name: Seq<char>)
    requires
        names.len() <= usize::MAX,
    ensures
        count_of(occurrences(names), name) == times_named(names, name),
        has_key(occurrences(names), name) <==> times_named(names, name) > 0,
        distinct_keys(occurrences(names)),
        times_named(names, name) <= names.len(),
    decreases names.len(),
{
    reveal(Seq::filter);
    if names.len() > 0 {
        lemma_occurrences(names.drop_last(), name);
        law_count_is_read_back(occurrences(names.drop_last()), names.last(), 1, name);
    }
}

/// A name is reported as duplicated, with a number, if and only if it occurs
/// that often, and more than once.
pub proof fn law_duplicates(names: Seq<Seq<char>>, name: Seq<char>, n: usize)
    requires
        names.len() <= usize::MAX,
    ensures
        repeated(occurrences(names)).contains((name, n)) <==> n > 1 && n == times_named(
            names,
            name,
        ),
{
    let entries = occurrences(names);
    lemma_occurrences(names, name);
    lemma_filter_keeps(entries, |entry: (Seq<char>, usize)| entry.1 > 1, (name, n));
    if entries.contains((name, n)) {
        let i = choose|i: int| 0 <= i < entries.len() && entries[i] == (name, n);
        assert(entries[i].0 == name);
    }
    if has_key(entries, name) {
        assert(entries.contains(entries[key_index(entries, name)]));
    }
}

/// A filter keeps exactly the elements that it lets pass.
proof fn lemma_filter_keeps<A>(s: Seq<A>, p: spec_fn(A) -> bool, x: A)
    ensures
        s.filter(p).contains(x) <==> s.contains(x) && p(x),
    decreases s.len(),
{
    reveal(Seq::filter);
    if s.len() > 0 {
        let t = s.drop_last();
        lemma_filter_keeps(t, p, x);
        assert(s == t.push(s.last()));
        assert(t.push(s.last()).contains(x) <==> t.contains(x) || x == s.last()) by {
            broadcast use vstd::seq_lib::group_seq_properties;

        }
        assert(t.filter(p).push(s.last()).contains(x) <==> t.filter(p).contains(x) || x
            == s.last()) by {
            broadcast use vstd::seq_lib::group_seq_properties;

        }
    }
}

} // verus!
