//! What counts, sums, copies and reports of records give.

use indexmap::IndexMap;
use vstd::prelude::*;
use crate::egraph::{EGraph, Rewrite, Symbol};
use crate::laws::counting::{law_duplicates, lemma_occurrences, times_named};
use crate::laws::scheduling::is_total;
use crate::maps::{count_entries, distinct_keys, has_key};
use crate::report::{
    add_count, check_rules, entry_of, names_of, occurrences, totals, Iteration, Report, Totals,
};
use crate::runner::Runner;
use crate::sums::sum;

verus! {

/// A copy of a record is the same record. Its counts have the same entries in the same
/// order, and its data is a copy of the data.
pub proof fn law_record_is_copied<D: Clone>(record: Iteration<D>, copy: Iteration<D>)
    requires
        call_ensures(<Iteration<D> as Clone>::clone, (&record,), copy),
    ensures
        count_entries(copy.applied) == count_entries(record.applied),
        call_ensures(D::clone, (&record.data,), copy.data) || copy.data == record.data,
        copy.egraph_nodes == record.egraph_nodes,
        copy.egraph_classes == record.egraph_classes,
        copy.hook_time == record.hook_time,
        copy.search_time == record.search_time,
        copy.apply_time == record.apply_time,
        copy.rebuild_time == record.rebuild_time,
        copy.total_time == record.total_time,
        copy.n_rebuilds == record.n_rebuilds,
        copy.stop_reason == record.stop_reason,
{
}

/// A count is raised in place where the name has one, and a name without one is put
/// behind the others. A count that does not fit any more is the largest number.
pub proof fn law_add_count(counts: &mut IndexMap<Symbol, usize>, name: &Symbol, n: usize, i: int)
    requires
        distinct_keys(count_entries(*old(counts))),
        call_ensures(add_count, (counts, name, n), ()),
    ensures
        0 <= i < count_entries(*old(counts)).len() && count_entries(*old(counts))[i].0 == name@
            ==> {
            let raised = count_entries(*final(counts))[i].1;
            &&& is_total(count_entries(*old(counts))[i].1 + n, raised)
            &&& count_entries(*final(counts)) == count_entries(*old(counts)).update(
                i,
                (name@, raised),
            )
        },
        (forall|j: int|
            0 <= j < count_entries(*old(counts)).len() ==> (#[trigger] count_entries(
                *old(counts),
            )[j]).0 != name@) ==> count_entries(*final(counts)) == count_entries(*old(counts)).push(
            (name@, n),
        ),
{
}

/// The first name occurs before the second does.
pub open spec fn occurs_before<R>(
    rewrites: Seq<Rewrite<R>>,
    first: Seq<char>,
    second: Seq<char>,
) -> bool {
    exists|j: int|
        {
            &&& 0 <= j < rewrites.len()
            &&& (#[trigger] rewrites[j]).name@ == first
            &&& forall|i: int| 0 <= i <= j ==> (#[trigger] rewrites[i]).name@ != second
        }
}

/// The rules of these names are reported if and only if there is more than one of them,
/// and with their number. No name is reported twice, and the names are in the order in
/// which they first occur.
pub proof fn law_check_rules<R>(
    rules: &[Rewrite<R>],
    reported: Vec<(Symbol, usize)>,
    name: Seq<char>,
    n: usize,
)
    requires
        call_ensures(check_rules::<R>, (rules,), reported),
    ensures
        (exists|i: int|
            0 <= i < reported@.len() && (#[trigger] reported@[i]).0@ == name && reported@[i].1
                == n) <==> n > 1 && n == rules@.filter(
            |rewrite: Rewrite<R>| rewrite.name@ == name,
        ).len(),
        forall|i: int, k: int|
            0 <= i < k < reported@.len() ==> (#[trigger] reported@[i]).0@ != (
            #[trigger] reported@[k]).0@ && occurs_before(
                rules@,
                reported@[i].0@,
                reported@[k].0@,
            ),
{
    let names = names_of(rules@);
    let len: usize = rules.len();
    let entries = reported@.map_values(|entry: (Symbol, usize)| entry_of(entry));
    law_duplicates(names, name, n);
    lemma_occurrences(names, name);
    lemma_filter_distinct(occurrences(names), |entry: (Seq<char>, usize)| entry.1 > 1);
    let before = |a: (Seq<char>, usize), b: (Seq<char>, usize)| occurs_before(rules@, a.0, b.0);
    lemma_order_of_names(rules@);
    lemma_filter_ordered(
        occurrences(names),
        |entry: (Seq<char>, usize)| entry.1 > 1,
        before,
    );
    assert forall|i: int, k: int| 0 <= i < k < reported@.len() implies (
    #[trigger] reported@[i]).0@ != (#[trigger] reported@[k]).0@ && occurs_before(
        rules@,
        reported@[i].0@,
        reported@[k].0@,
    ) by {
        assert(entries[i].0 != entries[k].0);
        assert(before(entries[i], entries[k]));
    }
    lemma_times_named(rules@, name);
    if n > 1 && n == times_named(names, name) {
        assert(entries.contains((name, n)));
        let i = choose|i: int| 0 <= i < entries.len() && entries[i] == (name, n);
        assert(reported@[i].0@ == name);
    }
    if exists|i: int|
        0 <= i < reported@.len() && (#[trigger] reported@[i]).0@ == name && reported@[i].1 == n {
        let i = choose|i: int|
            0 <= i < reported@.len() && (#[trigger] reported@[i]).0@ == name && reported@[i].1
                == n;
        assert(entries[i] == (name, n));
        assert(entries.contains((name, n)));
    }
}

/// A filter of entries with distinct keys has distinct keys.
proof fn lemma_filter_distinct<V>(
    entries: Seq<(Seq<char>, V)>,
    p: spec_fn((Seq<char>, V)) -> bool,
)
    requires
        distinct_keys(entries),
    ensures
        distinct_keys(entries.filter(p)),
        forall|i: int|
            0 <= i < entries.filter(p).len() ==> has_key(
                entries,
                (#[trigger] entries.filter(p)[i]).0,
            ),
    decreases entries.len(),
{
    reveal(Seq::filter);
    if entries.len() > 0 {
        let fewer = entries.drop_last();
        let last = entries.last();
        lemma_filter_distinct(fewer, p);
        let kept = fewer.filter(p);
        assert forall|i: int| 0 <= i < kept.len() implies has_key(
            entries,
            (#[trigger] kept[i]).0,
        ) && kept[i].0 != last.0 by {
            let j = choose|j: int| 0 <= j < fewer.len() && (#[trigger] fewer[j]).0 == kept[i].0;
            assert(entries[j].0 == kept[i].0);
            assert(entries[entries.len() - 1] == last);
        }
        assert(entries[entries.len() - 1].0 == last.0);
    }
}

/// Each element stands in this relation to all behind it.
pub open spec fn ordered<A>(s: Seq<A>, r: spec_fn(A, A) -> bool) -> bool {
    forall|i: int, k: int|
        #![trigger s[i], s[k]]
        0 <= i < k < s.len() ==> r(s[i], s[k])
}

/// A filter keeps an order.
proof fn lemma_filter_ordered<A>(s: Seq<A>, p: spec_fn(A) -> bool, r: spec_fn(A, A) -> bool)
    requires
        ordered(s, r),
    ensures
        ordered(s.filter(p), r),
        forall|i: int| 0 <= i < s.filter(p).len() ==> s.contains(#[trigger] s.filter(p)[i]),
    decreases s.len(),
{
    reveal(Seq::filter);
    if s.len() > 0 {
        let fewer = s.drop_last();
        assert(ordered(fewer, r)) by {
            assert forall|i: int, k: int|
                #![trigger fewer[i], fewer[k]]
                0 <= i < k < fewer.len() implies r(fewer[i], fewer[k]) by {
                assert(fewer[i] == s[i] && fewer[k] == s[k]);
            }
        }
        lemma_filter_ordered(fewer, p, r);
        let kept = fewer.filter(p);
        assert forall|i: int| 0 <= i < kept.len() implies s.contains(#[trigger] kept[i]) && r(
            kept[i],
            s.last(),
        ) by {
            let j = choose|j: int| 0 <= j < fewer.len() && fewer[j] == kept[i];
            assert(s[j] == kept[i]);
            assert(s[s.len() - 1] == s.last());
        }
        assert(s.contains(s.last())) by {
            assert(s[s.len() - 1] == s.last());
        }
    }
}

/// Names are counted in the order in which they first occur.
proof fn lemma_order_of_names<R>(rewrites: Seq<Rewrite<R>>)
    requires
        rewrites.len() <= usize::MAX,
    ensures
        ordered(
            occurrences(names_of(rewrites)),
            |a: (Seq<char>, usize), b: (Seq<char>, usize)| occurs_before(rewrites, a.0, b.0),
        ),
    decreases rewrites.len(),
{
    let names = names_of(rewrites);
    let entries = occurrences(names);
    let before = |a: (Seq<char>, usize), b: (Seq<char>, usize)|
        occurs_before(rewrites, a.0, b.0);
    if rewrites.len() > 0 {
        let fewer = rewrites.drop_last();
        let earlier = occurrences(names_of(fewer));
        let before_there = |a: (Seq<char>, usize), b: (Seq<char>, usize)|
            occurs_before(fewer, a.0, b.0);
        assert(names.drop_last() =~= names_of(fewer));
        lemma_order_of_names(fewer);
        assert forall|i: int, k: int|
            #![trigger entries[i], entries[k]]
            0 <= i < k < entries.len() implies before(entries[i], entries[k]) by {
            assert(i < earlier.len() && entries[i].0 == earlier[i].0);
            if k < earlier.len() {
                assert(before_there(earlier[i], earlier[k]));
                let j = choose|j: int|
                    {
                        &&& 0 <= j < fewer.len()
                        &&& (#[trigger] fewer[j]).name@ == earlier[i].0
                        &&& forall|m: int|
                            0 <= m <= j ==> (#[trigger] fewer[m]).name@ != earlier[k].0
                    };
                assert(rewrites[j].name@ == entries[i].0);
                assert forall|m: int| 0 <= m <= j implies (#[trigger] rewrites[m]).name@
                    != entries[k].0 by {
                    assert(fewer[m].name@ != earlier[k].0);
                }
            } else {
                let name = entries[k].0;
                lemma_occurrences(names_of(fewer), name);
                lemma_occurrences(names_of(fewer), earlier[i].0);
                assert(has_key(earlier, earlier[i].0));
                let j = lemma_someone_named(fewer, earlier[i].0);
                assert(rewrites[j].name@ == entries[i].0);
                assert forall|m: int| 0 <= m <= j implies (#[trigger] rewrites[m]).name@
                    != name by {
                    if rewrites[m].name@ == name {
                        lemma_named(fewer, m);
                    }
                }
            }
        }
    }
}

/// A name that occurs is the name of a rewrite.
proof fn lemma_someone_named<R>(rewrites: Seq<Rewrite<R>>, name: Seq<char>) -> (j: int)
    requires
        times_named(names_of(rewrites), name) > 0,
    ensures
        0 <= j < rewrites.len(),
        rewrites[j].name@ == name,
    decreases rewrites.len(),
{
    reveal(Seq::filter);
    let n = rewrites.len() - 1;
    if rewrites.len() == 0 {
        assert(false);
        0
    } else if rewrites[n].name@ == name {
        n
    } else {
        assert(names_of(rewrites).drop_last() =~= names_of(rewrites.drop_last()));
        assert(names_of(rewrites).last() == rewrites[n].name@);
        lemma_someone_named(rewrites.drop_last(), name)
    }
}

/// The name of a rewrite occurs.
proof fn lemma_named<R>(rewrites: Seq<Rewrite<R>>, j: int)
    requires
        0 <= j < rewrites.len(),
    ensures
        times_named(names_of(rewrites), rewrites[j].name@) > 0,
    decreases rewrites.len(),
{
    reveal(Seq::filter);
    assert(names_of(rewrites).drop_last() =~= names_of(rewrites.drop_last()));
    if j < rewrites.len() - 1 {
        lemma_named(rewrites.drop_last(), j);
        assert(rewrites.drop_last()[j] == rewrites[j]);
    }
}

/// A name occurs as often as there are rewrites of that name.
proof fn lemma_times_named<R>(rewrites: Seq<Rewrite<R>>, name: Seq<char>)
    ensures
        times_named(names_of(rewrites), name) == rewrites.filter(
            |rewrite: Rewrite<R>| rewrite.name@ == name,
        ).len(),
    decreases rewrites.len(),
{
    reveal(Seq::filter);
    if rewrites.len() > 0 {
        lemma_times_named(rewrites.drop_last(), name);
        assert(names_of(rewrites).drop_last() =~= names_of(rewrites.drop_last()));
    }
}

/// Adding up what is read off each element is adding it up on the way.
proof fn lemma_sum_of<A>(s: Seq<A>, f: spec_fn(A) -> int)
    ensures
        sum(s.map_values(f)) == s.fold_left(0int, |total: int, x: A| total + f(x)),
    decreases s.len(),
{
    reveal(Seq::fold_left);
    if s.len() > 0 {
        lemma_sum_of(s.drop_last(), f);
        assert(s.map_values(f).drop_last() =~= s.drop_last().map_values(f));
    }
}

/// What is read off each record, added up.
pub open spec fn added_up<D>(records: Seq<Iteration<D>>, f: spec_fn(Iteration<D>) -> int) -> int {
    records.fold_left(0int, |total: int, record: Iteration<D>| total + f(record))
}

/// The totals of records add up all of them.
pub proof fn law_totals<D>(records: &Vec<Iteration<D>>, r: Totals)
    requires
        call_ensures(totals::<D>, (records,), r),
    ensures
        r.rebuilds == added_up(records@, |record: Iteration<D>| record.n_rebuilds as int),
        r.search_time == added_up(records@, |record: Iteration<D>| record.search_time as int),
        r.apply_time == added_up(records@, |record: Iteration<D>| record.apply_time as int),
        r.rebuild_time == added_up(records@, |record: Iteration<D>| record.rebuild_time as int),
        r.total_time == added_up(records@, |record: Iteration<D>| record.total_time as int),
{
    lemma_sum_of(records@, |record: Iteration<D>| record.n_rebuilds as int);
    lemma_sum_of(records@, |record: Iteration<D>| record.search_time as int);
    lemma_sum_of(records@, |record: Iteration<D>| record.apply_time as int);
    lemma_sum_of(records@, |record: Iteration<D>| record.rebuild_time as int);
    lemma_sum_of(records@, |record: Iteration<D>| record.total_time as int);
}

/// A report gives the reason to stop, the number of records, the figures that the e-graph
/// reports now, and the totals of all records.
pub proof fn law_report<G: EGraph, S, H, D>(runner: Runner<G, S, H, D>, report: Report)
    requires
        call_ensures(Runner::<G, S, H, D>::report, (&runner,), report),
    ensures
        runner.stop_reason == Some(report.stop_reason),
        report.iterations == runner.iterations@.len(),
        call_ensures(G::total_number_of_nodes, (&runner.egraph,), report.egraph_nodes),
        call_ensures(G::number_of_classes, (&runner.egraph,), report.egraph_classes),
        call_ensures(G::total_size, (&runner.egraph,), report.memo_size),
        report.rebuilds == added_up(
            runner.iterations@,
            |record: Iteration<D>| record.n_rebuilds as int,
        ),
        report.search_time == added_up(
            runner.iterations@,
            |record: Iteration<D>| record.search_time as int,
        ),
        report.apply_time == added_up(
            runner.iterations@,
            |record: Iteration<D>| record.apply_time as int,
        ),
        report.rebuild_time == added_up(
            runner.iterations@,
            |record: Iteration<D>| record.rebuild_time as int,
        ),
        report.total_time == added_up(
            runner.iterations@,
            |record: Iteration<D>| record.total_time as int,
        ),
{
    let records = runner.iterations@;
    lemma_sum_of(records, |record: Iteration<D>| record.n_rebuilds as int);
    lemma_sum_of(records, |record: Iteration<D>| record.search_time as int);
    lemma_sum_of(records, |record: Iteration<D>| record.apply_time as int);
    lemma_sum_of(records, |record: Iteration<D>| record.rebuild_time as int);
    lemma_sum_of(records, |record: Iteration<D>| record.total_time as int);
}

} // verus!
