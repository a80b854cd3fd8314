//! Insertion-ordered maps keyed by rule name.
//!
//! The maps are `indexmap::IndexMap`s. Their contents are named by
//! [`stats_entries`] and [`count_entries`]: the entries in order, each a key
//! and its value. Every executable function here is one call into that crate.

use indexmap::IndexMap;
use vstd::prelude::*;
use crate::backoff::RuleStats;

verus! {

/// `indexmap::IndexMap`, a hash map that keeps its entries in insertion order.
#[verifier::external_type_specification]
#[verifier::external_body]
#[verifier::reject_recursive_types(K)]
#[verifier::reject_recursive_types(V)]
#[verifier::reject_recursive_types(S)]
pub struct ExIndexMap<K, V, S>(indexmap::IndexMap<K, V, S>);

/// The entries of a map from rule names to rule statistics, in order.
pub uninterp spec fn stats_entries(map: IndexMap<String, RuleStats>) -> Seq<(Seq<char>, RuleStats)>;

/// The entries of a map from rule names to counts, in order.
pub uninterp spec fn count_entries(map: IndexMap<String, usize>) -> Seq<(Seq<char>, usize)>;

/// Whether some entry has the key.
pub open spec fn has_key<V>(entries: Seq<(Seq<char>, V)>, key: Seq<char>) -> bool {
    exists|i: int| 0 <= i < entries.len() && (#[trigger] entries[i]).0 == key
}

/// The position of the entry with the key.
pub open spec fn key_index<V>(entries: Seq<(Seq<char>, V)>, key: Seq<char>) -> int {
    choose|i: int| 0 <= i < entries.len() && (#[trigger] entries[i]).0 == key
}

/// No two entries share a key.
pub open spec fn distinct_keys<V>(entries: Seq<(Seq<char>, V)>) -> bool {
    forall|i: int, j: int|
        0 <= i < j < entries.len() ==> (#[trigger] entries[i]).0 != (#[trigger] entries[j]).0
}

/// The entries once `key` is bound to `value`: in place where the key is
/// present, last otherwise.
pub open spec fn bind<V>(entries: Seq<(Seq<char>, V)>, key: Seq<char>, value: V) -> Seq<
    (Seq<char>, V),
> {
    if has_key(entries, key) {
        entries.update(key_index(entries, key), (key, value))
    } else {
        entries.push((key, value))
    }
}

/// What is bound to a key is found there, and other keys keep what they had.
pub proof fn lemma_bind<V>(
    entries: Seq<(Seq<char>, V)>,
    key: Seq<char>,
    value: V,
    other: Seq<char>,
)
    requires
        distinct_keys(entries),
    ensures
        distinct_keys(bind(entries, key, value)),
        has_key(bind(entries, key, value), key),
        bind(entries, key, value)[key_index(bind(entries, key, value), key)].1 == value,
        other != key ==> has_key(bind(entries, key, value), other) == has_key(entries, other),
        other != key && has_key(entries, other) ==> bind(entries, key, value)[key_index(
            bind(entries, key, value),
            other,
        )].1 == entries[key_index(entries, other)].1,
{
    let after = bind(entries, key, value);
    if has_key(entries, key) {
        let k = key_index(entries, key);
        assert(after[k] == (key, value));
        assert forall|j: int| 0 <= j < after.len() && j != k implies #[trigger] after[j]
            == entries[j] by {}
        if has_key(entries, other) {
            let o = key_index(entries, other);
            assert(after[o].0 == other);
        }
        if has_key(after, other) {
            let o = key_index(after, other);
            assert(entries[o].0 == other);
        }
    } else {
        assert(after[entries.len() as int] == (key, value));
        assert forall|j: int| 0 <= j < entries.len() implies #[trigger] after[j]
            == entries[j] by {}
        if has_key(entries, other) {
            let o = key_index(entries, other);
            assert(after[o].0 == other);
        }
        if has_key(after, other) && other != key {
            let o = key_index(after, other);
            assert(entries[o].0 == other);
        }
    }
}

/// `IndexMap::new`: a map without entries.
#[verifier::external_body]
pub(crate) fn stats_new() -> (map: IndexMap<String, RuleStats>)
    ensures
        stats_entries(map) == Seq::<(Seq<char>, RuleStats)>::empty(),
{
    IndexMap::new()
}

/// `IndexMap::len`: the number of entries.
#[verifier::external_body]
pub(crate) fn stats_len(map: &IndexMap<String, RuleStats>) -> (n: usize)
    ensures
        n == stats_entries(*map).len(),
{
    map.len()
}

/// `IndexMap::get_index_of`: the position of the one entry with the key, or
/// `None` where no entry has it.
#[verifier::external_body]
pub(crate) fn stats_index_of(map: &IndexMap<String, RuleStats>, key: &String) -> (r: Option<usize>)
    ensures
        r is Some <==> has_key(stats_entries(*map), key@),
        r matches Some(i) ==> {
            let entries = stats_entries(*map);
            &&& i < entries.len()
            &&& entries[i as int].0 == key@
            &&& forall|j: int|
                0 <= j < entries.len() && j != i ==> (#[trigger] entries[j]).0 != key@
        },
{
    map.get_index_of(key)
}

/// `IndexMap::get_index`: the key and the value at a position, or `None` past
/// the end.
#[verifier::external_body]
pub(crate) fn stats_get_index(map: &IndexMap<String, RuleStats>, index: usize) -> (r: Option<
    (&String, &RuleStats),
>)
    ensures
        r is Some <==> index < stats_entries(*map).len(),
        r matches Some((key, value)) ==> (key@, *value) == stats_entries(*map)[index as int],
{
    map.get_index(index)
}

/// `IndexMap::index_mut` by position: the value there, for changing in place.
/// Keys, order and all other values stay.
#[verifier::external_body]
pub(crate) fn stats_index_mut(map: &mut IndexMap<String, RuleStats>, index: usize) -> (value:
    &mut RuleStats)
    requires
        index < stats_entries(*old(map)).len(),
    ensures
        *value == stats_entries(*old(map))[index as int].1,
        stats_entries(*final(map)) == stats_entries(*old(map)).update(
            index as int,
            (stats_entries(*old(map))[index as int].0, *final(value)),
        ),
{
    &mut map[index]
}

/// `IndexMap::insert`: binds the key to the value, in place where the key is
/// present and last otherwise.
#[verifier::external_body]
pub(crate) fn stats_insert(map: &mut IndexMap<String, RuleStats>, key: String, value: RuleStats)
    ensures
        stats_entries(*final(map)) == bind(stats_entries(*old(map)), key@, value),
{
    map.insert(key, value);
}

/// `IndexMap::new`: a map without entries.
#[verifier::external_body]
pub(crate) fn count_new() -> (map: IndexMap<String, usize>)
    ensures
        count_entries(map) == Seq::<(Seq<char>, usize)>::empty(),
{
    IndexMap::new()
}

/// `IndexMap::len`: the number of entries.
#[verifier::external_body]
pub(crate) fn count_len(map: &IndexMap<String, usize>) -> (n: usize)
    ensures
        n == count_entries(*map).len(),
{
    map.len()
}

/// `IndexMap::get_index_of`: the position of the one entry with the key, or
/// `None` where no entry has it.
#[verifier::external_body]
pub(crate) fn count_index_of(map: &IndexMap<String, usize>, key: &String) -> (r: Option<usize>)
    ensures
        r is Some <==> has_key(count_entries(*map), key@),
        r matches Some(i) ==> {
            let entries = count_entries(*map);
            &&& i < entries.len()
            &&& entries[i as int].0 == key@
            &&& forall|j: int|
                0 <= j < entries.len() && j != i ==> (#[trigger] entries[j]).0 != key@
        },
{
    map.get_index_of(key)
}

/// `IndexMap::get_index`: the key and the value at a position, or `None` past
/// the end.
#[verifier::external_body]
pub(crate) fn count_get_index(map: &IndexMap<String, usize>, index: usize) -> (r: Option<
    (&String, &usize),
>)
    ensures
        r is Some <==> index < count_entries(*map).len(),
        r matches Some((key, value)) ==> (key@, *value) == count_entries(*map)[index as int],
{
    map.get_index(index)
}

/// `IndexMap::index_mut` by position: the value there, for changing in place.
/// Keys, order and all other values stay.
#[verifier::external_body]
pub(crate) fn count_index_mut(map: &mut IndexMap<String, usize>, index: usize) -> (value:
    &mut usize)
    requires
        index < count_entries(*old(map)).len(),
    ensures
        *value == count_entries(*old(map))[index as int].1,
        count_entries(*final(map)) == count_entries(*old(map)).update(
            index as int,
            (count_entries(*old(map))[index as int].0, *final(value)),
        ),
{
    &mut map[index]
}

/// `IndexMap::insert`: binds the key to the value, in place where the key is
/// present and last otherwise.
#[verifier::external_body]
pub(crate) fn count_insert(map: &mut IndexMap<String, usize>, key: String, value: usize)
    ensures
        count_entries(*final(map)) == bind(count_entries(*old(map)), key@, value),
{
    map.insert(key, value);
}

/// `IndexMap::clone`: a map with the same entries in the same order.
#[verifier::external_body]
pub(crate) fn count_clone(map: &IndexMap<String, usize>) -> (r: IndexMap<String, usize>)
    ensures
        count_entries(r) == count_entries(*map),
{
    map.clone()
}

} // verus!
