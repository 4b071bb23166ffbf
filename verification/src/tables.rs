use crate::seqs::views;
use dashmap::{DashMap, DashSet};
use vstd::prelude::*;

verus! {

/// `dashmap::DashMap`, a concurrent hash table. What a table holds is known
/// through the functions below alone.
#[verifier::external_type_specification]
#[verifier::external_body]
#[verifier::reject_recursive_types(K)]
#[verifier::reject_recursive_types(V)]
#[verifier::reject_recursive_types(S)]
pub struct ExDashMap<K, V, S>(DashMap<K, V, S>);

/// `dashmap::DashSet`, a concurrent hash set. What a set holds is known
/// through the functions below alone.
#[verifier::external_type_specification]
#[verifier::external_body]
#[verifier::reject_recursive_types(K)]
#[verifier::reject_recursive_types(S)]
pub struct ExDashSet<K, S>(DashSet<K, S>);

/// What a table from numbers to lists of texts holds.
pub uninterp spec fn lists_by_number(table: DashMap<u128, Vec<String>>) -> Map<
    u128,
    Seq<Seq<char>>,
>;

/// What a table from texts to numbers holds.
pub uninterp spec fn numbers_by_text(table: DashMap<String, u64>) -> Map<Seq<char>, u64>;

/// What a table from texts to lists of texts holds.
pub uninterp spec fn lists_by_text(table: DashMap<String, Vec<String>>) -> Map<
    Seq<char>,
    Seq<Seq<char>>,
>;

/// What a set of numbers holds.
pub uninterp spec fn numbers_in(set: DashSet<u128>) -> Set<u128>;

/// `keys` lists each key of `domain` once, in no particular order.
pub open spec fn lists_keys<K>(keys: Seq<K>, domain: Set<K>) -> bool {
    &&& keys.no_duplicates()
    &&& forall|k: K| keys.contains(k) <==> domain.contains(k)
}

/// `DashMap::new`: an empty table.
#[verifier::external_body]
pub(crate) fn new_lists_by_number() -> (table: DashMap<u128, Vec<String>>)
    ensures
        lists_by_number(table) =~= Map::empty(),
{
    DashMap::new()
}

/// `DashMap::get`, the value cloned: the list under `key`, if the table has the key.
#[verifier::external_body]
pub(crate) fn list_by_number(table: &DashMap<u128, Vec<String>>, key: u128) -> (list: Option<
    Vec<String>,
>)
    ensures
        list is Some <==> lists_by_number(*table).dom().contains(key),
        list is Some ==> views(list.unwrap()@) == lists_by_number(*table)[key],
{
    table.get(&key).map(|entry| entry.value().clone())
}

/// `DashMap::insert`: afterwards `key` maps to `list`; other keys are untouched.
#[verifier::external_body]
pub(crate) fn put_list_by_number(table: &mut DashMap<u128, Vec<String>>, key: u128, list: Vec<String>)
    ensures
        lists_by_number(*final(table)) == lists_by_number(*old(table)).insert(key, views(list@)),
{
    table.insert(key, list);
}

/// `DashMap::remove`: afterwards the table has no `key`; other keys are untouched.
#[verifier::external_body]
pub(crate) fn drop_list_by_number(table: &mut DashMap<u128, Vec<String>>, key: u128)
    ensures
        lists_by_number(*final(table)) == lists_by_number(*old(table)).remove(key),
{
    table.remove(&key);
}

/// `DashMap::iter`, the keys collected: each key of the table once, in no particular order.
#[verifier::external_body]
pub(crate) fn numbers_with_lists(table: &DashMap<u128, Vec<String>>) -> (keys: Vec<u128>)
    ensures
        lists_keys(keys@, lists_by_number(*table).dom()),
{
    table.iter().map(|entry| *entry.key()).collect()
}

/// `DashMap::new`: an empty table.
#[verifier::external_body]
pub(crate) fn new_numbers_by_text() -> (table: DashMap<String, u64>)
    ensures
        numbers_by_text(table) =~= Map::empty(),
{
    DashMap::new()
}

/// `DashMap::get`, the value copied: the number under `key`, if the table has the key.
#[verifier::external_body]
pub(crate) fn number_by_text(table: &DashMap<String, u64>, key: &str) -> (number: Option<u64>)
    ensures
        number is Some <==> numbers_by_text(*table).dom().contains(key@),
        number is Some ==> number.unwrap() == numbers_by_text(*table)[key@],
{
    table.get(key).map(|entry| *entry.value())
}

/// `DashMap::insert`: afterwards `key` maps to `number`; other keys are untouched.
#[verifier::external_body]
pub(crate) fn put_number_by_text(table: &mut DashMap<String, u64>, key: String, number: u64)
    ensures
        numbers_by_text(*final(table)) == numbers_by_text(*old(table)).insert(key@, number),
{
    table.insert(key, number);
}

/// `DashMap::remove`: returns the number that was under `key`, if any;
/// afterwards the table has no `key`; other keys are untouched.
#[verifier::external_body]
pub(crate) fn take_number_by_text(table: &mut DashMap<String, u64>, key: &str) -> (number:
    Option<u64>)
    ensures
        numbers_by_text(*final(table)) == numbers_by_text(*old(table)).remove(key@),
        number is Some <==> numbers_by_text(*old(table)).dom().contains(key@),
        number is Some ==> number.unwrap() == numbers_by_text(*old(table))[key@],
{
    table.remove(key).map(|entry| entry.1)
}

/// `DashMap::iter`, the keys cloned and collected: each key of the table
/// once, in no particular order.
#[verifier::external_body]
pub(crate) fn texts_with_numbers(table: &DashMap<String, u64>) -> (keys: Vec<String>)
    ensures
        lists_keys(views(keys@), numbers_by_text(*table).dom()),
{
    table.iter().map(|entry| entry.key().clone()).collect()
}

/// `DashMap::new`: an empty table.
#[verifier::external_body]
pub(crate) fn new_lists_by_text() -> (table: DashMap<String, Vec<String>>)
    ensures
        lists_by_text(table) =~= Map::empty(),
{
    DashMap::new()
}

/// `DashMap::get`, the value cloned: the list under `key`, if the table has the key.
#[verifier::external_body]
pub(crate) fn list_by_text(table: &DashMap<String, Vec<String>>, key: &str) -> (list: Option<
    Vec<String>,
>)
    ensures
        list is Some <==> lists_by_text(*table).dom().contains(key@),
        list is Some ==> views(list.unwrap()@) == lists_by_text(*table)[key@],
{
    table.get(key).map(|entry| entry.value().clone())
}

/// `DashMap::insert`: afterwards `key` maps to `list`; other keys are untouched.
#[verifier::external_body]
pub(crate) fn put_list_by_text(table: &mut DashMap<String, Vec<String>>, key: String, list: Vec<String>)
    ensures
        lists_by_text(*final(table)) == lists_by_text(*old(table)).insert(key@, views(list@)),
{
    table.insert(key, list);
}

/// `DashMap::remove`: returns the list that was under `key`, if any;
/// afterwards the table has no `key`; other keys are untouched.
#[verifier::external_body]
pub(crate) fn take_list_by_text(table: &mut DashMap<String, Vec<String>>, key: &str) -> (list:
    Option<Vec<String>>)
    ensures
        lists_by_text(*final(table)) == lists_by_text(*old(table)).remove(key@),
        list is Some <==> lists_by_text(*old(table)).dom().contains(key@),
        list is Some ==> views(list.unwrap()@) == lists_by_text(*old(table))[key@],
{
    table.remove(key).map(|entry| entry.1)
}

/// `DashSet::new`: an empty set.
#[verifier::external_body]
pub(crate) fn new_numbers() -> (set: DashSet<u128>)
    ensures
        numbers_in(set) =~= Set::empty(),
{
    DashSet::new()
}

/// `DashSet::insert`: returns whether the number was not in the set before; afterwards it is.
#[verifier::external_body]
pub(crate) fn add_number(set: &mut DashSet<u128>, number: u128) -> (added: bool)
    ensures
        added == !numbers_in(*old(set)).contains(number),
        numbers_in(*final(set)) == numbers_in(*old(set)).insert(number),
{
    set.insert(number)
}

/// `DashSet::remove`: afterwards the number is not in the set.
#[verifier::external_body]
pub(crate) fn drop_number(set: &mut DashSet<u128>, number: u128)
    ensures
        numbers_in(*final(set)) == numbers_in(*old(set)).remove(number),
{
    set.remove(&number);
}


/// `DashMap::len`: the number of keys in the table.
#[verifier::external_body]
pub(crate) fn count_numbers_by_text(table: &DashMap<String, u64>) -> (total: usize)
    ensures
        total == numbers_by_text(*table).dom().len(),
{
    table.len()
}

} // verus!
