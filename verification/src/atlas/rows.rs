//! The insertion-ordered collection of shelves.

use crate::atlas::entry::Row;
use linked_hash_map::LinkedHashMap;
use vstd::prelude::*;

verus! {

/// `linked_hash_map::LinkedHashMap`, held as a value that only the functions
/// below look into.
#[verifier::external_type_specification]
#[verifier::external_body]
#[verifier::reject_recursive_types(K)]
#[verifier::reject_recursive_types(V)]
#[verifier::reject_recursive_types(S)]
pub struct ExLinkedHashMap<K, V, S>(LinkedHashMap<K, V, S>);

/// The pairs of key and shelf that the map holds, oldest insertion first.
pub uninterp spec fn rows_of(rows: LinkedHashMap<usize, Row>) -> Seq<(usize, Row)>;

/// The position of `key` among `pairs`, if it occurs.
pub open spec fn position_of(pairs: Seq<(usize, Row)>, key: usize) -> Option<int> {
    if exists|i: int| 0 <= i < pairs.len() && pairs[i].0 == key {
        Some(choose|i: int| 0 <= i < pairs.len() && pairs[i].0 == key)
    } else {
        None
    }
}

/// `LinkedHashMap::new`: the new map holds nothing.
#[verifier::external_body]
pub(crate) fn rows_new() -> (rows: LinkedHashMap<usize, Row>)
    ensures
        rows_of(rows) == Seq::<(usize, Row)>::empty(),
{
    LinkedHashMap::new()
}

/// `LinkedHashMap::len`: the number of pairs held.
#[verifier::external_body]
pub(crate) fn rows_len(rows: &LinkedHashMap<usize, Row>) -> (n: usize)
    ensures
        n == rows_of(*rows).len(),
{
    rows.len()
}

/// `LinkedHashMap::get`: the shelf stored under `key`, if any; the map is not reordered.
#[verifier::external_body]
pub(crate) fn rows_get(rows: &LinkedHashMap<usize, Row>, key: usize) -> (found: Option<&Row>)
    ensures
        match found {
            Some(row) => position_of(rows_of(*rows), key) is Some
                && rows_of(*rows)[position_of(rows_of(*rows), key).unwrap()].1 == *row,
            None => position_of(rows_of(*rows), key) is None,
        },
{
    rows.get(&key)
}

/// `LinkedHashMap::get_mut` on a key that is present: a handle on the shelf stored
/// under `key`; what is written through it replaces that shelf in place.
#[verifier::external_body]
pub(crate) fn rows_get_mut(rows: &mut LinkedHashMap<usize, Row>, key: usize) -> (row: &mut Row)
    requires
        position_of(rows_of(*old(rows)), key) is Some,
    ensures
        *row == rows_of(*old(rows))[position_of(rows_of(*old(rows)), key).unwrap()].1,
        rows_of(*final(rows)) == rows_of(*old(rows)).update(
            position_of(rows_of(*old(rows)), key).unwrap(),
            (key, *final(row)),
        ),
{
    rows.get_mut(&key).unwrap()
}

/// `LinkedHashMap::insert` of a key that is absent: the pair is appended.
#[verifier::external_body]
pub(crate) fn rows_insert(rows: &mut LinkedHashMap<usize, Row>, key: usize, row: Row)
    requires
        position_of(rows_of(*old(rows)), key) is None,
    ensures
        rows_of(*final(rows)) == rows_of(*old(rows)).push((key, row)),
{
    rows.insert(key, row);
}

/// `LinkedHashMap::keys`, walked from the back: the keys, newest insertion first.
#[verifier::external_body]
pub(crate) fn rows_keys_newest_first(rows: &LinkedHashMap<usize, Row>) -> (keys: Vec<usize>)
    ensures
        keys@.len() == rows_of(*rows).len(),
        forall|j: int| 0 <= j < keys@.len() ==> keys@[j] == rows_of(*rows)[rows_of(*rows).len() - 1 - j].0,
{
    rows.keys().rev().copied().collect()
}

} // verus!
