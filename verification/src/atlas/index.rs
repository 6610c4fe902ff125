//! The hash index from packed keys to slots.

use hashbrown::hash_map::DefaultHashBuilder;
use hashbrown::HashMap;
use vstd::prelude::*;

verus! {

/// A key reduced to integers: a tag and five words.
pub type PackedKey = (u8, u64, u64, u64, u64, u64);

/// A shelf number and a position on that shelf.
pub type Slot = (usize, usize);

/// `hashbrown::hash_map::DefaultHashBuilder`, the hasher that a map is made with
/// where none is named; nothing is claimed of it.
#[verifier::external_type_specification]
#[verifier::external_body]
pub struct ExDefaultHashBuilder(DefaultHashBuilder);

/// `hashbrown::HashMap`, held as a value that only the functions below look
/// into.
#[verifier::external_type_specification]
#[verifier::external_body]
#[verifier::reject_recursive_types(K)]
#[verifier::reject_recursive_types(V)]
#[verifier::reject_recursive_types(S)]
pub struct ExHashMap<K, V, S>(HashMap<K, V, S>);

/// The slots that the index holds, by key.
pub uninterp spec fn index_of(index: HashMap<PackedKey, Slot>) -> Map<PackedKey, Slot>;

/// `HashMap::new`: the new index holds nothing.
#[verifier::external_body]
pub(crate) fn index_new() -> (created: HashMap<PackedKey, Slot>)
    ensures
        index_of(created) == (Map::<PackedKey, Slot>::empty()),
{
    HashMap::new()
}

/// `HashMap::get`: the slot stored under `key`, if any.
#[verifier::external_body]
pub(crate) fn index_get(index: &HashMap<PackedKey, Slot>, key: PackedKey) -> (found: Option<Slot>)
    ensures
        found == if index_of(*index).contains_key(key) {
            Some(index_of(*index)[key])
        } else {
            None
        },
{
    index.get(&key).copied()
}

/// `HashMap::insert`: afterwards `key` leads to `slot`, and every other key to what it
/// led to before.
#[verifier::external_body]
pub(crate) fn index_insert(index: &mut HashMap<PackedKey, Slot>, key: PackedKey, slot: Slot)
    ensures
        index_of(*final(index)) == index_of(*old(index)).insert(key, slot),
{
    index.insert(key, slot);
}

} // verus!
