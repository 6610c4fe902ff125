//! What holds of every well-formed atlas.

use crate::atlas::entry::{lemma_overlap_is_a_shared_pixel, AtlasEntry, AtlasError, Bitmap};
use crate::atlas::key::{lemma_packed_injective, AtlasKey};
use crate::atlas::model::{lemma_newest_fit, lemma_place_keeps_wf, AtlasView, SlotView};
use vstd::prelude::*;

verus! {

/// Whatever is asked and whatever the rasterizer answers, a well-formed atlas stays
/// well formed.
pub proof fn lemma_resolve_keeps_wf(
    atlas: AtlasView,
    key: AtlasKey,
    rendered: Result<Bitmap, AtlasError>,
)
    requires
        atlas.wf(),
    ensures
        atlas.resolve(key, rendered).0.wf(),
{
    if atlas.lookup(key) is None {
        if let Ok(bitmap) = rendered {
            lemma_place_keeps_wf(atlas, key, bitmap);
        }
    }
}

/// A key that was answered with an entry is answered with that same entry when it
/// is asked for again, whatever the rasterizer would say then, and the atlas does
/// not change.
pub proof fn lemma_same_key_same_entry(
    atlas: AtlasView,
    key: AtlasKey,
    first: Result<Bitmap, AtlasError>,
    second: Result<Bitmap, AtlasError>,
)
    requires
        atlas.wf(),
    ensures
        ({
            let (after, answer) = atlas.resolve(key, first);
            answer is Ok ==> after.resolve(key, second) == (after, answer)
        }),
{
    if atlas.lookup(key) is None {
        if let Ok(bitmap) = first {
            lemma_place_keeps_wf(atlas, key, bitmap);
        }
    }
}

/// An entry never moves: a key that the atlas holds leads to the same entry after
/// any other request.
pub proof fn lemma_entries_stay(
    atlas: AtlasView,
    held: AtlasKey,
    key: AtlasKey,
    rendered: Result<Bitmap, AtlasError>,
)
    requires
        atlas.wf(),
        atlas.lookup(held) is Some,
    ensures
        atlas.resolve(key, rendered).0.lookup(held) == atlas.lookup(held),
{
    if atlas.lookup(key) is None {
        if let Ok(bitmap) = rendered {
            lemma_newest_fit(atlas, atlas.shelves.len(), bitmap.width, bitmap.height);
            if held.packed_spec() == key.packed_spec() {
                lemma_packed_injective(held, key);
            }
            assert(atlas.has_slot(atlas.slots[held.packed_spec()]));
        }
    }
}

/// Two different slots of a well-formed atlas share no pixel.
pub proof fn lemma_slots_do_not_overlap(atlas: AtlasView, a: SlotView, b: SlotView)
    requires
        atlas.wf(),
        atlas.has_slot(a),
        atlas.has_slot(b),
        a != b,
    ensures
        !atlas.entry_at(a).rect.overlaps(atlas.entry_at(b).rect),
{
    let shelf_a = atlas.shelves[a.0];
    let shelf_b = atlas.shelves[b.0];
    assert(shelf_a.wf(atlas.width));
    assert(shelf_b.wf(atlas.width));
    let ea = shelf_a.entries[a.1];
    let eb = shelf_b.entries[b.1];
    if a.0 == b.0 {
        if a.1 < b.1 {
            assert(ea.rect.x1 <= eb.rect.x0);
        } else {
            assert(eb.rect.x1 <= ea.rect.x0);
        }
    } else if a.0 < b.0 {
        assert(shelf_a.y + shelf_a.height <= shelf_b.y);
    } else {
        assert(shelf_b.y + shelf_b.height <= shelf_a.y);
    }
}

/// The entries of two different keys share no pixel.
pub proof fn lemma_entries_do_not_overlap(atlas: AtlasView, a: AtlasKey, b: AtlasKey)
    requires
        atlas.wf(),
        a != b,
        atlas.lookup(a) is Some,
        atlas.lookup(b) is Some,
    ensures
        !atlas.lookup(a).unwrap().rect.overlaps(atlas.lookup(b).unwrap().rect),
{
    if a.packed_spec() == b.packed_spec() {
        lemma_packed_injective(a, b);
    }
    let slot_a = atlas.slots[a.packed_spec()];
    let slot_b = atlas.slots[b.packed_spec()];
    assert(atlas.slots.contains_key(a.packed_spec()));
    assert(atlas.slots.contains_key(b.packed_spec()));
    lemma_slots_do_not_overlap(atlas, slot_a, slot_b);
}

/// No pixel of the atlas belongs to the entries of two different keys.
pub proof fn lemma_entries_share_no_pixel(atlas: AtlasView, a: AtlasKey, b: AtlasKey, x: int, y: int)
    requires
        atlas.wf(),
        a != b,
        atlas.lookup(a) is Some,
        atlas.lookup(b) is Some,
    ensures
        !(atlas.lookup(a).unwrap().rect.contains(x, y) && atlas.lookup(b).unwrap().rect.contains(
            x,
            y,
        )),
{
    lemma_entries_do_not_overlap(atlas, a, b);
    lemma_overlap_is_a_shared_pixel(atlas.lookup(a).unwrap().rect, atlas.lookup(b).unwrap().rect);
}

/// Every entry lies between the upper and the lower edge of the atlas, and every
/// entry that is no wider than the atlas lies between its left and right edge.
pub proof fn lemma_entries_within_atlas(atlas: AtlasView, key: AtlasKey)
    requires
        atlas.wf(),
        atlas.lookup(key) is Some,
    ensures
        ({
            let rect = atlas.lookup(key).unwrap().rect;
            &&& rect.y0 <= rect.y1 <= atlas.height
            &&& rect.x0 <= rect.x1
            &&& rect.x1 - rect.x0 <= atlas.width ==> rect.x1 <= atlas.width
        }),
{
    let slot = atlas.slots[key.packed_spec()];
    assert(atlas.has_slot(slot));
    let shelf = atlas.shelves[slot.0];
    assert(shelf.wf(atlas.width));
    if slot.0 < atlas.shelves.len() - 1 {
        assert(shelf.y + shelf.height <= atlas.shelves[atlas.shelves.len() - 1].y);
    }
}

/// A bitmap taller than the atlas is refused for want of space, and the atlas is
/// left as it was.
pub proof fn lemma_too_tall_is_out_of_space(atlas: AtlasView, key: AtlasKey, bitmap: Bitmap)
    requires
        atlas.wf(),
        atlas.lookup(key) is None,
        bitmap.height > atlas.height,
    ensures
        atlas.resolve(key, Ok(bitmap)) == (atlas, Err::<AtlasEntry, AtlasError>(AtlasError::OutOfSpace)),
{
    lemma_newest_fit(atlas, atlas.shelves.len(), bitmap.width, bitmap.height);
    match atlas.newest_fit(atlas.shelves.len(), bitmap.width, bitmap.height) {
        Some(i) => {
            let shelf = atlas.shelves[i];
            assert(shelf.wf(atlas.width));
            if i < atlas.shelves.len() - 1 {
                assert(shelf.y + shelf.height <= atlas.shelves[atlas.shelves.len() - 1].y);
            }
            assert(false);
        },
        None => {},
    }
}

} // verus!
