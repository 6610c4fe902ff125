//! The mathematical model of the atlas: shelves, slots and the placement rule.

use crate::atlas::entry::{AtlasEntry, AtlasError, Bitmap, PixelRect, Row};
use crate::atlas::index::PackedKey;
use crate::atlas::key::AtlasKey;
use vstd::prelude::*;

verus! {

/// A shelf as a value: its band of lines and the entries on it, left to right.
#[verifier::ext_equal]
pub struct ShelfView {
    pub y: u32,
    pub height: u32,
    pub width: u32,
    pub entries: Seq<AtlasEntry>,
}

impl View for Row {
    type V = ShelfView;

    open spec fn view(&self) -> ShelfView {
        ShelfView { y: self.y, height: self.height, width: self.width, entries: self.entries@ }
    }
}

impl ShelfView {
    /// Every entry spans the shelf's band, ends at or before the shelf's width, and
    /// lies wholly to the left of every later entry; the first entry starts at the
    /// left edge; and a shelf of more than one entry is no wider than the atlas.
    pub open spec fn wf(self, atlas_width: u32) -> bool {
        &&& self.entries.len() > 0
        &&& self.entries[0].rect.x0 == 0
        &&& self.entries.len() == 1 || self.width <= atlas_width
        &&& forall|j: int|
            0 <= j < self.entries.len() ==> {
                let r = (#[trigger] self.entries[j]).rect;
                &&& r.y0 == self.y
                &&& r.y1 == self.y + self.height
                &&& r.x0 <= r.x1 <= self.width
            }
        &&& forall|j: int, k: int|
            0 <= j < k < self.entries.len() ==> (#[trigger] self.entries[j]).rect.x1 <= (
            #[trigger] self.entries[k]).rect.x0
    }

    /// The shelf takes a bitmap of `w` by `h` pixels in an atlas `atlas_width` wide:
    /// its height is exactly `h` and at least `w` columns are left.
    pub open spec fn has_room(self, atlas_width: u32, w: u32, h: u32) -> bool {
        self.height == h && self.width <= atlas_width && atlas_width - self.width >= w
    }

    /// The entry that `bitmap` gets at the right end of the shelf.
    pub open spec fn entry_for(self, bitmap: Bitmap) -> AtlasEntry {
        AtlasEntry {
            rect: PixelRect {
                x0: self.width,
                y0: self.y,
                x1: (self.width + bitmap.width) as u32,
                y1: (self.y + self.height) as u32,
            },
            left: bitmap.left,
            top: bitmap.top,
            content: bitmap.content,
        }
    }

    /// The shelf after `entry` was appended.
    pub open spec fn with_entry(self, entry: AtlasEntry) -> ShelfView {
        ShelfView {
            y: self.y,
            height: self.height,
            width: entry.rect.x1,
            entries: self.entries.push(entry),
        }
    }

    /// The shelf that `bitmap` opens at line `y`.
    pub open spec fn opened(y: u32, bitmap: Bitmap) -> ShelfView {
        ShelfView {
            y,
            height: bitmap.height,
            width: bitmap.width,
            entries: seq![
                AtlasEntry {
                    rect: PixelRect {
                        x0: 0,
                        y0: y,
                        x1: bitmap.width,
                        y1: (y + bitmap.height) as u32,
                    },
                    left: bitmap.left,
                    top: bitmap.top,
                    content: bitmap.content,
                },
            ],
        }
    }
}

/// A shelf number and a position on that shelf.
pub type SlotView = (int, int);

/// An atlas as a value: its size, its shelves from oldest to newest, and the slot of
/// each key.
#[verifier::ext_equal]
pub struct AtlasView {
    pub width: u32,
    pub height: u32,
    pub shelves: Seq<ShelfView>,
    pub slots: Map<PackedKey, SlotView>,
}

impl AtlasView {
    /// An atlas of the given size that holds nothing.
    pub open spec fn empty(width: u32, height: u32) -> AtlasView {
        AtlasView { width, height, shelves: Seq::empty(), slots: Map::empty() }
    }

    /// The first line below the newest shelf.
    pub open spec fn next_y(self) -> int {
        if self.shelves.len() == 0 {
            0
        } else {
            self.shelves.last().y + self.shelves.last().height
        }
    }

    /// `slot` names an entry of the atlas.
    pub open spec fn has_slot(self, slot: SlotView) -> bool {
        0 <= slot.0 < self.shelves.len() && 0 <= slot.1 < self.shelves[slot.0].entries.len()
    }

    /// The entry in `slot`.
    pub open spec fn entry_at(self, slot: SlotView) -> AtlasEntry {
        self.shelves[slot.0].entries[slot.1]
    }

    /// The shelves are well formed, each lies wholly above every later one, none
    /// passes the lower edge, and the slots are well formed.
    pub open spec fn wf(self) -> bool {
        &&& forall|i: int| 0 <= i < self.shelves.len() ==> (#[trigger] self.shelves[i]).wf(self.width)
        &&& forall|i: int, k: int|
            0 <= i < k < self.shelves.len() ==> (#[trigger] self.shelves[i]).y
                + self.shelves[i].height <= (#[trigger] self.shelves[k]).y
        &&& self.next_y() <= self.height
        &&& self.slots_wf()
    }

    /// The keys lead to entries, no two to the same.
    pub open spec fn slots_wf(self) -> bool {
        &&& forall|key: PackedKey| #[trigger]
            self.slots.contains_key(key) ==> self.has_slot(self.slots[key])
        &&& forall|a: PackedKey, b: PackedKey|
            #[trigger] self.slots.contains_key(a) && #[trigger] self.slots.contains_key(b) && a
                != b ==> self.slots[a] != self.slots[b]
    }

    /// What the atlas remembers of `key`.
    pub open spec fn lookup(self, key: AtlasKey) -> Option<AtlasEntry> {
        if self.slots.contains_key(key.packed_spec()) {
            Some(self.entry_at(self.slots[key.packed_spec()]))
        } else {
            None
        }
    }

    /// The newest among the first `n` shelves that has room for `w` by `h` pixels.
    pub open spec fn newest_fit(self, n: nat, w: u32, h: u32) -> Option<int>
        decreases n,
    {
        if n == 0 {
            None
        } else if self.shelves[n - 1].has_room(self.width, w, h) {
            Some(n - 1)
        } else {
            self.newest_fit((n - 1) as nat, w, h)
        }
    }

    /// The placement rule. The bitmap goes to the right end of the newest shelf of
    /// exactly its height with at least its width left. Where there is none, it
    /// opens a shelf below the newest one, unless that shelf would pass the lower
    /// edge of the atlas.
    pub open spec fn place(self, key: AtlasKey, bitmap: Bitmap) -> Result<
        (AtlasView, AtlasEntry),
        AtlasError,
    > {
        match self.newest_fit(self.shelves.len(), bitmap.width, bitmap.height) {
            Some(i) => {
                let shelf = self.shelves[i];
                let entry = shelf.entry_for(bitmap);
                Ok(
                    (
                        AtlasView {
                            width: self.width,
                            height: self.height,
                            shelves: self.shelves.update(i, shelf.with_entry(entry)),
                            slots: self.slots.insert(
                                key.packed_spec(),
                                (i, shelf.entries.len() as int),
                            ),
                        },
                        entry,
                    ),
                )
            },
            None => {
                if self.height < self.next_y() + bitmap.height {
                    Err(AtlasError::OutOfSpace)
                } else {
                    let shelf = ShelfView::opened(self.next_y() as u32, bitmap);
                    Ok(
                        (
                            AtlasView {
                                width: self.width,
                                height: self.height,
                                shelves: self.shelves.push(shelf),
                                slots: self.slots.insert(
                                    key.packed_spec(),
                                    (self.shelves.len() as int, 0int),
                                ),
                            },
                            shelf.entries[0],
                        ),
                    )
                }
            },
        }
    }

    /// The atlas and the answer after `key` was asked for and the rasterizer, if it
    /// was needed, came back with `rendered`.
    pub open spec fn resolve(self, key: AtlasKey, rendered: Result<Bitmap, AtlasError>) -> (
        AtlasView,
        Result<AtlasEntry, AtlasError>,
    ) {
        match self.lookup(key) {
            Some(entry) => (self, Ok(entry)),
            None => match rendered {
                Err(error) => (self, Err(error)),
                Ok(bitmap) => match self.place(key, bitmap) {
                    Ok((after, entry)) => (after, Ok(entry)),
                    Err(error) => (self, Err(error)),
                },
            },
        }
    }
}

/// A shelf found by `newest_fit` has room, and no newer one among those considered has.
pub proof fn lemma_newest_fit(atlas: AtlasView, n: nat, w: u32, h: u32)
    requires
        n <= atlas.shelves.len(),
    ensures
        match atlas.newest_fit(n, w, h) {
            Some(i) => 0 <= i < n && atlas.shelves[i].has_room(atlas.width, w, h) && forall|k: int|
                i < k < n ==> !(#[trigger] atlas.shelves[k]).has_room(atlas.width, w, h),
            None => forall|k: int|
                0 <= k < n ==> !(#[trigger] atlas.shelves[k]).has_room(atlas.width, w, h),
        },
    decreases n,
{
    if n > 0 && !atlas.shelves[n - 1].has_room(atlas.width, w, h) {
        lemma_newest_fit(atlas, (n - 1) as nat, w, h);
    }
}

/// A key that is given a slot which was none before leaves the slots well formed,
/// where every slot that was one still is.
proof fn lemma_new_slot(atlas: AtlasView, after: AtlasView, packed: PackedKey, slot: SlotView)
    requires
        atlas.slots_wf(),
        after.slots == atlas.slots.insert(packed, slot),
        after.has_slot(slot),
        !atlas.has_slot(slot),
        forall|held: PackedKey| #[trigger]
            atlas.slots.contains_key(held) ==> after.has_slot(atlas.slots[held]),
    ensures
        after.slots_wf(),
{
    assert forall|q: PackedKey| #[trigger] after.slots.contains_key(q) implies after.has_slot(
        after.slots[q],
    ) by {
        if q != packed {
            assert(atlas.slots.contains_key(q));
        }
    }
    assert forall|a: PackedKey, b: PackedKey|
        #[trigger] after.slots.contains_key(a) && #[trigger] after.slots.contains_key(b) && a
            != b implies after.slots[a] != after.slots[b] by {
        if a != packed {
            assert(atlas.has_slot(atlas.slots[a]));
        }
        if b != packed {
            assert(atlas.has_slot(atlas.slots[b]));
        }
    }
}

/// Placing a bitmap keeps a well-formed atlas well formed, and afterwards the key
/// leads to the entry that was handed out.
pub proof fn lemma_place_keeps_wf(atlas: AtlasView, key: AtlasKey, bitmap: Bitmap)
    requires
        atlas.wf(),
        atlas.lookup(key) is None,
    ensures
        atlas.place(key, bitmap) matches Ok((after, entry)) ==> after.wf() && after.lookup(key)
            == Some(entry),
{
    lemma_newest_fit(atlas, atlas.shelves.len(), bitmap.width, bitmap.height);
    if let Ok((after, entry)) = atlas.place(key, bitmap) {
        let packed = key.packed_spec();
        match atlas.newest_fit(atlas.shelves.len(), bitmap.width, bitmap.height) {
            Some(i) => {
                let shelf = atlas.shelves[i];
                let grown = shelf.with_entry(entry);
                assert(shelf.wf(atlas.width));
                assert(grown.wf(atlas.width)) by {
                    assert(grown.entries[0] == shelf.entries[0]);
                    assert forall|j: int| 0 <= j < grown.entries.len() implies {
                        let r = (#[trigger] grown.entries[j]).rect;
                        &&& r.y0 == grown.y
                        &&& r.y1 == grown.y + grown.height
                        &&& r.x0 <= r.x1 <= grown.width
                    } by {
                        if j < shelf.entries.len() {
                            assert(grown.entries[j] == shelf.entries[j]);
                        }
                    }
                    assert forall|j: int, k: int|
                        0 <= j < k < grown.entries.len() implies (#[trigger] grown.entries[j]).rect.x1
                        <= (#[trigger] grown.entries[k]).rect.x0 by {
                        assert(grown.entries[j] == shelf.entries[j]);
                        if k < shelf.entries.len() {
                            assert(grown.entries[k] == shelf.entries[k]);
                        }
                    }
                }
                assert forall|s: int| 0 <= s < after.shelves.len() implies (
                #[trigger] after.shelves[s]).wf(after.width) by {
                    if s != i {
                        assert(after.shelves[s] == atlas.shelves[s]);
                    }
                }
                assert forall|s: int, k: int| 0 <= s < k < after.shelves.len() implies (
                #[trigger] after.shelves[s]).y + after.shelves[s].height <= (
                #[trigger] after.shelves[k]).y by {
                    assert(after.shelves[s].y == atlas.shelves[s].y);
                    assert(after.shelves[s].height == atlas.shelves[s].height);
                    assert(after.shelves[k].y == atlas.shelves[k].y);
                }
                assert(after.next_y() == atlas.next_y());
                lemma_new_slot(atlas, after, packed, (i, shelf.entries.len() as int));
            },
            None => {
                let shelf = ShelfView::opened(atlas.next_y() as u32, bitmap);
                assert(shelf.wf(atlas.width));
                assert forall|s: int| 0 <= s < after.shelves.len() implies (
                #[trigger] after.shelves[s]).wf(after.width) by {
                    if s < atlas.shelves.len() {
                        assert(after.shelves[s] == atlas.shelves[s]);
                    }
                }
                assert forall|s: int, k: int| 0 <= s < k < after.shelves.len() implies (
                #[trigger] after.shelves[s]).y + after.shelves[s].height <= (
                #[trigger] after.shelves[k]).y by {
                    assert(after.shelves[s] == atlas.shelves[s]);
                    if k < atlas.shelves.len() {
                        assert(after.shelves[k] == atlas.shelves[k]);
                    } else if s < atlas.shelves.len() - 1 {
                        assert(atlas.shelves[s].y + atlas.shelves[s].height
                            <= atlas.shelves[atlas.shelves.len() - 1].y);
                    }
                }
                lemma_new_slot(atlas, after, packed, (atlas.shelves.len() as int, 0int));
            },
        }
    }
}

} // verus!
