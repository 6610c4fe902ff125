//! The atlas cache: one rectangle per key, handed out once and kept.

use crate::atlas::entry::{AtlasEntry, AtlasError, Bitmap, PixelRect, Row};
use crate::atlas::index::{index_get, index_insert, index_new, index_of, PackedKey, Slot};
use crate::atlas::key::AtlasKey;
use crate::atlas::model::{lemma_newest_fit, lemma_place_keeps_wf, AtlasView, ShelfView};
use crate::atlas::rows::{
    position_of, rows_get, rows_get_mut, rows_insert, rows_keys_newest_first, rows_len, rows_new,
    rows_of,
};
use hashbrown::HashMap;
use linked_hash_map::LinkedHashMap;
use vstd::prelude::*;

verus! {

/// A texture of fixed size, packed in shelves, with an index from keys to entries.
pub struct AtlasCache {
    width: u32,
    height: u32,
    rows: LinkedHashMap<usize, Row>,
    index: HashMap<PackedKey, Slot>,
}

impl View for AtlasCache {
    type V = AtlasView;

    closed spec fn view(&self) -> AtlasView {
        AtlasView {
            width: self.width,
            height: self.height,
            shelves: Seq::new(rows_of(self.rows).len(), |i: int| rows_of(self.rows)[i].1@),
            slots: Map::new(
                |key: PackedKey| index_of(self.index).contains_key(key),
                |key: PackedKey|
                    (index_of(self.index)[key].0 as int, index_of(self.index)[key].1 as int),
            ),
        }
    }
}

impl AtlasCache {
    /// The shelves are numbered in the order they were opened, and the model is
    /// well formed.
    pub closed spec fn wf(&self) -> bool {
        &&& forall|i: int|
            0 <= i < rows_of(self.rows).len() ==> (#[trigger] rows_of(self.rows)[i]).0 == i
        &&& self@.wf()
    }

    /// A well-formed cache is a well-formed atlas: what holds of every
    /// well-formed atlas holds of its view.
    pub proof fn lemma_view_is_wf(&self)
        requires
            self.wf(),
        ensures
            self@.wf(),
    {
    }

    /// An empty atlas of `width` by `height` pixels.
    pub fn new(width: u32, height: u32) -> (cache: AtlasCache)
        ensures
            cache.wf(),
            cache@.wf(),
            cache@ == AtlasView::empty(width, height),
    {
        let cache = AtlasCache { width, height, rows: rows_new(), index: index_new() };
        assert(cache@ =~= AtlasView::empty(width, height));
        cache
    }

    /// The width of the texture in pixels.
    pub fn width(&self) -> (width: u32)
        ensures
            width == self@.width,
    {
        self.width
    }

    /// The height of the texture in pixels.
    pub fn height(&self) -> (height: u32)
        ensures
            height == self@.height,
    {
        self.height
    }

    proof fn lemma_positions(&self)
        requires
            self.wf(),
        ensures
            forall|key: usize|
                key < rows_of(self.rows).len() ==> #[trigger] position_of(rows_of(self.rows), key)
                    == Some(key as int),
            forall|key: usize|
                key >= rows_of(self.rows).len() ==> #[trigger] position_of(
                    rows_of(self.rows),
                    key,
                ) is None,
    {
        let pairs = rows_of(self.rows);
        assert forall|key: usize| key < pairs.len() implies #[trigger] position_of(pairs, key)
            == Some(key as int) by {
            assert(pairs[key as int].0 == key);
        }
    }

    /// The entry kept for `key`, if there is one.
    pub fn lookup(&self, key: &AtlasKey) -> (found: Option<AtlasEntry>)
        requires
            self.wf(),
        ensures
            found == self@.lookup(*key),
    {
        match index_get(&self.index, key.packed()) {
            Some(slot) => {
                proof {
                    self.lemma_positions();
                    assert(self@.slots.contains_key(key.packed_spec()));
                    assert(self@.has_slot((slot.0 as int, slot.1 as int)));
                }
                match rows_get(&self.rows, slot.0) {
                    Some(row) => Some(row.entries[slot.1]),
                    None => None,
                }
            },
            None => None,
        }
    }

    fn find_shelf(&self, w: u32, h: u32) -> (found: Option<usize>)
        requires
            self.wf(),
        ensures
            match found {
                Some(i) => self@.newest_fit(self@.shelves.len(), w, h) == Some(i as int),
                None => self@.newest_fit(self@.shelves.len(), w, h) is None,
            },
    {
        let keys = rows_keys_newest_first(&self.rows);
        let ghost n = self@.shelves.len();
        let mut j: usize = 0;
        while j < keys.len()
            invariant
                self.wf(),
                n == self@.shelves.len(),
                n == rows_of(self.rows).len(),
                keys@.len() == n,
                forall|t: int| 0 <= t < n ==> keys@[t] == rows_of(self.rows)[n - 1 - t].0,
                0 <= j <= n,
                self@.newest_fit(n, w, h) == self@.newest_fit((n - j) as nat, w, h),
            decreases keys.len() - j,
        {
            let key = keys[j];
            proof {
                self.lemma_positions();
                assert(rows_of(self.rows)[n - 1 - j].0 == n - 1 - j);
            }
            match rows_get(&self.rows, key) {
                Some(row) => {
                    assert(row@ == self@.shelves[n - 1 - j]);
                    if row.height == h && row.width <= self.width && self.width - row.width >= w {
                        return Some(key);
                    }
                },
                None => {},
            }
            j += 1;
        }
        None
    }

    /// Places `bitmap` under `key`, which the atlas does not hold yet.
    fn place(&mut self, key: &AtlasKey, bitmap: &Bitmap) -> (placed: Result<AtlasEntry, AtlasError>)
        requires
            old(self).wf(),
            old(self)@.lookup(*key) is None,
        ensures
            final(self).wf(),
            match old(self)@.place(*key, *bitmap) {
                Ok((after, entry)) => placed == Ok::<AtlasEntry, AtlasError>(entry) && final(self)@
                    == after,
                Err(error) => placed == Err::<AtlasEntry, AtlasError>(error) && final(self)@ == old(
                    self,
                )@,
            },
    {
        let ghost before = self@;
        let n = rows_len(&self.rows);
        proof {
            self.lemma_positions();
            lemma_newest_fit(before, before.shelves.len(), bitmap.width, bitmap.height);
            lemma_place_keeps_wf(before, *key, *bitmap);
        }
        match self.find_shelf(bitmap.width, bitmap.height) {
            Some(i) => {
                assert(before.shelves[i as int].wf(before.width));
                let row = rows_get_mut(&mut self.rows, i);
                let ghost shelf = row@;
                let entry = AtlasEntry {
                    rect: PixelRect {
                        x0: row.width,
                        y0: row.y,
                        x1: row.width + bitmap.width,
                        y1: row.y + row.height,
                    },
                    left: bitmap.left,
                    top: bitmap.top,
                    content: bitmap.content,
                };
                row.entries.push(entry);
                row.width = entry.rect.x1;
                let slot = row.entries.len() - 1;
                assert(row@ == shelf.with_entry(entry));
                index_insert(&mut self.index, key.packed(), (i, slot));
                assert(self@ =~= old(self)@.place(*key, *bitmap)->Ok_0.0);
                Ok(entry)
            },
            None => {
                let y: u32 = if n == 0 {
                    0
                } else {
                    match rows_get(&self.rows, n - 1) {
                        Some(last) => last.y + last.height,
                        None => 0,
                    }
                };
                assert(y == before.next_y());
                if (self.height as u64) < (y as u64) + (bitmap.height as u64) {
                    return Err(AtlasError::OutOfSpace);
                }
                let entry = AtlasEntry {
                    rect: PixelRect { x0: 0, y0: y, x1: bitmap.width, y1: y + bitmap.height },
                    left: bitmap.left,
                    top: bitmap.top,
                    content: bitmap.content,
                };
                let row = Row {
                    y,
                    height: bitmap.height,
                    width: bitmap.width,
                    entries: vec![entry],
                };
                assert(row@ =~= ShelfView::opened(y, *bitmap));
                rows_insert(&mut self.rows, n, row);
                index_insert(&mut self.index, key.packed(), (n, 0));
                assert(self@ =~= old(self)@.place(*key, *bitmap)->Ok_0.0);
                Ok(entry)
            },
        }
    }

    /// Answers for `key` once the rasterizer's answer `rendered` is at hand. A key
    /// that the atlas holds keeps its entry and `rendered` is not looked at. For a
    /// new key a failed rasterization is passed on, and a bitmap is placed by the
    /// placement rule.
    pub fn resolve(&mut self, key: &AtlasKey, rendered: Result<Bitmap, AtlasError>) -> (answer:
        Result<AtlasEntry, AtlasError>)
        requires
            old(self).wf(),
        ensures
            final(self).wf(),
            final(self)@.wf(),
            (final(self)@, answer) == old(self)@.resolve(*key, rendered),
    {
        match self.lookup(key) {
            Some(entry) => Ok(entry),
            None => match rendered {
                Err(error) => Err(error),
                Ok(bitmap) => self.place(key, &bitmap),
            },
        }
    }

    /// The entry for `key`, rasterizing with `render` only if the atlas does not
    /// hold the key yet. `render` need not be callable where the key is held.
    pub fn lookup_or_insert<F: FnOnce() -> Result<Bitmap, AtlasError>>(
        &mut self,
        key: &AtlasKey,
        render: F,
    ) -> (answer: Result<AtlasEntry, AtlasError>)
        requires
            old(self).wf(),
            old(self)@.lookup(*key) is None ==> render.requires(()),
        ensures
            final(self).wf(),
            final(self)@.wf(),
            match old(self)@.lookup(*key) {
                Some(entry) => answer == Ok::<AtlasEntry, AtlasError>(entry) && final(self)@ == old(
                    self,
                )@,
                None => exists|rendered: Result<Bitmap, AtlasError>|
                    render.ensures((), rendered) && (final(self)@, answer) == old(self)@.resolve(
                        *key,
                        rendered,
                    ),
            },
    {
        match self.lookup(key) {
            Some(entry) => Ok(entry),
            None => {
                let rendered = render();
                self.resolve(key, rendered)
            },
        }
    }
}

} // verus!
