//! Sizes of GPU buffers and the layout of staged texture rows.

use crate::error::RenderError;
use vstd::prelude::*;

verus! {

/// What the caller has to do to a buffer before writing `size` elements to it.
#[derive(Clone, Copy, Debug, PartialEq, Eq, Structural)]
pub enum Binding {
    /// The buffer is large enough as it is.
    Keep,
    /// The buffer has to be allocated anew with room for `capacity` elements,
    /// which are `bytes` bytes.
    Grow { capacity: usize, bytes: i32 },
}

/// The bookkeeping of one GPU buffer of elements of `stride` bytes.
#[derive(Clone, Copy, Debug, PartialEq, Eq, Structural)]
pub struct Buffer {
    pub target: u32,
    pub usage: u32,
    /// The number of elements that the buffer has room for.
    pub size: usize,
    /// The size of one element in bytes.
    pub stride: usize,
}

/// The capacity that a buffer of `capacity` elements grows to when `needed` are
/// asked for: twice what it had, or what is asked for where that is more.
pub open spec fn grown_capacity(capacity: int, needed: int) -> int {
    if needed >= 2 * capacity {
        needed
    } else {
        2 * capacity
    }
}

impl Buffer {
    /// What `bind(needed)` asks of the caller, or `None` where the grown buffer
    /// would pass the largest size that can be asked of the GPU.
    pub open spec fn binding(self, needed: usize) -> Option<Binding> {
        if needed <= self.size {
            Some(Binding::Keep)
        } else {
            let capacity = grown_capacity(self.size as int, needed as int);
            if capacity <= usize::MAX && capacity * self.stride <= i32::MAX {
                Some(Binding::Grow { capacity: capacity as usize, bytes: (capacity * self.stride) as i32 })
            } else {
                None
            }
        }
    }

    /// The bookkeeping of a buffer that has not been allocated yet.
    pub fn new(target: u32, usage: u32, stride: usize) -> (buffer: Buffer)
        ensures
            buffer == (Buffer { target, usage, size: 0, stride }),
    {
        Buffer { target, usage, size: 0, stride }
    }

    /// Makes room for `needed` elements. A buffer that has the room stays as it
    /// is. One that has not doubles, or grows to `needed` where that is more, and
    /// the caller is told the new size. Where the new size cannot be asked of the
    /// GPU the call fails and the bookkeeping stays as it was.
    pub fn bind(&mut self, needed: usize) -> (done: Result<Binding, RenderError>)
        ensures
            match old(self).binding(needed) {
                Some(binding) => done == Ok::<Binding, RenderError>(binding) && *final(self) == (
                Buffer {
                    size: match binding {
                        Binding::Keep => old(self).size,
                        Binding::Grow { capacity, bytes } => capacity,
                    },
                    ..*old(self)
                }),
                None => done == Err::<Binding, RenderError>(RenderError::InvalidInput)
                    && *final(self) == *old(self),
            },
    {
        if needed <= self.size {
            return Ok(Binding::Keep);
        }
        let capacity: u128 = if (needed as u128) >= 2 * (self.size as u128) {
            needed as u128
        } else {
            2 * (self.size as u128)
        };
        assert(capacity == grown_capacity(self.size as int, needed as int));
        if capacity > (usize::MAX as u128) {
            return Err(RenderError::InvalidInput);
        }
        if self.stride == 0 {
            assert(capacity * self.stride == 0) by (nonlinear_arith)
                requires
                    self.stride == 0,
            ;
            self.size = capacity as usize;
            return Ok(Binding::Grow { capacity: capacity as usize, bytes: 0 });
        }
        if capacity > 0x7fff_ffff {
            assert(capacity * self.stride >= capacity) by (nonlinear_arith)
                requires
                    self.stride >= 1,
                    capacity >= 0,
            ;
            return Err(RenderError::InvalidInput);
        }
        assert(capacity * self.stride <= 0x7fff_ffff * 0xffff_ffff_ffff_ffff) by (nonlinear_arith)
            requires
                0 <= capacity <= 0x7fff_ffff,
                0 <= self.stride <= 0xffff_ffff_ffff_ffff,
        ;
        let bytes: u128 = capacity * (self.stride as u128);
        if bytes > 0x7fff_ffff {
            return Err(RenderError::InvalidInput);
        }
        self.size = capacity as usize;
        Ok(Binding::Grow { capacity: capacity as usize, bytes: bytes as i32 })
    }
}

/// The least multiple of the row alignment, 256 bytes, that is at least `width`.
pub open spec fn padded_width(width: int) -> int {
    ((width + 255) / 256) * 256
}

/// The staged copy of `height` rows of `width` bytes each: every row starts at a
/// multiple of the row alignment and is filled up with zeros.
pub open spec fn staged(data: Seq<u8>, width: int, height: int) -> Seq<u8> {
    Seq::new(
        (padded_width(width) * height) as nat,
        |i: int|
            if i % padded_width(width) < width {
                data[(i / padded_width(width)) * width + i % padded_width(width)]
            } else {
                0u8
            },
    )
}

/// The length in bytes of the staged copy of `height` rows of `width` bytes.
pub open spec fn staged_len(width: int, height: int) -> int {
    padded_width(width) * height
}

/// The staged copy of `height` rows of `width` bytes can be addressed.
pub open spec fn addressable(width: int, height: int) -> bool {
    staged_len(width, height) <= usize::MAX
}

/// A texture of `width` by `height` bytes can be staged: `data` holds all of it
/// and the staged copy can be addressed.
pub open spec fn stageable(data: Seq<u8>, width: int, height: int) -> bool {
    width * height <= data.len() && addressable(width, height)
}

/// The size in bytes of an upload buffer of `current` bytes after it was made to
/// hold the staged copy of `height` rows of `width` bytes: what it had, or the
/// length of the staged copy where that is more.
pub open spec fn upload_size(current: int, width: int, height: int) -> int {
    if current >= staged_len(width, height) {
        current
    } else {
        staged_len(width, height)
    }
}

/// The row pitch and the length of the staged copy, where the copy can be
/// addressed. Without rows the pitch is not asked for and given as zero.
fn staged_length(width: usize, height: usize) -> (found: Option<(usize, usize)>)
    ensures
        match found {
            Some((pitch, total)) => addressable(width as int, height as int) && total == staged_len(
                width as int,
                height as int,
            ) && (height > 0 ==> pitch == padded_width(width as int)),
            None => !addressable(width as int, height as int),
        },
{
    let ghost pitch_spec = padded_width(width as int);
    if height == 0 {
        assert(pitch_spec * 0 == 0) by (nonlinear_arith);
        return Some((0, 0));
    }
    let wide: u128 = ((width as u128 + 255) / 256) * 256;
    assert(wide == pitch_spec);
    if wide > (usize::MAX as u128) {
        assert(pitch_spec * height >= pitch_spec) by (nonlinear_arith)
            requires
                height >= 1,
                pitch_spec >= 0,
        ;
        return None;
    }
    let pitch: usize = wide as usize;
    match pitch.checked_mul(height) {
        Some(total) => Some((pitch, total)),
        None => None,
    }
}

/// The size that the upload buffer has to have for the staged copy of `height`
/// rows of `width` bytes: a buffer of `current` bytes that is large enough keeps
/// its size, any other grows to the length of the staged copy. `None` where the
/// staged copy cannot be addressed.
pub fn upload_capacity(current: u64, width: usize, height: usize) -> (grown: Option<u64>)
    ensures
        grown == if addressable(width as int, height as int) {
            Some(upload_size(current as int, width as int, height as int) as u64)
        } else {
            None
        },
{
    match staged_length(width, height) {
        Some((_, total)) => {
            let needed: u64 = total as u64;
            if current >= needed {
                Some(current)
            } else {
                Some(needed)
            }
        },
        None => None,
    }
}

proof fn lemma_row_index(row: int, col: int, pitch: int, height: int)
    by (nonlinear_arith)
    requires
        0 <= row < height,
        0 <= col < pitch,
    ensures
        0 <= row * pitch + col < pitch * height,
        (row * pitch + col) / pitch == row,
        (row * pitch + col) % pitch == col,
{
    assert(row * pitch + col < (row + 1) * pitch);
    assert((row + 1) * pitch <= height * pitch);
}

proof fn lemma_rows_fit(row: int, width: int, height: int)
    by (nonlinear_arith)
    requires
        0 <= row < height,
        0 <= width,
    ensures
        0 <= row * width,
        row * width + width <= width * height,
{
    assert((row + 1) * width <= height * width);
}

/// Lays out `height` rows of `width` bytes for a staged upload. `None` where
/// `data` is too short or the staged copy too long to address.
pub fn pad_rows(data: &[u8], width: usize, height: usize) -> (rows: Option<Vec<u8>>)
    ensures
        match rows {
            Some(rows) => stageable(data@, width as int, height as int) && rows@ == staged(
                data@,
                width as int,
                height as int,
            ),
            None => !stageable(data@, width as int, height as int),
        },
{
    let ghost want = staged(data@, width as int, height as int);
    let size = data.len();
    if height == 0 {
        let rows: Vec<u8> = Vec::new();
        assert(padded_width(width as int) * 0 == 0 && width * 0 == 0) by (nonlinear_arith);
        assert(rows@ =~= want);
        return Some(rows);
    }
    let (pitch, total) = match staged_length(width, height) {
        Some(found) => found,
        None => {
            return None;
        },
    };
    assert(width * height <= pitch * height) by (nonlinear_arith)
        requires
            0 <= width <= pitch,
            0 <= height,
    ;
    let plain: usize = width * height;
    if plain > size {
        return None;
    }
    let mut rows: Vec<u8> = Vec::new();
    let mut row: usize = 0;
    while row < height
        invariant
            row <= height,
            pitch == padded_width(width as int),
            width <= pitch,
            width * height <= data@.len(),
            data@.len() <= usize::MAX,
            total == pitch * height,
            want == staged(data@, width as int, height as int),
            want.len() == total,
            rows@.len() == row * pitch,
            rows@.len() <= total,
            forall|i: int| 0 <= i < rows@.len() ==> rows@[i] == want[i],
        decreases height - row,
    {
        proof {
            lemma_rows_fit(row as int, width as int, height as int);
            lemma_rows_fit(row as int, pitch as int, height as int);
        }
        let start: usize = row * width;
        let mut col: usize = 0;
        while col < pitch
            invariant
                row < height,
                col <= pitch,
                pitch == padded_width(width as int),
                width <= pitch,
                start == row * width,
                start + width <= data@.len(),
                data@.len() <= usize::MAX,
                row * pitch + pitch <= pitch * height,
                total == pitch * height,
                want == staged(data@, width as int, height as int),
                want.len() == total,
                rows@.len() == row * pitch + col,
                forall|i: int| 0 <= i < rows@.len() ==> rows@[i] == want[i],
            decreases pitch - col,
        {
            proof {
                lemma_row_index(row as int, col as int, pitch as int, height as int);
            }
            let byte: u8 = if col < width {
                data[start + col]
            } else {
                0
            };
            rows.push(byte);
            col += 1;
        }
        proof {
            assert((row + 1) * pitch == row * pitch + pitch) by (nonlinear_arith);
        }
        row += 1;
    }
    assert(rows@.len() == want.len()) by (nonlinear_arith)
        requires
            rows@.len() == row * pitch,
            row == height,
            want.len() == pitch * height,
    ;
    assert(rows@ =~= want);
    Some(rows)
}

} // verus!
