//! Fixed-point arithmetic on 64-bit numbers with 16 fraction bits.
//!
//! A length, a coordinate or a matrix coefficient `v` is held as the integer
//! `v * 65536`, rounded down. Sums and differences are exact; a product is rounded
//! down to the next representable number.

use vstd::prelude::*;

verus! {

/// The number one.
pub const ONE: i64 = 65536;

/// One eighth.
pub const EIGHTH: i64 = 8192;

/// `v` can be held in 64 bits.
pub open spec fn fits(v: int) -> bool {
    i64::MIN <= v <= i64::MAX
}

/// `v` as a machine number, where it can be held.
pub open spec fn narrowed(v: int) -> Option<i64> {
    if fits(v) {
        Some(v as i64)
    } else {
        None
    }
}

/// The product of two fixed-point numbers, rounded down.
pub open spec fn times(a: int, b: int) -> int {
    (a * b) / 65536
}

/// Half of `v`, rounded down.
pub open spec fn half_of(v: int) -> int {
    v / 2
}

/// The greatest whole number not above `v`, as a fixed-point number.
pub open spec fn floor_of(v: int) -> int {
    (v / 65536) * 65536
}

/// The part of `v` above `floor_of(v)`: at least zero, less than one.
pub open spec fn fraction_of(v: int) -> int {
    v % 65536
}

/// The whole number nearest to `v`, as a fixed-point number; a half rounds away
/// from zero.
pub open spec fn round_of(v: int) -> int {
    if v >= 0 {
        floor_of(v + 32768)
    } else {
        -floor_of(32768 - v)
    }
}

/// The least whole number not below `v`, counted in units.
pub open spec fn ceil_units(v: int) -> int {
    -((-v) / 65536)
}

proof fn lemma_product_bound(a: int, b: int)
    by (nonlinear_arith)
    requires
        -0x8000_0000_0000_0000 <= a <= 0x7fff_ffff_ffff_ffff,
        -0x8000_0000_0000_0000 <= b <= 0x7fff_ffff_ffff_ffff,
    ensures
        -0x4000_0000_0000_0000_0000_0000_0000_0000 <= a * b
            <= 0x4000_0000_0000_0000_0000_0000_0000_0000,
{
    if a >= 0 {
        if b >= 0 {
            assert(a * b <= 0x7fff_ffff_ffff_ffff * 0x7fff_ffff_ffff_ffff);
            assert(a * b >= 0);
        } else {
            assert(a * (-b) <= 0x7fff_ffff_ffff_ffff * 0x8000_0000_0000_0000);
            assert(a * (-b) >= 0);
        }
    } else {
        if b >= 0 {
            assert((-a) * b <= 0x8000_0000_0000_0000 * 0x7fff_ffff_ffff_ffff);
            assert((-a) * b >= 0);
        } else {
            assert((-a) * (-b) <= 0x8000_0000_0000_0000 * 0x8000_0000_0000_0000);
            assert((-a) * (-b) >= 0);
        }
    }
}

/// `v / 65536`, rounded down, for a wide number.
pub(crate) fn wide_floor(v: i128) -> (q: i128)
    requires
        -0x4000_0000_0000_0000_0000_0000_0000_0000 <= v
            <= 0x4000_0000_0000_0000_0000_0000_0000_0000,
    ensures
        q == v / 65536,
{
    if v >= 0 {
        v / 65536
    } else {
        let up: i128 = (65535 - v) / 65536;
        -up
    }
}

/// The product of two fixed-point numbers, rounded down, in 128 bits.
pub(crate) fn wide_times(a: i64, b: i64) -> (product: i128)
    ensures
        product == times(a as int, b as int),
        -0x4000_0000_0000_0000_0000_0000_0000 <= product <= 0x4000_0000_0000_0000_0000_0000_0000,
{
    proof {
        lemma_product_bound(a as int, b as int);
    }
    let wide: i128 = (a as i128) * (b as i128);
    wide_floor(wide)
}

/// Brings a wide number back to 64 bits, where it fits.
pub(crate) fn narrow(v: i128) -> (narrow: Option<i64>)
    ensures
        narrow == narrowed(v as int),
{
    if v < -0x8000_0000_0000_0000 || v > 0x7fff_ffff_ffff_ffff {
        None
    } else {
        Some(v as i64)
    }
}

/// The product of two fixed-point numbers, rounded down; `None` where it cannot be
/// held.
pub fn checked_times(a: i64, b: i64) -> (product: Option<i64>)
    ensures
        product == narrowed(times(a as int, b as int)),
{
    narrow(wide_times(a, b))
}

/// Half of `v`, rounded down.
pub fn half(v: i64) -> (halved: i64)
    ensures
        halved == half_of(v as int),
{
    if v >= 0 {
        v / 2
    } else {
        let up: i128 = (1 - v as i128) / 2;
        (-up) as i64
    }
}

/// The greatest whole number not above `v`.
pub fn floor(v: i64) -> (whole: i64)
    ensures
        whole == floor_of(v as int),
{
    let units: i128 = wide_floor(v as i128);
    let whole: i128 = units * 65536;
    whole as i64
}

/// The whole number nearest to `v`, a half rounding away from zero; `None` where it
/// cannot be held.
pub fn round(v: i64) -> (whole: Option<i64>)
    ensures
        whole == narrowed(round_of(v as int)),
{
    if v >= 0 {
        let units: i128 = wide_floor(v as i128 + 32768);
        narrow(units * 65536)
    } else {
        let units: i128 = wide_floor(32768 - v as i128);
        narrow(-(units * 65536))
    }
}

} // verus!
