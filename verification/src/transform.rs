//! Affine transforms with fixed-point coefficients.

use crate::fixed::{fits, narrow, times, wide_times, ONE};
use vstd::prelude::*;

verus! {

/// The affine map that takes `(x, y)` to `(a*x + c*y + e, b*x + d*y + f)`. All six
/// coefficients are fixed-point numbers.
#[derive(Clone, Copy, Debug, PartialEq, Eq, Structural)]
pub struct Affine {
    pub a: i64,
    pub b: i64,
    pub c: i64,
    pub d: i64,
    pub e: i64,
    pub f: i64,
}

impl Affine {
    /// The map that leaves every point where it is.
    pub open spec fn identity() -> Affine {
        Affine { a: 65536, b: 0, c: 0, d: 65536, e: 0, f: 0 }
    }

    /// The map that moves every point by `(dx, dy)`.
    pub open spec fn translation(dx: i64, dy: i64) -> Affine {
        Affine { a: 65536, b: 0, c: 0, d: 65536, e: dx, f: dy }
    }

    /// The six coefficients of `self ∘ other`, the map that applies `other` first,
    /// before they are cut to 64 bits. Each product is rounded down.
    pub open spec fn product(self, other: Affine) -> (int, int, int, int, int, int) {
        (
            times(self.a as int, other.a as int) + times(self.c as int, other.b as int),
            times(self.b as int, other.a as int) + times(self.d as int, other.b as int),
            times(self.a as int, other.c as int) + times(self.c as int, other.d as int),
            times(self.b as int, other.c as int) + times(self.d as int, other.d as int),
            times(self.a as int, other.e as int) + times(self.c as int, other.f as int) + self.e,
            times(self.b as int, other.e as int) + times(self.d as int, other.f as int) + self.f,
        )
    }

    /// `self ∘ other`, where all six coefficients can be held.
    pub open spec fn composed(self, other: Affine) -> Option<Affine> {
        let p = self.product(other);
        if fits(p.0) && fits(p.1) && fits(p.2) && fits(p.3) && fits(p.4) && fits(p.5) {
            Some(
                Affine {
                    a: p.0 as i64,
                    b: p.1 as i64,
                    c: p.2 as i64,
                    d: p.3 as i64,
                    e: p.4 as i64,
                    f: p.5 as i64,
                },
            )
        } else {
            None
        }
    }

    /// The identity map.
    pub fn new() -> (t: Affine)
        ensures
            t == Affine::identity(),
    {
        Affine { a: ONE, b: 0, c: 0, d: ONE, e: 0, f: 0 }
    }

    /// The translation by `(dx, dy)`.
    pub fn translate(dx: i64, dy: i64) -> (t: Affine)
        ensures
            t == Affine::translation(dx, dy),
    {
        Affine { a: ONE, b: 0, c: 0, d: ONE, e: dx, f: dy }
    }

    /// The six coefficients in the order `a, b, c, d, e, f`.
    pub fn as_coeffs(&self) -> (coeffs: [i64; 6])
        ensures
            coeffs@ == seq![self.a, self.b, self.c, self.d, self.e, self.f],
    {
        let coeffs = [self.a, self.b, self.c, self.d, self.e, self.f];
        assert(coeffs@ =~= seq![self.a, self.b, self.c, self.d, self.e, self.f]);
        coeffs
    }

    /// Composes two maps: the result applies `other` first, then `self`.
    pub fn compose(&self, other: &Affine) -> (composed: Option<Affine>)
        ensures
            composed == self.composed(*other),
    {
        let a = narrow(wide_times(self.a, other.a) + wide_times(self.c, other.b));
        let b = narrow(wide_times(self.b, other.a) + wide_times(self.d, other.b));
        let c = narrow(wide_times(self.a, other.c) + wide_times(self.c, other.d));
        let d = narrow(wide_times(self.b, other.c) + wide_times(self.d, other.d));
        let e = narrow(
            wide_times(self.a, other.e) + wide_times(self.c, other.f) + (self.e as i128),
        );
        let f = narrow(
            wide_times(self.b, other.e) + wide_times(self.d, other.f) + (self.f as i128),
        );
        match (a, b, c, d, e, f) {
            (Some(a), Some(b), Some(c), Some(d), Some(e), Some(f)) => Some(
                Affine { a, b, c, d, e, f },
            ),
            _ => None,
        }
    }
}

/// A product with one is the other factor, and a product with zero is zero.
proof fn lemma_times_one_and_zero()
    ensures
        forall|v: int| #[trigger] times(65536, v) == v,
        forall|v: int| #[trigger] times(v, 65536) == v,
        forall|v: int| #[trigger] times(0, v) == 0,
        forall|v: int| #[trigger] times(v, 0) == 0,
{
    assert(forall|v: int| #[trigger] times(0, v) == 0) by (nonlinear_arith)
        requires
            forall|a: int, b: int| #[trigger] times(a, b) == (a * b) / 65536,
    ;
    assert(forall|v: int| #[trigger] times(v, 0) == 0) by (nonlinear_arith)
        requires
            forall|a: int, b: int| #[trigger] times(a, b) == (a * b) / 65536,
    ;
}

/// The identity is neutral on both sides.
pub proof fn lemma_identity_is_neutral(t: Affine)
    ensures
        Affine::identity().composed(t) == Some(t),
        t.composed(Affine::identity()) == Some(t),
{
    lemma_times_one_and_zero();
}

/// Two translations compose to the translation by the sum, where the sum can be held.
pub proof fn lemma_translations_add(dx: i64, dy: i64, ex: i64, ey: i64)
    requires
        fits(dx + ex),
        fits(dy + ey),
    ensures
        Affine::translation(dx, dy).composed(Affine::translation(ex, ey)) == Some(
            Affine::translation((dx + ex) as i64, (dy + ey) as i64),
        ),
{
    lemma_times_one_and_zero();
}

} // verus!
