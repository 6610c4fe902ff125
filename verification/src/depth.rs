//! The depth test: why the order of submission does not decide what is seen.

use crate::context::{Brush, ContextView};
use crate::geometry::{Point, Shape};
use crate::layer::Quad;
use vstd::prelude::*;

verus! {

/// The quad seen at `(x, y)` after the first `n` of `submitted` went through the
/// depth test in order: a quad that covers the point replaces what is seen
/// unless that lies deeper in the recording, that is, was recorded later.
pub open spec fn seen_at(submitted: Seq<Quad>, n: nat, x: int, y: int) -> Option<Quad>
    decreases n,
{
    if n == 0 {
        None
    } else {
        let before = seen_at(submitted, (n - 1) as nat, x, y);
        let quad = submitted[n - 1];
        if !quad.rect.covers(x, y) {
            before
        } else {
            match before {
                Some(seen) => if seen.depth > quad.depth {
                    before
                } else {
                    Some(quad)
                },
                None => Some(quad),
            }
        }
    }
}

/// `quad` is the deepest of `submitted` that covers `(x, y)`.
pub open spec fn is_deepest_at(submitted: Seq<Quad>, quad: Quad, x: int, y: int) -> bool {
    &&& submitted.contains(quad)
    &&& quad.rect.covers(x, y)
    &&& forall|i: int|
        0 <= i < submitted.len() && (#[trigger] submitted[i]).rect.covers(x, y)
            ==> submitted[i].depth <= quad.depth
}

/// Whatever the order of submission, what is seen at a point is the covering quad
/// of the greatest depth, and nothing is seen only where no quad covers the point.
pub proof fn lemma_deepest_is_seen(submitted: Seq<Quad>, n: nat, x: int, y: int)
    requires
        n <= submitted.len(),
    ensures
        match seen_at(submitted, n, x, y) {
            Some(quad) => is_deepest_at(submitted.take(n as int), quad, x, y),
            None => forall|i: int| 0 <= i < n ==> !(#[trigger] submitted[i]).rect.covers(x, y),
        },
    decreases n,
{
    if n > 0 {
        lemma_deepest_is_seen(submitted, (n - 1) as nat, x, y);
        let before = seen_at(submitted, (n - 1) as nat, x, y);
        let shorter = submitted.take(n - 1);
        let longer = submitted.take(n as int);
        assert(forall|i: int| 0 <= i < n - 1 ==> shorter[i] == longer[i]);
        match seen_at(submitted, n, x, y) {
            Some(quad) => {
                if before == Some(quad) && (!submitted[n - 1].rect.covers(x, y) || before.unwrap().depth
                    > submitted[n - 1].depth) {
                    let at = choose|i: int| 0 <= i < shorter.len() && shorter[i] == quad;
                    assert(longer[at] == quad);
                } else {
                    assert(longer[n - 1] == quad);
                }
                assert forall|i: int|
                    0 <= i < longer.len() && (#[trigger] longer[i]).rect.covers(x, y) implies longer[i].depth
                    <= quad.depth by {
                    if i < n - 1 {
                        assert(shorter[i] == longer[i]);
                    }
                }
            },
            None => {},
        }
    }
}

/// Two orders of submission of the same quads, no two of them of one depth, show
/// the same quad at every point.
pub proof fn lemma_order_does_not_matter(a: Seq<Quad>, b: Seq<Quad>, x: int, y: int)
    requires
        forall|i: int| 0 <= i < a.len() ==> b.contains(#[trigger] a[i]),
        forall|i: int| 0 <= i < b.len() ==> a.contains(#[trigger] b[i]),
        forall|i: int, j: int|
            0 <= i < a.len() && 0 <= j < a.len() && (#[trigger] a[i]).depth == (#[trigger] a[j]).depth
                ==> a[i] == a[j],
    ensures
        seen_at(a, a.len(), x, y) == seen_at(b, b.len(), x, y),
{
    lemma_deepest_is_seen(a, a.len(), x, y);
    lemma_deepest_is_seen(b, b.len(), x, y);
    assert(a.take(a.len() as int) =~= a);
    assert(b.take(b.len() as int) =~= b);
    match (seen_at(a, a.len(), x, y), seen_at(b, b.len(), x, y)) {
        (Some(p), Some(q)) => {
            let ip = choose|i: int| 0 <= i < a.len() && a[i] == p;
            let iq = choose|i: int| 0 <= i < b.len() && b[i] == q;
            assert(b.contains(a[ip]));
            assert(a.contains(b[iq]));
            let jp = choose|j: int| 0 <= j < b.len() && b[j] == p;
            let jq = choose|j: int| 0 <= j < a.len() && a[j] == q;
            assert(b[jp].depth <= q.depth);
            assert(a[jq].depth <= p.depth);
            assert(a[ip].depth == a[jq].depth);
        },
        (Some(p), None) => {
            let ip = choose|i: int| 0 <= i < a.len() && a[i] == p;
            assert(b.contains(a[ip]));
            let jp = choose|j: int| 0 <= j < b.len() && b[j] == p;
            assert(!b[jp].rect.covers(x, y));
        },
        (None, Some(q)) => {
            let iq = choose|i: int| 0 <= i < b.len() && b[i] == q;
            assert(a.contains(b[iq]));
            let jq = choose|j: int| 0 <= j < a.len() && a[j] == q;
            assert(!a[jq].rect.covers(x, y));
        },
        (None, None) => {},
    }
}

/// The quad seen at `(x, y)` when `submitted` goes through the depth test in order.
pub fn depth_test(submitted: &Vec<Quad>, x: i64, y: i64) -> (seen: Option<Quad>)
    ensures
        seen == seen_at(submitted@, submitted@.len(), x as int, y as int),
{
    let mut seen: Option<Quad> = None;
    let mut i: usize = 0;
    while i < submitted.len()
        invariant
            i <= submitted@.len(),
            seen == seen_at(submitted@, i as nat, x as int, y as int),
        decreases submitted@.len() - i,
    {
        let quad = submitted[i];
        let r = quad.rect;
        if r.x0 <= x && x < r.x1 && r.y0 <= y && y < r.y1 {
            seen = match seen {
                Some(old) => if old.depth > quad.depth {
                    Some(old)
                } else {
                    Some(quad)
                },
                None => Some(quad),
            };
        }
        i += 1;
    }
    seen
}

/// A filled rectangle is recorded deeper than every quad recorded before it: what
/// is drawn later lies on top.
pub proof fn lemma_later_fill_is_deeper(
    context: ContextView,
    shape: Shape,
    brush: Brush,
    outline: Seq<Point>,
    indices: Seq<u32>,
)
    requires
        context.wf(),
        context.filled(shape, brush, outline, indices) is Some,
        shape.rect_of() is Some,
    ensures
        ({
            let after = context.filled(shape, brush, outline, indices).unwrap();
            let bucket = if brush.color().is_opaque() {
                after.layer.quads
            } else {
                after.layer.transparent_quads
            };
            &&& after.wf()
            &&& after.depth == context.depth + 1
            &&& bucket.last().depth == after.depth
            &&& forall|i: int|
                0 <= i < context.layer.quads.len() ==> (#[trigger] context.layer.quads[i]).depth
                    < bucket.last().depth
            &&& forall|i: int|
                0 <= i < context.layer.transparent_quads.len() ==> (
                #[trigger] context.layer.transparent_quads[i]).depth < bucket.last().depth
        }),
{
    let after = context.filled(shape, brush, outline, indices).unwrap();
    assert forall|i: int| 0 <= i < after.layer.quads.len() implies (
    #[trigger] after.layer.quads[i]).depth <= after.depth by {
        if i < context.layer.quads.len() {
            assert(after.layer.quads[i] == context.layer.quads[i]);
        }
    }
    assert forall|i: int| 0 <= i < after.layer.transparent_quads.len() implies (
    #[trigger] after.layer.transparent_quads[i]).depth <= after.depth by {
        if i < context.layer.transparent_quads.len() {
            assert(after.layer.transparent_quads[i] == context.layer.transparent_quads[i]);
        }
    }
}

} // verus!
