//! Sequences of state operations, and what `restore` undoes.

use crate::geometry::Rect;
use crate::state::{lemma_total_clips_bounds_last, total_clips, FrameView, StackView};
use crate::transform::Affine;
use vstd::prelude::*;

verus! {

/// One call on the transform and clip state.
pub enum StackOp {
    Save,
    Transform(Affine),
    /// Clip to a rectangle, cut to the clip rectangle in effect.
    Clip(Rect),
    /// Clip to a rectangle, replacing the clip rectangle in effect.
    ClipOverride(Rect),
    Restore,
}

/// The state after one call. A call that fails leaves the state as it was.
pub open spec fn step(state: StackView, op: StackOp) -> StackView {
    match op {
        StackOp::Save => state.saved(),
        StackOp::Transform(t) => state.transformed(t),
        StackOp::Clip(rect) => state.clipped(rect, true),
        StackOp::ClipOverride(rect) => state.clipped(rect, false),
        StackOp::Restore => match state.restored() {
            Some(after) => after,
            None => state,
        },
    }
}

/// The state after a sequence of calls.
pub open spec fn run(state: StackView, ops: Seq<StackOp>) -> StackView
    decreases ops.len(),
{
    if ops.len() == 0 {
        state
    } else {
        step(run(state, ops.drop_last()), ops.last())
    }
}

/// By how much one call changes the number of saved frames, where it succeeds.
pub open spec fn saves_of(op: StackOp) -> int {
    match op {
        StackOp::Save => 1,
        StackOp::Restore => -1,
        _ => 0,
    }
}

/// The number of `save` calls less the number of `restore` calls.
pub open spec fn net_saves(ops: Seq<StackOp>) -> int
    decreases ops.len(),
{
    if ops.len() == 0 {
        0
    } else {
        net_saves(ops.drop_last()) + saves_of(ops.last())
    }
}

/// At no point of the sequence were more frames restored than saved.
pub open spec fn stays_nested(ops: Seq<StackOp>) -> bool
    decreases ops.len(),
{
    ops.len() == 0 || (stays_nested(ops.drop_last()) && net_saves(ops) >= 0)
}

/// Every `save` of the sequence has its `restore`, and every `restore` comes after
/// its `save`.
pub open spec fn balanced(ops: Seq<StackOp>) -> bool {
    stays_nested(ops) && net_saves(ops) == 0
}

/// What a clip does to the state: nothing, where its rectangle cannot be held;
/// else one more clip rectangle, counted by the newest frame if there is one, and
/// nothing else.
proof fn lemma_clip_step(state: StackView, op: StackOp)
    requires
        op is Clip || op is ClipOverride,
    ensures
        ({
            let after = step(state, op);
            ||| after == state
            ||| {
                &&& after.current == state.current
                &&& after.clips.len() == state.clips.len() + 1
                &&& after.clips.drop_last() == state.clips
                &&& after.frames.len() == state.frames.len()
                &&& state.frames.len() > 0 ==> {
                    &&& after.frames.drop_last() == state.frames.drop_last()
                    &&& after.frames.last().transform == state.frames.last().transform
                    &&& after.frames.last().clip_count == state.frames.last().clip_count + 1
                }
            }
        }),
{
    let after = step(state, op);
    let rect = match op {
        StackOp::Clip(rect) => rect,
        StackOp::ClipOverride(rect) => rect,
        _ => arbitrary(),
    };
    if rect.translated(state.current.e, state.current.f) is Some {
        assert(after.clips.drop_last() =~= state.clips);
        if state.frames.len() > 0 {
            assert(after.frames.drop_last() =~= state.frames.drop_last());
        } else {
            assert(after.frames =~= state.frames);
        }
    }
}

proof fn lemma_total_clips_prefix(frames: Seq<FrameView>, n: int)
    requires
        0 <= n <= frames.len(),
    ensures
        0 <= total_clips(frames.take(n)) <= total_clips(frames),
    decreases frames.len() - n,
{
    if n == frames.len() {
        assert(frames.take(n) =~= frames);
    } else {
        lemma_total_clips_prefix(frames, n + 1);
        assert(frames.take(n + 1).drop_last() =~= frames.take(n));
    }
    lemma_total_clips_floor(frames.take(n));
}

proof fn lemma_total_clips_floor(frames: Seq<FrameView>)
    ensures
        0 <= total_clips(frames),
    decreases frames.len(),
{
    if frames.len() > 0 {
        lemma_total_clips_floor(frames.drop_last());
    }
}

/// What holds between a `save` and its `restore`: the frames `below` the saved one
/// are untouched, the saved frame still holds the transform `saved`, the clip
/// rectangles `clips` of that moment are still the oldest ones, and every clip
/// rectangle pushed since is accounted for by the saved frame or a later one.
pub open spec fn within_save(
    state: StackView,
    below: Seq<FrameView>,
    saved: Affine,
    clips: Seq<Rect>,
) -> bool {
    &&& state.frames.len() > below.len()
    &&& state.frames.take(below.len() as int) == below
    &&& state.frames[below.len() as int].transform == saved
    &&& state.clips.len() >= clips.len()
    &&& state.clips.take(clips.len() as int) == clips
    &&& total_clips(state.frames) - total_clips(below) == state.clips.len() - clips.len()
}

proof fn lemma_step_within_save(
    before: StackView,
    op: StackOp,
    below: Seq<FrameView>,
    saved: Affine,
    clips: Seq<Rect>,
)
    requires
        within_save(before, below, saved, clips),
        op is Restore ==> before.frames.len() > below.len() + 1,
    ensures
        within_save(step(before, op), below, saved, clips),
        step(before, op).frames.len() == before.frames.len() + saves_of(op),
{
    let after = step(before, op);
    let m = below.len() as int;
    let n = before.frames.len() as int;
    match op {
        StackOp::Save => {
            assert(after.frames.drop_last() =~= before.frames);
            assert(after.frames.take(m) =~= before.frames.take(m));
        },
        StackOp::Transform(t) => {},
        StackOp::Restore => {
            assert(after.frames =~= before.frames.drop_last());
            assert(after.frames.take(m) =~= before.frames.take(m));
            lemma_total_clips_prefix(after.frames, m);
            assert(after.clips.take(clips.len() as int) =~= before.clips.take(clips.len() as int));
        },
        _ => {
            lemma_clip_step(before, op);
            assert(after.frames.take(m) =~= before.frames.take(m));
            assert(after.clips.take(clips.len() as int) =~= before.clips.take(clips.len() as int));
        },
    }
}

proof fn lemma_run_within_save(
    start: StackView,
    ops: Seq<StackOp>,
    below: Seq<FrameView>,
    saved: Affine,
    clips: Seq<Rect>,
)
    requires
        within_save(start, below, saved, clips),
        start.frames.len() == below.len() + 1,
        stays_nested(ops),
    ensures
        within_save(run(start, ops), below, saved, clips),
        run(start, ops).frames.len() == below.len() + 1 + net_saves(ops),
    decreases ops.len(),
{
    if ops.len() > 0 {
        lemma_run_within_save(start, ops.drop_last(), below, saved, clips);
        lemma_step_within_save(run(start, ops.drop_last()), ops.last(), below, saved, clips);
    }
}

/// `restore` undoes everything done since the matching `save`: after `save`, any
/// balanced sequence of calls and `restore`, the state is what it was before the
/// `save`, whatever transforms and clips came in between.
pub proof fn lemma_restore_undoes_save(state: StackView, ops: Seq<StackOp>)
    requires
        balanced(ops),
    ensures
        run(state.saved(), ops).restored() == Some(state),
        run(state.saved(), ops).restored().unwrap().current == state.current,
        run(state.saved(), ops).restored().unwrap().clips.len() == state.clips.len(),
{
    let start = state.saved();
    assert(start.frames.drop_last() =~= state.frames);
    assert(start.frames.take(state.frames.len() as int) =~= state.frames);
    assert(start.clips.take(state.clips.len() as int) =~= state.clips);
    lemma_run_within_save(start, ops, state.frames, state.current, state.clips);
    let end = run(start, ops);
    assert(end.frames.drop_last() =~= end.frames.take(state.frames.len() as int));
    assert(end.restored().unwrap() =~= state);
}

/// Every call keeps the state well formed.
pub proof fn lemma_step_keeps_wf(state: StackView, op: StackOp)
    requires
        state.wf(),
    ensures
        step(state, op).wf(),
{
    let after = step(state, op);
    match op {
        StackOp::Save => {
            assert(after.frames.drop_last() =~= state.frames);
        },
        StackOp::Transform(t) => {},
        StackOp::Restore => {
            if state.frames.len() > 0 {
                lemma_total_clips_bounds_last(state.frames);
            }
        },
        _ => {
            lemma_clip_step(state, op);
        },
    }
}

/// The clip rectangles that no frame accounts for: those pushed while nothing
/// was saved.
pub open spec fn unframed_clips(state: StackView) -> int {
    state.clips.len() - total_clips(state.frames)
}

/// The frames account for every clip rectangle but those pushed while nothing was
/// saved: a call changes the number of unaccounted clip rectangles only where it
/// pushes one with no frame to count it. In particular, where every clip is made
/// under a `save`, the depth of the clip stack is the sum of the frames' counts.
pub proof fn lemma_frames_account_for_clips(state: StackView, op: StackOp)
    requires
        state.wf(),
    ensures
        unframed_clips(step(state, op)) == unframed_clips(state) + if state.frames.len() == 0
            && step(state, op).clips.len() > state.clips.len() {
            1int
        } else {
            0int
        },
{
    let after = step(state, op);
    match op {
        StackOp::Save => {
            assert(after.frames.drop_last() =~= state.frames);
        },
        StackOp::Transform(t) => {},
        StackOp::Restore => {
            if state.frames.len() > 0 {
                lemma_total_clips_bounds_last(state.frames);
            }
        },
        _ => {
            lemma_clip_step(state, op);
        },
    }
}

} // verus!
