//! The save/restore stack of transforms and clip rectangles.

use crate::error::RenderError;
use crate::geometry::{Rect, Shape};
use crate::transform::Affine;
use vstd::prelude::*;

verus! {

/// What `save` keeps: the transform in effect then, and how many clip rectangles
/// were pushed since.
#[derive(Clone, Copy, Debug, PartialEq, Eq, Structural)]
pub struct Frame {
    pub transform: Affine,
    pub clip_count: usize,
}

/// A saved frame as a value.
pub struct FrameView {
    pub transform: Affine,
    pub clip_count: nat,
}

impl View for Frame {
    type V = FrameView;

    open spec fn view(&self) -> FrameView {
        FrameView { transform: self.transform, clip_count: self.clip_count as nat }
    }
}

/// The frames of a vector as values.
pub open spec fn frame_views(frames: Seq<Frame>) -> Seq<FrameView> {
    Seq::new(frames.len(), |i: int| frames[i]@)
}

/// The number of clip rectangles that the frames account for.
pub open spec fn total_clips(frames: Seq<FrameView>) -> int
    decreases frames.len(),
{
    if frames.len() == 0 {
        0
    } else {
        total_clips(frames.drop_last()) + frames.last().clip_count
    }
}

/// The state as a value: the current transform, the saved frames from oldest to
/// newest, and the clip rectangles from oldest to newest.
#[verifier::ext_equal]
pub struct StackView {
    pub current: Affine,
    pub frames: Seq<FrameView>,
    pub clips: Seq<Rect>,
}

impl StackView {
    /// The state a frame starts in: the identity transform, nothing saved, no clip.
    pub open spec fn initial() -> StackView {
        StackView { current: Affine::identity(), frames: Seq::empty(), clips: Seq::empty() }
    }

    /// The frames account for no more clip rectangles than there are.
    pub open spec fn wf(self) -> bool {
        total_clips(self.frames) <= self.clips.len()
    }

    /// The clip rectangle in effect, if any.
    pub open spec fn active_clip(self) -> Option<Rect> {
        if self.clips.len() == 0 {
            None
        } else {
            Some(self.clips.last())
        }
    }

    /// The state after `save`.
    pub open spec fn saved(self) -> StackView {
        StackView {
            current: self.current,
            frames: self.frames.push(FrameView { transform: self.current, clip_count: 0 }),
            clips: self.clips,
        }
    }

    /// The state after `transform(t)`: the current transform composed with `t`, or
    /// the state unchanged where the composition cannot be held.
    pub open spec fn transformed(self, t: Affine) -> StackView {
        match self.current.composed(t) {
            Some(composed) => StackView {
                current: composed,
                frames: self.frames,
                clips: self.clips,
            },
            None => self,
        }
    }

    /// The state after `rect` was pushed as the clip rectangle in effect.
    pub open spec fn with_clip(self, rect: Rect) -> StackView {
        StackView {
            current: self.current,
            frames: if self.frames.len() == 0 {
                self.frames
            } else {
                self.frames.update(
                    self.frames.len() - 1,
                    FrameView {
                        transform: self.frames.last().transform,
                        clip_count: self.frames.last().clip_count + 1,
                    },
                )
            },
            clips: self.clips.push(rect),
        }
    }

    /// The state after clipping to `rect`, given in the coordinates of the current
    /// transform. The rectangle is moved by the translation of the current
    /// transform and, where `nested`, cut to the clip rectangle in effect. Where
    /// the moved rectangle cannot be held the state is unchanged.
    pub open spec fn clipped(self, rect: Rect, nested: bool) -> StackView {
        match rect.translated(self.current.e, self.current.f) {
            Some(moved) => self.with_clip(
                if nested && self.clips.len() > 0 {
                    moved.intersection(self.clips.last())
                } else {
                    moved
                },
            ),
            None => self,
        }
    }

    /// The state after `restore`, where there is a frame to go back to.
    pub open spec fn restored(self) -> Option<StackView> {
        if self.frames.len() == 0 {
            None
        } else {
            Some(
                StackView {
                    current: self.frames.last().transform,
                    frames: self.frames.drop_last(),
                    clips: self.clips.take(self.clips.len() - self.frames.last().clip_count),
                },
            )
        }
    }
}

/// No frame accounts for more clip rectangles than all frames together.
pub proof fn lemma_total_clips_bounds_last(frames: Seq<FrameView>)
    requires
        frames.len() > 0,
    ensures
        frames.last().clip_count <= total_clips(frames),
        0 <= total_clips(frames.drop_last()),
    decreases frames.len(),
{
    if frames.len() > 1 {
        lemma_total_clips_bounds_last(frames.drop_last());
    } else {
        assert(total_clips(frames.drop_last()) == 0);
    }
}

/// The transform and clip state machine of one frame of drawing.
pub struct TransformClipStack {
    current: Affine,
    frames: Vec<Frame>,
    clips: Vec<Rect>,
}

impl View for TransformClipStack {
    type V = StackView;

    closed spec fn view(&self) -> StackView {
        StackView {
            current: self.current,
            frames: frame_views(self.frames@),
            clips: self.clips@,
        }
    }
}

impl TransformClipStack {
    /// The state a frame starts in.
    pub fn new() -> (stack: TransformClipStack)
        ensures
            stack@ == StackView::initial(),
            stack@.wf(),
    {
        let stack = TransformClipStack {
            current: Affine::new(),
            frames: Vec::new(),
            clips: Vec::new(),
        };
        assert(stack@ =~= StackView::initial());
        stack
    }

    /// The transform in effect.
    pub fn current_transform(&self) -> (t: Affine)
        ensures
            t == self@.current,
    {
        self.current
    }

    /// The clip rectangle in effect, if any.
    pub fn get_current_clip(&self) -> (clip: Option<Rect>)
        ensures
            clip == self@.active_clip(),
    {
        let n = self.clips.len();
        if n == 0 {
            None
        } else {
            Some(self.clips[n - 1])
        }
    }

    /// The clip rectangle in effect, or the zero rectangle where there is none.
    pub fn current_clip(&self) -> (clip: Rect)
        ensures
            clip == match self@.active_clip() {
                Some(rect) => rect,
                None => Rect::zero(),
            },
    {
        match self.get_current_clip() {
            Some(rect) => rect,
            None => Rect { x0: 0, y0: 0, x1: 0, y1: 0 },
        }
    }

    /// The number of saved frames.
    pub fn depth(&self) -> (n: usize)
        ensures
            n == self@.frames.len(),
    {
        self.frames.len()
    }

    /// The number of clip rectangles on the clip stack.
    pub fn clip_depth(&self) -> (n: usize)
        ensures
            n == self@.clips.len(),
    {
        self.clips.len()
    }

    /// Pushes a frame that holds the current transform.
    pub fn save(&mut self)
        requires
            old(self)@.wf(),
        ensures
            final(self)@ == old(self)@.saved(),
            final(self)@.wf(),
    {
        self.frames.push(Frame { transform: self.current, clip_count: 0 });
        proof {
            assert(self@.frames =~= old(self)@.saved().frames);
            assert(self@.frames.drop_last() =~= old(self)@.frames);
        }
    }

    /// Composes the current transform with `t`.
    pub fn transform(&mut self, t: &Affine) -> (done: Result<(), RenderError>)
        requires
            old(self)@.wf(),
        ensures
            final(self)@ == old(self)@.transformed(*t),
            final(self)@.wf(),
            done == if old(self)@.current.composed(*t) is Some {
                Ok::<(), RenderError>(())
            } else {
                Err::<(), RenderError>(RenderError::InvalidInput)
            },
    {
        match self.current.compose(t) {
            Some(composed) => {
                self.current = composed;
                assert(self@ =~= old(self)@.transformed(*t));
                Ok(())
            },
            None => Err(RenderError::InvalidInput),
        }
    }

    fn add_clip_rect(&mut self, rect: Rect)
        requires
            old(self)@.wf(),
        ensures
            final(self)@ == old(self)@.with_clip(rect),
            final(self)@.wf(),
    {
        self.clips.push(rect);
        let depth = self.frames.len();
        if depth > 0 {
            let top = self.frames[depth - 1];
            let pushed = self.clips.len();
            proof {
                lemma_total_clips_bounds_last(old(self)@.frames);
                assert(top.clip_count < pushed);
            }
            let bumped = Frame { transform: top.transform, clip_count: top.clip_count + 1 };
            self.frames.set(depth - 1, bumped);
            proof {
                assert(self@.frames =~= old(self)@.with_clip(rect).frames);
                assert(self@.frames.drop_last() =~= old(self)@.frames.drop_last());
            }
        } else {
            assert(self@.frames =~= old(self)@.frames);
        }
    }

    fn clip_to(&mut self, shape: &Shape, nested: bool) -> (done: Result<(), RenderError>)
        requires
            old(self)@.wf(),
        ensures
            final(self)@.wf(),
            match shape.rect_of() {
                Some(rect) => final(self)@ == old(self)@.clipped(rect, nested) && done == if rect.translated(
                    old(self)@.current.e,
                    old(self)@.current.f,
                ) is Some {
                    Ok::<(), RenderError>(())
                } else {
                    Err::<(), RenderError>(RenderError::InvalidInput)
                },
                None => final(self)@ == old(self)@ && done == Ok::<(), RenderError>(()),
            },
    {
        match shape.as_rect() {
            Some(rect) => match rect.translate(self.current.e, self.current.f) {
                Some(moved) => {
                    let cut = match self.get_current_clip() {
                        Some(active) => if nested {
                            moved.intersect(&active)
                        } else {
                            moved
                        },
                        None => moved,
                    };
                    self.add_clip_rect(cut);
                    Ok(())
                },
                None => Err(RenderError::InvalidInput),
            },
            None => Ok(()),
        }
    }

    /// Clips to `shape` where it is a rectangle, replacing the clip rectangle in
    /// effect rather than cutting to it. Other shapes leave the state unchanged.
    pub fn clip_override(&mut self, shape: &Shape) -> (done: Result<(), RenderError>)
        requires
            old(self)@.wf(),
        ensures
            final(self)@.wf(),
            match shape.rect_of() {
                Some(rect) => final(self)@ == old(self)@.clipped(rect, false) && done == if rect.translated(
                    old(self)@.current.e,
                    old(self)@.current.f,
                ) is Some {
                    Ok::<(), RenderError>(())
                } else {
                    Err::<(), RenderError>(RenderError::InvalidInput)
                },
                None => final(self)@ == old(self)@ && done == Ok::<(), RenderError>(()),
            },
    {
        self.clip_to(shape, false)
    }

    /// Clips to `shape` where it is a rectangle, cut to the clip rectangle in
    /// effect. Other shapes leave the state unchanged.
    pub fn clip_nested(&mut self, shape: &Shape) -> (done: Result<(), RenderError>)
        requires
            old(self)@.wf(),
        ensures
            final(self)@.wf(),
            match shape.rect_of() {
                Some(rect) => final(self)@ == old(self)@.clipped(rect, true) && done == if rect.translated(
                    old(self)@.current.e,
                    old(self)@.current.f,
                ) is Some {
                    Ok::<(), RenderError>(())
                } else {
                    Err::<(), RenderError>(RenderError::InvalidInput)
                },
                None => final(self)@ == old(self)@ && done == Ok::<(), RenderError>(()),
            },
    {
        self.clip_to(shape, true)
    }

    fn pop_clips(&mut self, count: usize)
        requires
            count <= old(self).clips@.len(),
        ensures
            final(self).clips@ == old(self).clips@.take(old(self).clips@.len() - count),
            final(self).frames == old(self).frames,
            final(self).current == old(self).current,
    {
        let mut left = count;
        while left > 0
            invariant
                left <= count,
                count <= old(self).clips@.len(),
                self.clips@ == old(self).clips@.take(old(self).clips@.len() - (count - left)),
                self.frames == old(self).frames,
                self.current == old(self).current,
            decreases left,
        {
            self.clips.pop();
            left -= 1;
            assert(self.clips@ =~= old(self).clips@.take(
                old(self).clips@.len() - (count - left),
            ));
        }
    }

    /// Goes back to the newest saved frame: its transform becomes the current one,
    /// and the clip rectangles pushed since it was saved are dropped.
    pub fn restore(&mut self) -> (done: Result<(), RenderError>)
        requires
            old(self)@.wf(),
        ensures
            final(self)@.wf(),
            match old(self)@.restored() {
                Some(after) => final(self)@ == after && done == Ok::<(), RenderError>(()),
                None => final(self)@ == old(self)@ && done == Err::<(), RenderError>(
                    RenderError::StackUnbalance,
                ),
            },
    {
        proof {
            if self.frames@.len() > 0 {
                lemma_total_clips_bounds_last(self@.frames);
            }
        }
        match self.frames.pop() {
            Some(frame) => {
                self.current = frame.transform;
                self.pop_clips(frame.clip_count);
                proof {
                    assert(self@.frames =~= old(self)@.frames.drop_last());
                    assert(self@ =~= old(self)@.restored().unwrap());
                }
                Ok(())
            },
            None => Err(RenderError::StackUnbalance),
        }
    }
}

} // verus!
