//! What a shape asks of the tessellators.

use crate::geometry::{Line, PathEl, Point, Rect, Shape};
use vstd::prelude::*;

verus! {

/// One call on the tessellator's path builder.
#[derive(Clone, Copy, Debug, PartialEq, Eq, Structural)]
pub enum PathEvent {
    Begin(Point),
    LineTo(Point),
    QuadraticTo(Point, Point),
    CubicTo(Point, Point, Point),
    /// End the subpath with a line back to where it began.
    Close,
    /// End the subpath where it stands.
    End,
}

/// The job for the stroke tessellator.
#[derive(Debug)]
pub enum StrokeJob {
    /// Tessellate the outline of a rectangle.
    Rectangle(Rect),
    /// Build a path by these calls and tessellate it.
    Path(Vec<PathEvent>),
}

/// The job as a value.
pub enum StrokeJobView {
    Rectangle(Rect),
    Path(Seq<PathEvent>),
}

impl View for StrokeJob {
    type V = StrokeJobView;

    open spec fn view(&self) -> StrokeJobView {
        match self {
            StrokeJob::Rectangle(rect) => StrokeJobView::Rectangle(*rect),
            StrokeJob::Path(events) => StrokeJobView::Path(events@),
        }
    }
}

/// The builder call for one path element.
pub open spec fn event_of(element: PathEl) -> PathEvent {
    match element {
        PathEl::MoveTo(p) => PathEvent::Begin(p),
        PathEl::LineTo(p) => PathEvent::LineTo(p),
        PathEl::QuadTo(c, p) => PathEvent::QuadraticTo(c, p),
        PathEl::CurveTo(c1, c2, p) => PathEvent::CubicTo(c1, c2, p),
        PathEl::ClosePath => PathEvent::Close,
    }
}

/// Whether a subpath is open after the first `n` elements: one was begun since
/// the last that was closed.
pub open spec fn in_subpath(elements: Seq<PathEl>, n: nat) -> bool
    decreases n,
{
    if n == 0 {
        false
    } else {
        match elements[n - 1] {
            PathEl::MoveTo(p) => true,
            PathEl::ClosePath => false,
            _ => in_subpath(elements, (n - 1) as nat),
        }
    }
}

/// The builder calls for a path: one for each element, and an `End` where the
/// last subpath is left open.
pub open spec fn path_events(elements: Seq<PathEl>) -> Seq<PathEvent> {
    let calls = Seq::new(elements.len(), |i: int| event_of(elements[i]));
    if in_subpath(elements, elements.len()) {
        calls.push(PathEvent::End)
    } else {
        calls
    }
}

/// The builder calls for a line: a closed path of one segment.
pub open spec fn line_events(line: Line) -> Seq<PathEvent> {
    seq![PathEvent::Begin(line.start), PathEvent::LineTo(line.end), PathEvent::Close]
}

/// The job for stroking `shape`: a rectangle is tessellated as such, a line as
/// a closed path of one segment, and a path element by element.
pub open spec fn job_of(shape: Shape) -> StrokeJobView {
    match shape {
        Shape::Rect(rect) => StrokeJobView::Rectangle(rect),
        Shape::Line(line) => StrokeJobView::Path(line_events(line)),
        Shape::Path(elements) => StrokeJobView::Path(path_events(elements@)),
    }
}

/// What filling a shape takes.
#[derive(Debug)]
pub enum FillJob {
    /// A rectangle is drawn as a quad; there is nothing to tessellate.
    Quad(Rect),
    /// Build a path by these calls and tessellate its inside.
    Path(Vec<PathEvent>),
}

/// The fill job as a value.
pub enum FillJobView {
    Quad(Rect),
    Path(Seq<PathEvent>),
}

impl View for FillJob {
    type V = FillJobView;

    open spec fn view(&self) -> FillJobView {
        match self {
            FillJob::Quad(rect) => FillJobView::Quad(*rect),
            FillJob::Path(events) => FillJobView::Path(events@),
        }
    }
}

/// The job for filling `shape`: a rectangle needs no tessellator, a line is
/// handed over as a closed path of one segment, and a path element by element.
pub open spec fn fill_job_of(shape: Shape) -> FillJobView {
    match shape {
        Shape::Rect(rect) => FillJobView::Quad(rect),
        Shape::Line(line) => FillJobView::Path(line_events(line)),
        Shape::Path(elements) => FillJobView::Path(path_events(elements@)),
    }
}

fn events_of_line(line: &Line) -> (events: Vec<PathEvent>)
    ensures
        events@ == line_events(*line),
{
    let mut events: Vec<PathEvent> = Vec::new();
    events.push(PathEvent::Begin(line.start));
    events.push(PathEvent::LineTo(line.end));
    events.push(PathEvent::Close);
    assert(events@ =~= line_events(*line));
    events
}

fn events_of_path(elements: &Vec<PathEl>) -> (events: Vec<PathEvent>)
    ensures
        events@ == path_events(elements@),
{
    let mut events: Vec<PathEvent> = Vec::new();
    let mut open = false;
    let mut i: usize = 0;
    while i < elements.len()
        invariant
            i <= elements@.len(),
            open == in_subpath(elements@, i as nat),
            events@.len() == i,
            forall|k: int| 0 <= k < i ==> events@[k] == event_of(elements@[k]),
        decreases elements@.len() - i,
    {
        match elements[i] {
            PathEl::MoveTo(p) => {
                events.push(PathEvent::Begin(p));
                open = true;
            },
            PathEl::LineTo(p) => {
                events.push(PathEvent::LineTo(p));
            },
            PathEl::QuadTo(c, p) => {
                events.push(PathEvent::QuadraticTo(c, p));
            },
            PathEl::CurveTo(c1, c2, p) => {
                events.push(PathEvent::CubicTo(c1, c2, p));
            },
            PathEl::ClosePath => {
                open = false;
                events.push(PathEvent::Close);
            },
        }
        i += 1;
    }
    if open {
        events.push(PathEvent::End);
    }
    assert(events@ =~= path_events(elements@));
    events
}

/// The job for stroking `shape`.
pub fn stroke_job(shape: &Shape) -> (job: StrokeJob)
    ensures
        job@ == job_of(*shape),
{
    match shape {
        Shape::Rect(rect) => StrokeJob::Rectangle(*rect),
        Shape::Line(line) => StrokeJob::Path(events_of_line(line)),
        Shape::Path(elements) => StrokeJob::Path(events_of_path(elements)),
    }
}

/// The job for filling `shape`.
pub fn fill_job(shape: &Shape) -> (job: FillJob)
    ensures
        job@ == fill_job_of(*shape),
{
    match shape {
        Shape::Rect(rect) => FillJob::Quad(*rect),
        Shape::Line(line) => FillJob::Path(events_of_line(line)),
        Shape::Path(elements) => FillJob::Path(events_of_path(elements)),
    }
}

} // verus!
