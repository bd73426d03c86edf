//! Paths: points on an integer grid and the drawing commands between them.

use vstd::prelude::*;

verus! {

/// A point on the integer grid.
#[derive(Clone, Copy, Debug, PartialEq, Eq, Structural)]
pub struct Point {
    pub x: i32,
    pub y: i32,
}

/// One drawing command of a path.
///
/// A curve command names its control points first and its end point last.
#[derive(Clone, Copy, Debug, PartialEq, Eq, Structural)]
pub enum PathCommand {
    MoveTo(Point),
    LineTo(Point),
    QuadTo(Point, Point),
    CubicTo(Point, Point, Point),
    Close,
}

/// The rule by which the author of a path meant its interior to be filled.
#[derive(Clone, Copy, Debug, PartialEq, Eq, Structural)]
pub enum FillRule {
    NonZero,
    EvenOdd,
}

/// A point given by twice its coordinates, so that the midpoint of two grid
/// points is exact.
#[derive(Clone, Copy, Debug, PartialEq, Eq, Structural)]
pub struct DoubledPoint {
    pub x2: i64,
    pub y2: i64,
}

/// A straight edge between two grid points.
pub struct Edge {
    pub from: Point,
    pub to: Point,
}

/// Where the pen has been: the start of the current contour and the point
/// it rests on, each unknown until a command sets it.
pub struct Pen {
    pub first: Option<Point>,
    pub prev: Option<Point>,
}

impl PathCommand {
    /// The point at which the command leaves the pen, if it moves it.
    pub open spec fn end_point(self) -> Option<Point> {
        match self {
            PathCommand::MoveTo(p) => Some(p),
            PathCommand::LineTo(p) => Some(p),
            PathCommand::QuadTo(_, p) => Some(p),
            PathCommand::CubicTo(_, _, p) => Some(p),
            PathCommand::Close => None,
        }
    }

    pub open spec fn is_move(self) -> bool {
        self is MoveTo
    }

    pub open spec fn is_cubic(self) -> bool {
        self is CubicTo
    }

    /// Whether the command draws a line or a curve.
    pub open spec fn is_segment(self) -> bool {
        self is LineTo || self is QuadTo || self is CubicTo
    }
}

/// The pen after one more command.
pub open spec fn pen_step(pen: Pen, command: PathCommand) -> Pen {
    match command {
        PathCommand::MoveTo(p) => Pen { first: Some(p), prev: Some(p) },
        PathCommand::LineTo(p) => Pen { first: pen.first, prev: Some(p) },
        PathCommand::QuadTo(_, p) => Pen { first: pen.first, prev: Some(p) },
        PathCommand::CubicTo(_, _, p) => Pen { first: pen.first, prev: Some(p) },
        PathCommand::Close => pen,
    }
}

/// The pen after all of `commands`, starting with nothing known.
pub open spec fn pen_after(commands: Seq<PathCommand>) -> Pen
    decreases commands.len(),
{
    if commands.len() == 0 {
        Pen { first: None, prev: None }
    } else {
        pen_step(pen_after(commands.drop_last()), commands.last())
    }
}

/// The edge that a command adds to the polygon of a contour: the chord of a
/// line or curve from where the pen rests, or, on closing, the edge back to
/// the contour's start. Control points play no part.
pub open spec fn edge_of(pen: Pen, command: PathCommand) -> Option<Edge> {
    match command {
        PathCommand::MoveTo(_) => None,
        PathCommand::Close => match (pen.prev, pen.first) {
            (Some(prev), Some(first)) => Some(Edge { from: prev, to: first }),
            _ => None,
        },
        _ => match (pen.prev, command.end_point()) {
            (Some(prev), Some(p)) => Some(Edge { from: prev, to: p }),
            _ => None,
        },
    }
}

/// The polygon edges of a command sequence, in drawing order.
pub open spec fn edges(commands: Seq<PathCommand>) -> Seq<Edge>
    decreases commands.len(),
{
    if commands.len() == 0 {
        Seq::empty()
    } else {
        let before = commands.drop_last();
        match edge_of(pen_after(before), commands.last()) {
            Some(e) => edges(before).push(e),
            None => edges(before),
        }
    }
}

/// The end points of the commands, in drawing order.
pub open spec fn end_points(commands: Seq<PathCommand>) -> Seq<Point>
    decreases commands.len(),
{
    if commands.len() == 0 {
        Seq::empty()
    } else {
        match commands.last().end_point() {
            Some(p) => end_points(commands.drop_last()).push(p),
            None => end_points(commands.drop_last()),
        }
    }
}

/// The views of a list of paths.
pub open spec fn views(paths: Seq<Vec<PathCommand>>) -> Seq<Seq<PathCommand>> {
    paths.map_values(|p: Vec<PathCommand>| p@)
}

/// All the paths of a list laid end to end.
pub open spec fn concat(parts: Seq<Seq<PathCommand>>) -> Seq<PathCommand>
    decreases parts.len(),
{
    if parts.len() == 0 {
        Seq::empty()
    } else {
        concat(parts.drop_last()) + parts.last()
    }
}

/// A copy of a path.
pub fn copy_path(path: &Vec<PathCommand>) -> (copy: Vec<PathCommand>)
    ensures
        copy@ == path@,
{
    let mut copy: Vec<PathCommand> = Vec::new();
    let mut i: usize = 0;
    while i < path.len()
        invariant
            i <= path.len(),
            copy@ == path@.take(i as int),
        decreases path.len() - i,
    {
        copy.push(path[i]);
        assert(path@.take(i + 1) =~= path@.take(i as int).push(path@[i as int]));
        i = i + 1;
    }
    assert(path@.take(path.len() as int) =~= path@);
    copy
}

/// Appends every command of `tail` to `path`.
pub fn append_path(path: &mut Vec<PathCommand>, tail: &Vec<PathCommand>)
    ensures
        final(path)@ == old(path)@ + tail@,
{
    let mut i: usize = 0;
    while i < tail.len()
        invariant
            i <= tail.len(),
            path@ == old(path)@ + tail@.take(i as int),
        decreases tail.len() - i,
    {
        path.push(tail[i]);
        assert(tail@.take(i + 1) =~= tail@.take(i as int).push(tail@[i as int]));
        assert(path@ =~= old(path)@ + tail@.take(i + 1));
        i = i + 1;
    }
    assert(tail@.take(tail.len() as int) =~= tail@);
}

} // verus!
