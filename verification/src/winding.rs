//! Contour winding: splitting a path into contours, measuring them, and
//! turning contours authored for the even-odd fill rule into ones that
//! render alike under the non-zero rule.

use vstd::prelude::*;
use crate::path::{Point, PathCommand, FillRule, DoubledPoint, Edge, Pen, pen_step, pen_after, edge_of, edges, end_points, views, concat, copy_path, append_path};

verus! {

/// What reversing a contour has gathered from its commands so far: the
/// contour's start, the pen's place, whether the contour was closed, and,
/// for each segment, the command that draws it backwards together with the
/// point at which the segment ended.
pub struct Trace {
    pub first: Point,
    pub current: Point,
    pub closed: bool,
    pub segments: Seq<(PathCommand, Point)>,
}

pub open spec fn origin() -> Point {
    Point { x: 0, y: 0 }
}

/// The trace after one more command. Closing a contour whose pen is away
/// from its start draws the closing line as a segment of its own.
pub open spec fn trace_step(t: Trace, command: PathCommand) -> Trace {
    match command {
        PathCommand::MoveTo(p) => Trace { first: p, current: p, ..t },
        PathCommand::LineTo(p) => Trace {
            current: p,
            segments: t.segments.push((PathCommand::LineTo(t.current), p)),
            ..t
        },
        PathCommand::QuadTo(c, p) => Trace {
            current: p,
            segments: t.segments.push((PathCommand::QuadTo(c, t.current), p)),
            ..t
        },
        PathCommand::CubicTo(c1, c2, p) => Trace {
            current: p,
            segments: t.segments.push((PathCommand::CubicTo(c2, c1, t.current), p)),
            ..t
        },
        PathCommand::Close => Trace {
            closed: true,
            segments: if t.current != t.first {
                t.segments.push((PathCommand::LineTo(t.current), t.first))
            } else {
                t.segments
            },
            ..t
        },
    }
}

/// The trace of a whole contour. Before any move the pen is at the origin.
pub open spec fn trace(contour: Seq<PathCommand>) -> Trace
    decreases contour.len(),
{
    if contour.len() == 0 {
        Trace { first: origin(), current: origin(), closed: false, segments: Seq::empty() }
    } else {
        trace_step(trace(contour.drop_last()), contour.last())
    }
}

/// The backward-drawing commands of the segments, last segment first.
pub open spec fn backward(segments: Seq<(PathCommand, Point)>) -> Seq<PathCommand> {
    Seq::new(segments.len(), |i: int| segments[segments.len() - 1 - i].0)
}

/// The contour drawn in the opposite direction: it starts where the last
/// segment ended, draws every segment backwards with the control points of
/// a cubic exchanged, and is closed if the contour was. A contour without
/// segments becomes a single move to its start.
pub open spec fn reversed(contour: Seq<PathCommand>) -> Seq<PathCommand> {
    let t = trace(contour);
    if t.segments.len() == 0 {
        seq![PathCommand::MoveTo(t.first)]
    } else {
        seq![PathCommand::MoveTo(t.segments.last().1)] + backward(t.segments) + (if t.closed {
            seq![PathCommand::Close]
        } else {
            Seq::empty()
        })
    }
}

/// Reverses the direction in which a contour is drawn.
pub fn reverse_contour(contour: &Vec<PathCommand>) -> (result: Vec<PathCommand>)
    ensures
        result@ == reversed(contour@),
{
    let mut segments: Vec<(PathCommand, Point)> = Vec::new();
    let mut current = Point { x: 0, y: 0 };
    let mut first = Point { x: 0, y: 0 };
    let mut closed = false;
    let mut i: usize = 0;
    while i < contour.len()
        invariant
            i <= contour.len(),
            trace(contour@.take(i as int)) == (Trace {
                first,
                current,
                closed,
                segments: segments@,
            }),
        decreases contour.len() - i,
    {
        assert(contour@.take(i + 1).drop_last() =~= contour@.take(i as int));
        match contour[i] {
            PathCommand::MoveTo(p) => {
                first = p;
                current = p;
            },
            PathCommand::LineTo(p) => {
                segments.push((PathCommand::LineTo(current), p));
                current = p;
            },
            PathCommand::QuadTo(c, p) => {
                segments.push((PathCommand::QuadTo(c, current), p));
                current = p;
            },
            PathCommand::CubicTo(c1, c2, p) => {
                segments.push((PathCommand::CubicTo(c2, c1, current), p));
                current = p;
            },
            PathCommand::Close => {
                closed = true;
                if current != first {
                    segments.push((PathCommand::LineTo(current), first));
                }
            },
        }
        i = i + 1;
    }
    assert(contour@.take(contour.len() as int) =~= contour@);
    let mut result: Vec<PathCommand> = Vec::new();
    let n: usize = segments.len();
    if n == 0 {
        result.push(PathCommand::MoveTo(first));
        assert(result@ =~= seq![PathCommand::MoveTo(first)]);
        return result;
    }
    result.push(PathCommand::MoveTo(segments[n - 1].1));
    let mut k: usize = 0;
    while k < n
        invariant
            n == segments.len(),
            k <= n,
            n > 0,
            result@ == seq![PathCommand::MoveTo(segments@[n - 1].1)] + backward(segments@).take(
                k as int,
            ),
        decreases n - k,
    {
        result.push(segments[n - 1 - k].0);
        assert(backward(segments@).take(k + 1) =~= backward(segments@).take(k as int).push(
            segments@[n - 1 - k].0,
        ));
        assert(result@ =~= seq![PathCommand::MoveTo(segments@[n - 1].1)] + backward(
            segments@,
        ).take(k + 1));
        k = k + 1;
    }
    assert(backward(segments@).take(n as int) =~= backward(segments@));
    if closed {
        result.push(PathCommand::Close);
        assert(result@ =~= seq![PathCommand::MoveTo(segments@[n - 1].1)] + backward(segments@)
            + seq![PathCommand::Close]);
    } else {
        assert(result@ =~= seq![PathCommand::MoveTo(segments@[n - 1].1)] + backward(segments@)
            + Seq::<PathCommand>::empty());
    }
    result
}


/// The cross product of two points taken as vectors from the origin: twice
/// the signed area of the triangle that they span with the origin.
pub open spec fn cross(a: Point, b: Point) -> int {
    a.x * b.y - b.x * a.y
}

/// The sum of the cross products of the edges.
pub open spec fn cross_sum(es: Seq<Edge>) -> int
    decreases es.len(),
{
    if es.len() == 0 {
        0
    } else {
        cross_sum(es.drop_last()) + cross(es.last().from, es.last().to)
    }
}

/// Twice the signed area of a contour by the shoelace formula over its
/// polygon edges: positive when the polygon runs counter-clockwise,
/// negative when it runs clockwise. Curves count by their chords.
pub open spec fn twice_area(contour: Seq<PathCommand>) -> int {
    cross_sum(edges(contour))
}

fn cross_product(a: Point, b: Point) -> (r: i128)
    ensures
        r == cross(a, b),
        -0x8000_0000_0000_0000 <= r <= 0x8000_0000_0000_0000,
{
    let ax: i128 = a.x as i128;
    let ay: i128 = a.y as i128;
    let bx: i128 = b.x as i128;
    let by: i128 = b.y as i128;
    assert(-0x4000_0000_0000_0000 <= ax * by <= 0x4000_0000_0000_0000) by (nonlinear_arith)
        requires
            -0x8000_0000 <= ax <= 0x8000_0000,
            -0x8000_0000 <= by <= 0x8000_0000,
    ;
    assert(-0x4000_0000_0000_0000 <= bx * ay <= 0x4000_0000_0000_0000) by (nonlinear_arith)
        requires
            -0x8000_0000 <= bx <= 0x8000_0000,
            -0x8000_0000 <= ay <= 0x8000_0000,
    ;
    ax * by - bx * ay
}

/// The edge that a command adds, given where the pen has been.
fn next_edge(first: Option<Point>, prev: Option<Point>, command: PathCommand) -> (e: Option<
    (Point, Point),
>)
    ensures
        match edge_of(Pen { first, prev }, command) {
            Some(x) => e == Some((x.from, x.to)),
            None => e is None,
        },
{
    let target: Option<Point> = match command {
        PathCommand::MoveTo(_) => None,
        PathCommand::LineTo(p) => Some(p),
        PathCommand::QuadTo(_, p) => Some(p),
        PathCommand::CubicTo(_, _, p) => Some(p),
        PathCommand::Close => first,
    };
    match (prev, target) {
        (Some(a), Some(b)) => Some((a, b)),
        _ => None,
    }
}

/// Where the pen has been after one more command.
fn next_pen(first: Option<Point>, prev: Option<Point>, command: PathCommand) -> (r: (
    Option<Point>,
    Option<Point>,
))
    ensures
        pen_step(Pen { first, prev }, command) == (Pen { first: r.0, prev: r.1 }),
{
    match command {
        PathCommand::MoveTo(p) => (Some(p), Some(p)),
        PathCommand::LineTo(p) => (first, Some(p)),
        PathCommand::QuadTo(_, p) => (first, Some(p)),
        PathCommand::CubicTo(_, _, p) => (first, Some(p)),
        PathCommand::Close => (first, prev),
    }
}

/// Computes twice the signed area of a contour.
pub fn twice_signed_area(contour: &Vec<PathCommand>) -> (area: i128)
    ensures
        area == twice_area(contour@),
{
    let mut area: i128 = 0;
    let mut first: Option<Point> = None;
    let mut prev: Option<Point> = None;
    let mut i: usize = 0;
    while i < contour.len()
        invariant
            i <= contour.len(),
            pen_after(contour@.take(i as int)) == (Pen { first, prev }),
            area == twice_area(contour@.take(i as int)),
            -(i as int) * 0x8000_0000_0000_0000 <= area <= (i as int) * 0x8000_0000_0000_0000,
        decreases contour.len() - i,
    {
        assert(contour@.take(i + 1).drop_last() =~= contour@.take(i as int));
        let ghost before = edges(contour@.take(i as int));
        if let Some((a, b)) = next_edge(first, prev, contour[i]) {
            assert(before.push(Edge { from: a, to: b }).drop_last() =~= before);
            area = area + cross_product(a, b);
        }
        let pen = next_pen(first, prev, contour[i]);
        first = pen.0;
        prev = pen.1;
        i = i + 1;
    }
    assert(contour@.take(contour.len() as int) =~= contour@);
    area
}

/// An axis-aligned box: least and greatest coordinates.
#[derive(Clone, Copy, Debug, PartialEq, Eq, Structural)]
pub struct BoundingBox {
    pub x0: i32,
    pub y0: i32,
    pub x1: i32,
    pub y1: i32,
}

pub open spec fn least(a: int, b: int) -> int {
    if a <= b {
        a
    } else {
        b
    }
}

pub open spec fn greatest(a: int, b: int) -> int {
    if a >= b {
        a
    } else {
        b
    }
}

/// The smallest box around the points; the box at the origin if there are
/// none.
pub open spec fn bounds(points: Seq<Point>) -> BoundingBox
    decreases points.len(),
{
    if points.len() == 0 {
        BoundingBox { x0: 0, y0: 0, x1: 0, y1: 0 }
    } else if points.len() == 1 {
        let p = points[0];
        BoundingBox { x0: p.x, y0: p.y, x1: p.x, y1: p.y }
    } else {
        let b = bounds(points.drop_last());
        let p = points.last();
        BoundingBox {
            x0: least(b.x0 as int, p.x as int) as i32,
            y0: least(b.y0 as int, p.y as int) as i32,
            x1: greatest(b.x1 as int, p.x as int) as i32,
            y1: greatest(b.y1 as int, p.y as int) as i32,
        }
    }
}

/// The box around the end points of a contour's commands. Control points
/// play no part.
pub open spec fn bounding_box(contour: Seq<PathCommand>) -> BoundingBox {
    bounds(end_points(contour))
}

impl BoundingBox {
    /// Width times height.
    pub open spec fn area(self) -> int {
        (self.x1 - self.x0) * (self.y1 - self.y0)
    }

    /// The midpoint of the box.
    pub open spec fn center(self) -> DoubledPoint {
        DoubledPoint { x2: (self.x0 + self.x1) as i64, y2: (self.y0 + self.y1) as i64 }
    }

    /// Whether the point lies in the box; the greatest coordinates
    /// themselves are outside.
    pub open spec fn contains(self, p: DoubledPoint) -> bool {
        2 * self.x0 <= p.x2 < 2 * self.x1 && 2 * self.y0 <= p.y2 < 2 * self.y1
    }

    pub open spec fn ordered(self) -> bool {
        self.x0 <= self.x1 && self.y0 <= self.y1
    }
}

/// The least coordinates of a box around points are no greater than the
/// greatest.
proof fn bounds_ordered(points: Seq<Point>)
    ensures
        bounds(points).ordered(),
    decreases points.len(),
{
    if points.len() > 1 {
        bounds_ordered(points.drop_last());
    }
}

/// Computes the box around the end points of a contour.
pub fn contour_bounds(contour: &Vec<PathCommand>) -> (b: BoundingBox)
    ensures
        b == bounding_box(contour@),
        b.ordered(),
{
    let mut b = BoundingBox { x0: 0, y0: 0, x1: 0, y1: 0 };
    let mut seen: bool = false;
    let mut i: usize = 0;
    while i < contour.len()
        invariant
            i <= contour.len(),
            b == bounding_box(contour@.take(i as int)),
            seen == (end_points(contour@.take(i as int)).len() > 0),
        decreases contour.len() - i,
    {
        assert(contour@.take(i + 1).drop_last() =~= contour@.take(i as int));
        let end: Option<Point> = match contour[i] {
            PathCommand::MoveTo(p) => Some(p),
            PathCommand::LineTo(p) => Some(p),
            PathCommand::QuadTo(_, p) => Some(p),
            PathCommand::CubicTo(_, _, p) => Some(p),
            PathCommand::Close => None,
        };
        if let Some(p) = end {
            let ghost before = end_points(contour@.take(i as int));
            assert(before.push(p).drop_last() =~= before);
            if seen {
                b = BoundingBox {
                    x0: if b.x0 <= p.x { b.x0 } else { p.x },
                    y0: if b.y0 <= p.y { b.y0 } else { p.y },
                    x1: if b.x1 >= p.x { b.x1 } else { p.x },
                    y1: if b.y1 >= p.y { b.y1 } else { p.y },
                };
            } else {
                b = BoundingBox { x0: p.x, y0: p.y, x1: p.x, y1: p.y };
                seen = true;
            }
        }
        i = i + 1;
    }
    assert(contour@.take(contour.len() as int) =~= contour@);
    proof {
        bounds_ordered(end_points(contour@));
    }
    b
}

/// Whether the ray from `q` towards greater x meets the edge. An edge is
/// met when its ends lie on different sides of the ray's line and the
/// crossing is strictly beyond `q`; of the two ends, the one with the
/// greater y is the one that counts as off the line.
pub open spec fn ray_meets(q: DoubledPoint, e: Edge) -> bool {
    let dx = e.to.x - e.from.x;
    let dy = e.to.y - e.from.y;
    let lhs = (q.x2 - 2 * e.from.x) * dy;
    let rhs = (q.y2 - 2 * e.from.y) * dx;
    ((2 * e.from.y > q.y2) != (2 * e.to.y > q.y2)) && (if dy > 0 {
        lhs < rhs
    } else {
        lhs > rhs
    })
}

/// The number of edges that the ray from `q` meets.
pub open spec fn crossings(q: DoubledPoint, es: Seq<Edge>) -> nat
    decreases es.len(),
{
    if es.len() == 0 {
        0
    } else {
        crossings(q, es.drop_last()) + (if ray_meets(q, es.last()) {
            1nat
        } else {
            0nat
        })
    }
}

/// Whether `q` is inside the polygon of the contour: the ray from it meets
/// an odd number of edges.
pub open spec fn inside(q: DoubledPoint, contour: Seq<PathCommand>) -> bool {
    crossings(q, edges(contour)) % 2 == 1
}

fn ray_meets_edge(q: DoubledPoint, a: Point, b: Point) -> (r: bool)
    ensures
        r == ray_meets(q, Edge { from: a, to: b }),
{
    let qx: i128 = q.x2 as i128;
    let qy: i128 = q.y2 as i128;
    let ax: i128 = a.x as i128;
    let ay: i128 = a.y as i128;
    let bx: i128 = b.x as i128;
    let by: i128 = b.y as i128;
    if (2 * ay > qy) != (2 * by > qy) {
        let dx: i128 = bx - ax;
        let dy: i128 = by - ay;
        let u: i128 = qx - 2 * ax;
        let v: i128 = qy - 2 * ay;
        assert(-0x2_0000_0000_0000_0000_0000_0000 <= u * dy <= 0x2_0000_0000_0000_0000_0000_0000)
            by (nonlinear_arith)
            requires
                -0x1_0000_0000_0000_0000 <= u <= 0x1_0000_0000_0000_0000,
                -0x1_0000_0000 <= dy <= 0x1_0000_0000,
        ;
        assert(-0x2_0000_0000_0000_0000_0000_0000 <= v * dx <= 0x2_0000_0000_0000_0000_0000_0000)
            by (nonlinear_arith)
            requires
                -0x1_0000_0000_0000_0000 <= v <= 0x1_0000_0000_0000_0000,
                -0x1_0000_0000 <= dx <= 0x1_0000_0000,
        ;
        let lhs: i128 = u * dy;
        let rhs: i128 = v * dx;
        if dy > 0 {
            lhs < rhs
        } else {
            lhs > rhs
        }
    } else {
        false
    }
}

/// Tests by ray casting whether a point is inside a contour's polygon.
pub fn point_in_contour(point: DoubledPoint, contour: &Vec<PathCommand>) -> (r: bool)
    ensures
        r == inside(point, contour@),
{
    let mut r: bool = false;
    let mut first: Option<Point> = None;
    let mut prev: Option<Point> = None;
    let mut i: usize = 0;
    while i < contour.len()
        invariant
            i <= contour.len(),
            pen_after(contour@.take(i as int)) == (Pen { first, prev }),
            r == inside(point, contour@.take(i as int)),
        decreases contour.len() - i,
    {
        assert(contour@.take(i + 1).drop_last() =~= contour@.take(i as int));
        let ghost before = edges(contour@.take(i as int));
        if let Some((a, b)) = next_edge(first, prev, contour[i]) {
            assert(before.push(Edge { from: a, to: b }).drop_last() =~= before);
            if ray_meets_edge(point, a, b) {
                r = !r;
            }
        }
        let pen = next_pen(first, prev, contour[i]);
        first = pen.0;
        prev = pen.1;
        i = i + 1;
    }
    assert(contour@.take(contour.len() as int) =~= contour@);
    r
}


/// A path part-way through being split: the contours that are complete and
/// the one that is being gathered.
pub struct Split {
    pub done: Seq<Seq<PathCommand>>,
    pub current: Seq<PathCommand>,
}

/// A move starts a new contour; every other command joins the current one.
pub open spec fn split_step(s: Split, command: PathCommand) -> Split {
    if command.is_move() {
        Split {
            done: if s.current.len() > 0 {
                s.done.push(s.current)
            } else {
                s.done
            },
            current: seq![command],
        }
    } else {
        Split { done: s.done, current: s.current.push(command) }
    }
}

pub open spec fn split(path: Seq<PathCommand>) -> Split
    decreases path.len(),
{
    if path.len() == 0 {
        Split { done: Seq::empty(), current: Seq::empty() }
    } else {
        split_step(split(path.drop_last()), path.last())
    }
}

/// The contours of a path: its maximal runs of commands that hold no move
/// but, possibly, at their start.
pub open spec fn contours_of(path: Seq<PathCommand>) -> Seq<Seq<PathCommand>> {
    let s = split(path);
    if s.current.len() > 0 {
        s.done.push(s.current)
    } else {
        s.done
    }
}

/// Splits a path into its contours.
pub fn split_into_contours(path: &Vec<PathCommand>) -> (contours: Vec<Vec<PathCommand>>)
    ensures
        views(contours@) == contours_of(path@),
{
    let mut contours: Vec<Vec<PathCommand>> = Vec::new();
    let mut current: Vec<PathCommand> = Vec::new();
    let mut i: usize = 0;
    assert(views(contours@) =~= Seq::<Seq<PathCommand>>::empty());
    while i < path.len()
        invariant
            i <= path.len(),
            split(path@.take(i as int)) == (Split { done: views(contours@), current: current@ }),
        decreases path.len() - i,
    {
        assert(path@.take(i + 1).drop_last() =~= path@.take(i as int));
        let command = path[i];
        match command {
            PathCommand::MoveTo(_) => {
                if current.len() > 0 {
                    let ghost before = contours@;
                    let ghost gathered = current@;
                    contours.push(current);
                    assert(views(contours@) =~= views(before).push(gathered));
                    current = Vec::new();
                }
                current.push(command);
                assert(current@ =~= seq![command]);
            },
            _ => {
                current.push(command);
            },
        }
        i = i + 1;
    }
    assert(path@.take(path.len() as int) =~= path@);
    if current.len() > 0 {
        let ghost before = contours@;
        let ghost gathered = current@;
        contours.push(current);
        assert(views(contours@) =~= views(before).push(gathered));
    }
    contours
}

/// The first place at or after `from` in `order` whose key is strictly
/// below `key`; the length of `order` if there is none.
pub open spec fn first_smaller(order: Seq<int>, keys: Seq<int>, key: int, from: int) -> int
    decreases order.len() - from,
{
    if from < 0 || from >= order.len() {
        order.len() as int
    } else if keys[order[from]] < key {
        from
    } else {
        first_smaller(order, keys, key, from + 1)
    }
}

/// The indices of the first `n` keys in descending order of key, equal keys
/// in the order in which they stand: each index in turn is put before the first one
/// already placed whose key is strictly smaller.
pub open spec fn ranking(keys: Seq<int>, n: nat) -> Seq<int>
    decreases n,
{
    if n == 0 {
        Seq::empty()
    } else {
        let placed = ranking(keys, (n - 1) as nat);
        placed.insert(first_smaller(placed, keys, keys[n - 1], 0), n - 1)
    }
}

/// The place found lies between `from` and the end.
proof fn first_smaller_in_range(order: Seq<int>, keys: Seq<int>, key: int, from: int)
    requires
        0 <= from <= order.len(),
    ensures
        from <= first_smaller(order, keys, key, from) <= order.len(),
    decreases order.len() - from,
{
    if from < order.len() && !(keys[order[from]] < key) {
        first_smaller_in_range(order, keys, key, from + 1);
    }
}

/// A ranking of `n` keys has `n` entries, each an index below `n`.
pub proof fn ranking_in_range(keys: Seq<int>, n: nat)
    ensures
        ranking(keys, n).len() == n,
        forall|i: int| 0 <= i < n ==> 0 <= #[trigger] ranking(keys, n)[i] < n,
    decreases n,
{
    if n > 0 {
        let placed = ranking(keys, (n - 1) as nat);
        ranking_in_range(keys, (n - 1) as nat);
        first_smaller_in_range(placed, keys, keys[n - 1], 0);
    }
}

pub open spec fn as_ints(v: Seq<usize>) -> Seq<int> {
    v.map_values(|x: usize| x as int)
}

pub open spec fn wide(v: Seq<i128>) -> Seq<int> {
    v.map_values(|x: i128| x as int)
}

/// Orders the indices of `keys` by descending key, stably.
pub fn descending_order(keys: &Vec<i128>) -> (order: Vec<usize>)
    ensures
        as_ints(order@) == ranking(wide(keys@), keys@.len()),
        order@.len() == keys@.len(),
        forall|i: int| 0 <= i < order@.len() ==> #[trigger] order@[i] < keys@.len(),
{
    let n: usize = keys.len();
    let mut order: Vec<usize> = Vec::new();
    let mut k: usize = 0;
    assert(as_ints(order@) =~= Seq::<int>::empty());
    while k < n
        invariant
            n == keys@.len(),
            k <= n,
            as_ints(order@) == ranking(wide(keys@), k as nat),
            order@.len() == k,
            forall|i: int| 0 <= i < order@.len() ==> #[trigger] order@[i] < k,
        decreases n - k,
    {
        let key: i128 = keys[k];
        let mut p: usize = 0;
        while p < order.len() && keys[order[p]] >= key
            invariant
                p <= order@.len(),
                order@.len() == k,
                k < n,
                n == keys@.len(),
                key == keys@[k as int],
                forall|i: int| 0 <= i < order@.len() ==> #[trigger] order@[i] < k,
                first_smaller(as_ints(order@), wide(keys@), key as int, 0) == first_smaller(
                    as_ints(order@),
                    wide(keys@),
                    key as int,
                    p as int,
                ),
            decreases order@.len() - p,
        {
            p = p + 1;
        }
        let ghost before = order@;
        order.insert(p, k);
        assert(as_ints(order@) =~= as_ints(before).insert(p as int, k as int));
        k = k + 1;
    }
    order
}

impl BoundingBox {
    /// Computes width times height.
    pub fn measure(&self) -> (a: i128)
        ensures
            a == self.area(),
    {
        let w: i128 = self.x1 as i128 - self.x0 as i128;
        let h: i128 = self.y1 as i128 - self.y0 as i128;
        assert(-0x1_0000_0000_0000_0000 <= w * h <= 0x1_0000_0000_0000_0000) by (nonlinear_arith)
            requires
                -0x1_0000_0000 <= w <= 0x1_0000_0000,
                -0x1_0000_0000 <= h <= 0x1_0000_0000,
        ;
        w * h
    }

    /// Computes the midpoint.
    pub fn midpoint(&self) -> (c: DoubledPoint)
        ensures
            c == self.center(),
    {
        DoubledPoint { x2: self.x0 as i64 + self.x1 as i64, y2: self.y0 as i64 + self.y1 as i64 }
    }

    /// Tests whether a point lies in the box.
    pub fn holds(&self, p: DoubledPoint) -> (r: bool)
        ensures
            r == self.contains(p),
    {
        2 * (self.x0 as i64) <= p.x2 && p.x2 < 2 * (self.x1 as i64) && 2 * (self.y0 as i64)
            <= p.y2 && p.y2 < 2 * (self.y1 as i64)
    }
}

/// The key by which contours are ordered: the area of the bounding box.
pub open spec fn box_areas(contours: Seq<Seq<PathCommand>>) -> Seq<int> {
    Seq::new(contours.len(), |i: int| bounding_box(contours[i]).area())
}

/// The contours by descending area of bounding box, contours of equal box
/// area in the order in which they stand.
pub open spec fn largest_first(contours: Seq<Seq<PathCommand>>) -> Seq<Seq<PathCommand>> {
    let order = ranking(box_areas(contours), contours.len());
    Seq::new(contours.len(), |i: int| contours[order[i]])
}

/// Whether a contour surrounds a point: the point lies in its bounding box
/// and inside its polygon.
pub open spec fn encloses(outer: Seq<PathCommand>, q: DoubledPoint) -> bool {
    bounding_box(outer).contains(q) && inside(q, outer)
}

/// How many of the first `upto` contours surround `q`.
pub open spec fn enclosing_count(contours: Seq<Seq<PathCommand>>, q: DoubledPoint, upto: nat) -> nat
    decreases upto,
{
    if upto == 0 {
        0
    } else {
        enclosing_count(contours, q, (upto - 1) as nat) + (if encloses(contours[upto - 1], q) {
            1nat
        } else {
            0nat
        })
    }
}

/// The nesting level of contour `i`: how many of the contours before it
/// surround the midpoint of its bounding box.
pub open spec fn nesting_level(contours: Seq<Seq<PathCommand>>, i: int) -> nat {
    enclosing_count(contours, bounding_box(contours[i]).center(), i as nat)
}

/// A contour at an even nesting level is to run clockwise (negative area),
/// one at an odd level counter-clockwise (positive area). A contour of
/// area zero runs neither way and is never turned.
pub open spec fn needs_reversal(area2: int, level: nat) -> bool {
    if level % 2 == 0 {
        area2 > 0
    } else {
        area2 < 0
    }
}

/// The contour as it is to be drawn at the given nesting level.
pub open spec fn oriented(contour: Seq<PathCommand>, level: nat) -> Seq<PathCommand> {
    if needs_reversal(twice_area(contour), level) {
        reversed(contour)
    } else {
        contour
    }
}

/// The contours largest first, each drawn in the direction that its
/// nesting level asks for.
pub open spec fn rewound(contours: Seq<Seq<PathCommand>>) -> Seq<Seq<PathCommand>> {
    let sorted = largest_first(contours);
    Seq::new(sorted.len(), |i: int| oriented(sorted[i], nesting_level(sorted, i)))
}

/// A path authored for the even-odd rule, rewritten for the non-zero rule.
/// A path of at most one contour stays as it is.
pub open spec fn evenodd_fixed(path: Seq<PathCommand>) -> Seq<PathCommand> {
    let contours = contours_of(path);
    if contours.len() <= 1 {
        path
    } else {
        concat(rewound(contours))
    }
}

/// The path as the non-zero rule needs it.
pub open spec fn normalized(path: Seq<PathCommand>, rule: FillRule) -> Seq<PathCommand> {
    match rule {
        FillRule::NonZero => path,
        FillRule::EvenOdd => evenodd_fixed(path),
    }
}

/// Rewrites, in place, a path authored for the even-odd fill rule so that
/// it fills alike under the non-zero rule.
pub fn fix_evenodd_winding(path: &mut Vec<PathCommand>)
    ensures
        final(path)@ == evenodd_fixed(old(path)@),
{
    let contours = split_into_contours(path);
    let n: usize = contours.len();
    assert(views(contours@).len() == n);
    if n <= 1 {
        return ;
    }
    let ghost cs = views(contours@);
    let mut areas: Vec<i128> = Vec::new();
    let mut boxes: Vec<BoundingBox> = Vec::new();
    let mut keys: Vec<i128> = Vec::new();
    let mut i: usize = 0;
    while i < n
        invariant
            n == contours@.len(),
            cs == views(contours@),
            i <= n,
            areas@.len() == i,
            boxes@.len() == i,
            keys@.len() == i,
            forall|k: int| 0 <= k < i ==> #[trigger] areas@[k] == twice_area(cs[k]),
            forall|k: int| 0 <= k < i ==> #[trigger] boxes@[k] == bounding_box(cs[k]),
            forall|k: int| 0 <= k < i ==> #[trigger] keys@[k] == bounding_box(cs[k]).area(),
        decreases n - i,
    {
        let b = contour_bounds(&contours[i]);
        areas.push(twice_signed_area(&contours[i]));
        keys.push(b.measure());
        boxes.push(b);
        i = i + 1;
    }
    assert(wide(keys@) =~= box_areas(cs));
    let order = descending_order(&keys);
    let ghost sorted = largest_first(cs);
    assert(forall|k: int| 0 <= k < n ==> #[trigger] sorted[k] == cs[order@[k] as int]) by {
        assert forall|k: int| 0 <= k < n implies #[trigger] sorted[k] == cs[order@[k] as int] by {
            assert(as_ints(order@)[k] == order@[k] as int);
        }
    }
    let mut result: Vec<PathCommand> = Vec::new();
    let mut i: usize = 0;
    assert(rewound(cs).take(0) =~= Seq::<Seq<PathCommand>>::empty());
    while i < n
        invariant
            n == contours@.len(),
            n == order@.len(),
            n == areas@.len(),
            n == boxes@.len(),
            cs == views(contours@),
            sorted == largest_first(cs),
            sorted.len() == n,
            i <= n,
            forall|k: int| 0 <= k < n ==> #[trigger] order@[k] < n,
            forall|k: int| 0 <= k < n ==> #[trigger] sorted[k] == cs[order@[k] as int],
            forall|k: int| 0 <= k < n ==> #[trigger] areas@[k] == twice_area(cs[k]),
            forall|k: int| 0 <= k < n ==> #[trigger] boxes@[k] == bounding_box(cs[k]),
            result@ == concat(rewound(cs).take(i as int)),
        decreases n - i,
    {
        let at: usize = order[i];
        let center = boxes[at].midpoint();
        let mut level: usize = 0;
        let mut j: usize = 0;
        while j < i
            invariant
                n == contours@.len(),
                n == order@.len(),
                n == boxes@.len(),
                cs == views(contours@),
                sorted.len() == n,
                j <= i < n,
                level <= j,
                forall|k: int| 0 <= k < n ==> #[trigger] order@[k] < n,
                forall|k: int| 0 <= k < n ==> #[trigger] sorted[k] == cs[order@[k] as int],
                forall|k: int| 0 <= k < n ==> #[trigger] boxes@[k] == bounding_box(cs[k]),
                level == enclosing_count(sorted, center, j as nat),
            decreases i - j,
        {
            let other: usize = order[j];
            assert(sorted[j as int] == cs[other as int]);
            assert(cs[other as int] == contours@[other as int]@);
            if boxes[other].holds(center) && point_in_contour(center, &contours[other]) {
                level = level + 1;
            }
            j = j + 1;
        }
        assert(sorted[i as int] == cs[at as int]);
        assert(cs[at as int] == contours@[at as int]@);
        assert(level as nat == nesting_level(sorted, i as int));
        let area: i128 = areas[at];
        let turn: bool = if level % 2 == 0 {
            area > 0
        } else {
            area < 0
        };
        assert(turn == needs_reversal(twice_area(sorted[i as int]), level as nat));
        if turn {
            let flipped = reverse_contour(&contours[at]);
            append_path(&mut result, &flipped);
        } else {
            append_path(&mut result, &contours[at]);
        }
        assert(rewound(cs).take(i + 1).drop_last() =~= rewound(cs).take(i as int));
        assert(rewound(cs).take(i + 1).last() == oriented(
            sorted[i as int],
            nesting_level(sorted, i as int),
        ));
        i = i + 1;
    }
    assert(rewound(cs).take(n as int) =~= rewound(cs));
    *path = result;
}

/// The winding normalizer: returns the path as the non-zero rule needs it.
/// A path authored for the non-zero rule, and any path of a single contour,
/// is returned unchanged.
pub fn normalize_winding(path: &Vec<PathCommand>, rule: FillRule) -> (result: Vec<PathCommand>)
    ensures
        result@ == normalized(path@, rule),
        contours_of(path@).len() <= 1 ==> result@ == path@,
{
    let mut result = copy_path(path);
    match rule {
        FillRule::NonZero => {},
        FillRule::EvenOdd => {
            fix_evenodd_winding(&mut result);
        },
    }
    result
}

} // verus!
