//! What holds of the winding normalizer: a path of well-formed contours
//! that has been normalized is left as it is by normalizing it again.

use vstd::prelude::*;
use crate::path::{
    concat, edge_of, edges, end_points, pen_after, DoubledPoint, Edge, FillRule, PathCommand, Pen,
    Point,
};
use crate::winding::{
    backward, bounding_box, bounds, box_areas, contours_of, cross, cross_sum, crossings,
    enclosing_count, encloses, evenodd_fixed, first_smaller, inside,
    largest_first, needs_reversal, nesting_level, normalized, oriented, ranking,
    ranking_in_range, ray_meets, reversed, rewound, split, trace, trace_step, twice_area, Split,
    Trace,
};

verus! {

/// Whether every command draws a line or a curve.
pub open spec fn segments_only(commands: Seq<PathCommand>) -> bool {
    forall|i: int| 0 <= i < commands.len() ==> (#[trigger] commands[i]).is_segment()
}

/// The end point of a command that has one.
pub open spec fn end_of(command: PathCommand) -> Point {
    match command {
        PathCommand::MoveTo(p) => p,
        PathCommand::LineTo(p) => p,
        PathCommand::QuadTo(_, p) => p,
        PathCommand::CubicTo(_, _, p) => p,
        PathCommand::Close => Point { x: 0, y: 0 },
    }
}

/// An open contour: a move to `first`, then the segments.
pub open spec fn opened(first: Point, segments: Seq<PathCommand>) -> Seq<PathCommand> {
    seq![PathCommand::MoveTo(first)] + segments
}

/// Where segment `j` of an open contour starts.
pub open spec fn start_at(first: Point, segments: Seq<PathCommand>, j: int) -> Point {
    if j <= 0 {
        first
    } else {
        end_of(segments[j - 1])
    }
}

/// Where an open contour ends.
pub open spec fn last_point(first: Point, segments: Seq<PathCommand>) -> Point {
    start_at(first, segments, segments.len() as int)
}

/// The chord of segment `j` of an open contour.
pub open spec fn chord(first: Point, segments: Seq<PathCommand>, j: int) -> Edge {
    Edge { from: start_at(first, segments, j), to: end_of(segments[j]) }
}

pub open spec fn chords(first: Point, segments: Seq<PathCommand>) -> Seq<Edge> {
    Seq::new(segments.len(), |j: int| chord(first, segments, j))
}

/// The command that draws a segment backwards, to where it started.
pub open spec fn turned(start: Point, command: PathCommand) -> PathCommand {
    match command {
        PathCommand::QuadTo(c, _) => PathCommand::QuadTo(c, start),
        PathCommand::CubicTo(c1, c2, _) => PathCommand::CubicTo(c2, c1, start),
        _ => PathCommand::LineTo(start),
    }
}

/// What the trace gathers from the segments of an open contour.
pub open spec fn traced(first: Point, segments: Seq<PathCommand>) -> Seq<(PathCommand, Point)> {
    Seq::new(
        segments.len(),
        |j: int| (turned(start_at(first, segments, j), segments[j]), end_of(segments[j])),
    )
}

pub open spec fn ends(segments: Seq<PathCommand>) -> Seq<Point> {
    Seq::new(segments.len(), |j: int| end_of(segments[j]))
}

/// The pen, the edges, the end points and the trace of an open contour.
proof fn open_contour(first: Point, segments: Seq<PathCommand>)
    requires
        segments_only(segments),
    ensures
        pen_after(opened(first, segments)) == (Pen {
            first: Some(first),
            prev: Some(last_point(first, segments)),
        }),
        edges(opened(first, segments)) == chords(first, segments),
        end_points(opened(first, segments)) == seq![first] + ends(segments),
        trace(opened(first, segments)) == (Trace {
            first,
            current: last_point(first, segments),
            closed: false,
            segments: traced(first, segments),
        }),
    decreases segments.len(),
{
    let c = opened(first, segments);
    if segments.len() == 0 {
        assert(c =~= seq![PathCommand::MoveTo(first)]);
        assert(c.drop_last() =~= Seq::<PathCommand>::empty());
        assert(pen_after(c.drop_last()) == Pen { first: None, prev: None });
        assert(edges(c.drop_last()) =~= Seq::<Edge>::empty());
        assert(edges(c) =~= chords(first, segments));
        assert(end_points(c.drop_last()) =~= Seq::<Point>::empty());
        assert(end_points(c) =~= seq![first] + ends(segments));
        assert(trace(c.drop_last()).segments =~= Seq::<(PathCommand, Point)>::empty());
        assert(c.last() == PathCommand::MoveTo(first));
        assert(trace(c) == trace_step(trace(c.drop_last()), c.last()));
        assert(trace(c).segments =~= traced(first, segments));
    } else {
        let front = segments.drop_last();
        let last = segments.last();
        assert(last.is_segment());
        assert(segments_only(front));
        open_contour(first, front);
        assert(c.drop_last() =~= opened(first, front));
        assert(c.last() == last);
        assert(last_point(first, front) == start_at(first, segments, segments.len() - 1));
        assert(chords(first, segments) =~= chords(first, front).push(
            chord(first, segments, segments.len() - 1),
        ));
        assert(edges(c) =~= chords(first, segments));
        assert(seq![first] + ends(segments) =~= (seq![first] + ends(front)).push(end_of(last)));
        assert(end_points(c) =~= seq![first] + ends(segments));
        assert(traced(first, segments) =~= traced(first, front).push(
            (turned(start_at(first, segments, segments.len() - 1), last), end_of(last)),
        ));
        assert(trace(c).segments =~= traced(first, segments));
    }
}

/// An edge run the other way.
pub open spec fn flipped(e: Edge) -> Edge {
    Edge { from: e.to, to: e.from }
}

/// The edges in the opposite order, each run the other way.
pub open spec fn walked_back(es: Seq<Edge>) -> Seq<Edge> {
    Seq::new(es.len(), |j: int| flipped(es[es.len() - 1 - j]))
}

/// The sum of the cross products with one more edge in front.
proof fn cross_sum_with_first(e: Edge, es: Seq<Edge>)
    ensures
        cross_sum(seq![e] + es) == cross(e.from, e.to) + cross_sum(es),
    decreases es.len(),
{
    let all = seq![e] + es;
    if es.len() == 0 {
        assert(all =~= seq![e]);
        assert(all.drop_last() =~= Seq::<Edge>::empty());
        assert(all.last() == e);
        assert(cross_sum(all.drop_last()) == 0);
    } else {
        cross_sum_with_first(e, es.drop_last());
        assert(all.drop_last() =~= seq![e] + es.drop_last());
        assert(all.last() == es.last());
    }
}

/// Walking the edges back negates the sum of their cross products.
proof fn cross_sum_walked_back(es: Seq<Edge>)
    ensures
        cross_sum(walked_back(es)) == -cross_sum(es),
    decreases es.len(),
{
    if es.len() > 0 {
        let front = es.drop_last();
        let last = es.last();
        cross_sum_walked_back(front);
        assert(walked_back(es) =~= seq![flipped(last)] + walked_back(front));
        cross_sum_with_first(flipped(last), walked_back(front));
        assert(cross(last.to, last.from) == -cross(last.from, last.to)) by (nonlinear_arith);
    } else {
        assert(walked_back(es) =~= Seq::<Edge>::empty());
    }
}

/// The ray meets an edge whichever way the edge runs.
proof fn ray_meets_flipped(q: DoubledPoint, e: Edge)
    ensures
        ray_meets(q, flipped(e)) == ray_meets(q, e),
{
    let dx = e.to.x - e.from.x;
    let dy = e.to.y - e.from.y;
    let lhs = (q.x2 - 2 * e.from.x) * dy;
    let rhs = (q.y2 - 2 * e.from.y) * dx;
    let back_lhs = (q.x2 - 2 * e.to.x) * (-dy);
    let back_rhs = (q.y2 - 2 * e.to.y) * (-dx);
    assert(back_lhs - back_rhs == -(lhs - rhs)) by (nonlinear_arith)
        requires
            lhs == (q.x2 - 2 * e.from.x) * dy,
            rhs == (q.y2 - 2 * e.from.y) * dx,
            back_lhs == (q.x2 - 2 * e.to.x) * (-dy),
            back_rhs == (q.y2 - 2 * e.to.y) * (-dx),
            dx == e.to.x - e.from.x,
            dy == e.to.y - e.from.y,
    ;
    assert(e.from.x - e.to.x == -dx);
    assert(e.from.y - e.to.y == -dy);
}

/// The number of edges met with one more edge in front.
proof fn crossings_with_first(q: DoubledPoint, e: Edge, es: Seq<Edge>)
    ensures
        crossings(q, seq![e] + es) == crossings(q, es) + (if ray_meets(q, e) {
            1nat
        } else {
            0nat
        }),
    decreases es.len(),
{
    let all = seq![e] + es;
    if es.len() == 0 {
        assert(all =~= seq![e]);
        assert(all.drop_last() =~= Seq::<Edge>::empty());
        assert(all.last() == e);
        assert(crossings(q, all.drop_last()) == 0);
    } else {
        crossings_with_first(q, e, es.drop_last());
        assert(all.drop_last() =~= seq![e] + es.drop_last());
        assert(all.last() == es.last());
    }
}

/// The ray meets as many edges when they are walked back.
proof fn crossings_walked_back(q: DoubledPoint, es: Seq<Edge>)
    ensures
        crossings(q, walked_back(es)) == crossings(q, es),
    decreases es.len(),
{
    if es.len() > 0 {
        let front = es.drop_last();
        let last = es.last();
        crossings_walked_back(q, front);
        assert(walked_back(es) =~= seq![flipped(last)] + walked_back(front));
        crossings_with_first(q, flipped(last), walked_back(front));
        ray_meets_flipped(q, last);
    } else {
        assert(walked_back(es) =~= Seq::<Edge>::empty());
    }
}

/// Whether every point of `ps` is among `qs`.
pub open spec fn among(ps: Seq<Point>, qs: Seq<Point>) -> bool {
    forall|i: int| 0 <= i < ps.len() ==> qs.contains(#[trigger] ps[i])
}

/// The box around points is tight: every point lies in it, and each of
/// its sides is the coordinate of one of the points.
proof fn bounds_are_tight(ps: Seq<Point>)
    requires
        ps.len() > 0,
    ensures
        forall|i: int|
            0 <= i < ps.len() ==> bounds(ps).x0 <= (#[trigger] ps[i]).x <= bounds(ps).x1
                && bounds(ps).y0 <= ps[i].y <= bounds(ps).y1,
        exists|i: int| 0 <= i < ps.len() && (#[trigger] ps[i]).x == bounds(ps).x0,
        exists|i: int| 0 <= i < ps.len() && (#[trigger] ps[i]).x == bounds(ps).x1,
        exists|i: int| 0 <= i < ps.len() && (#[trigger] ps[i]).y == bounds(ps).y0,
        exists|i: int| 0 <= i < ps.len() && (#[trigger] ps[i]).y == bounds(ps).y1,
    decreases ps.len(),
{
    if ps.len() == 1 {
        assert(ps[0].x == bounds(ps).x0);
    } else {
        let front = ps.drop_last();
        let last = ps.last();
        let n = ps.len() - 1;
        bounds_are_tight(front);
        let b = bounds(front);
        assert forall|i: int| 0 <= i < ps.len() implies bounds(ps).x0 <= (#[trigger] ps[i]).x
            <= bounds(ps).x1 && bounds(ps).y0 <= ps[i].y <= bounds(ps).y1 by {
            if i < n {
                assert(front[i] == ps[i]);
            }
        }
        let ix0 = choose|i: int| 0 <= i < front.len() && (#[trigger] front[i]).x == b.x0;
        let ix1 = choose|i: int| 0 <= i < front.len() && (#[trigger] front[i]).x == b.x1;
        let iy0 = choose|i: int| 0 <= i < front.len() && (#[trigger] front[i]).y == b.y0;
        let iy1 = choose|i: int| 0 <= i < front.len() && (#[trigger] front[i]).y == b.y1;
        assert(ps[ix0] == front[ix0] && ps[ix1] == front[ix1] && ps[iy0] == front[iy0] && ps[iy1]
            == front[iy1]);
        assert(ps[if b.x0 <= last.x { ix0 } else { n }].x == bounds(ps).x0);
        assert(ps[if b.x1 >= last.x { ix1 } else { n }].x == bounds(ps).x1);
        assert(ps[if b.y0 <= last.y { iy0 } else { n }].y == bounds(ps).y0);
        assert(ps[if b.y1 >= last.y { iy1 } else { n }].y == bounds(ps).y1);
    }
}

/// Two lists of the same points have the same box.
pub proof fn bounds_of_same_points(ps: Seq<Point>, qs: Seq<Point>)
    requires
        ps.len() > 0,
        qs.len() > 0,
        among(ps, qs),
        among(qs, ps),
    ensures
        bounds(ps) == bounds(qs),
{
    bounds_are_tight(ps);
    bounds_are_tight(qs);
    let a = bounds(ps);
    let b = bounds(qs);
    let px0 = choose|i: int| 0 <= i < ps.len() && (#[trigger] ps[i]).x == a.x0;
    let px1 = choose|i: int| 0 <= i < ps.len() && (#[trigger] ps[i]).x == a.x1;
    let py0 = choose|i: int| 0 <= i < ps.len() && (#[trigger] ps[i]).y == a.y0;
    let py1 = choose|i: int| 0 <= i < ps.len() && (#[trigger] ps[i]).y == a.y1;
    let qx0 = choose|i: int| 0 <= i < qs.len() && (#[trigger] qs[i]).x == b.x0;
    let qx1 = choose|i: int| 0 <= i < qs.len() && (#[trigger] qs[i]).x == b.x1;
    let qy0 = choose|i: int| 0 <= i < qs.len() && (#[trigger] qs[i]).y == b.y0;
    let qy1 = choose|i: int| 0 <= i < qs.len() && (#[trigger] qs[i]).y == b.y1;
    assert(qs.contains(ps[px0]) && qs.contains(ps[px1]) && qs.contains(ps[py0]) && qs.contains(
        ps[py1],
    ));
    assert(ps.contains(qs[qx0]) && ps.contains(qs[qx1]) && ps.contains(qs[qy0]) && ps.contains(
        qs[qy1],
    ));
    let j0 = choose|j: int| 0 <= j < qs.len() && qs[j] == ps[px0];
    let j1 = choose|j: int| 0 <= j < qs.len() && qs[j] == ps[px1];
    let j2 = choose|j: int| 0 <= j < qs.len() && qs[j] == ps[py0];
    let j3 = choose|j: int| 0 <= j < qs.len() && qs[j] == ps[py1];
    let k0 = choose|j: int| 0 <= j < ps.len() && ps[j] == qs[qx0];
    let k1 = choose|j: int| 0 <= j < ps.len() && ps[j] == qs[qx1];
    let k2 = choose|j: int| 0 <= j < ps.len() && ps[j] == qs[qy0];
    let k3 = choose|j: int| 0 <= j < ps.len() && ps[j] == qs[qy1];
    assert(b.x0 <= qs[j0].x && qs[j1].x <= b.x1 && b.y0 <= qs[j2].y && qs[j3].y <= b.y1);
    assert(a.x0 <= ps[k0].x && ps[k1].x <= a.x1 && a.y0 <= ps[k2].y && ps[k3].y <= a.y1);
}


/// A contour: a move to `first`, then the segments, then, if it is
/// closed, the closing command.
pub open spec fn contour(first: Point, segments: Seq<PathCommand>, closed: bool) -> Seq<
    PathCommand,
> {
    if closed {
        opened(first, segments).push(PathCommand::Close)
    } else {
        opened(first, segments)
    }
}

/// The segments of a contour with the closing line drawn out: a closed
/// contour that does not end where it began gets a line back to its
/// start.
pub open spec fn drawn_out(first: Point, segments: Seq<PathCommand>, closed: bool) -> Seq<
    PathCommand,
> {
    if closed && last_point(first, segments) != first {
        segments.push(PathCommand::LineTo(first))
    } else {
        segments
    }
}

/// The segments drawn backwards, last segment first.
pub open spec fn turned_back(first: Point, segments: Seq<PathCommand>) -> Seq<PathCommand> {
    Seq::new(
        segments.len(),
        |j: int|
            turned(
                start_at(first, segments, segments.len() - 1 - j),
                segments[segments.len() - 1 - j],
            ),
    )
}

/// The trace and the edges of a contour, over its segments with the
/// closing line drawn out.
proof fn whole_contour(first: Point, segments: Seq<PathCommand>, closed: bool)
    requires
        segments_only(segments),
    ensures
        segments_only(drawn_out(first, segments, closed)),
        trace(contour(first, segments, closed)) == (Trace {
            first,
            current: last_point(first, segments),
            closed,
            segments: traced(first, drawn_out(first, segments, closed)),
        }),
        twice_area(contour(first, segments, closed)) == cross_sum(
            chords(first, drawn_out(first, segments, closed)),
        ),
        forall|q: DoubledPoint|
            crossings(q, #[trigger] edges(contour(first, segments, closed))) == crossings(
                q,
                chords(first, drawn_out(first, segments, closed)),
            ),
        end_points(contour(first, segments, closed)) == seq![first] + ends(segments),
{
    open_contour(first, segments);
    let c = contour(first, segments, closed);
    let x = drawn_out(first, segments, closed);
    let n = segments.len() as int;
    let at = last_point(first, segments);
    if closed {
        let open = opened(first, segments);
        assert(c.drop_last() =~= open);
        assert(c.last() == PathCommand::Close);
        assert(trace(c) == trace_step(trace(open), PathCommand::Close));
        assert(edge_of(pen_after(open), PathCommand::Close) == Some(Edge { from: at, to: first }));
        assert(edges(c) == chords(first, segments).push(Edge { from: at, to: first }));
        assert(end_points(c) == end_points(open));
        if at != first {
            assert(x.last().is_segment());
            assert(start_at(first, x, n) == at);
            assert(traced(first, x) =~= traced(first, segments).push(
                (PathCommand::LineTo(at), first),
            ));
            assert(chords(first, x) =~= chords(first, segments).push(
                Edge { from: at, to: first },
            ));
        } else {
            let shut = Edge { from: first, to: first };
            let es = chords(first, segments).push(shut);
            assert(es.drop_last() =~= chords(first, segments));
            assert(cross(first, first) == 0);
            assert forall|q: DoubledPoint| crossings(q, es) == crossings(
                q,
                chords(first, segments),
            ) by {
                assert(!ray_meets(q, shut));
            }
        }
    }
}

/// The reverse of a contour is the contour of its segments drawn
/// backwards, from where the last of them ended.
pub proof fn reverse_of_contour(first: Point, segments: Seq<PathCommand>, closed: bool)
    requires
        segments_only(segments),
    ensures
        ({
            let x = drawn_out(first, segments, closed);
            reversed(contour(first, segments, closed)) == if x.len() == 0 {
                contour(first, Seq::empty(), false)
            } else {
                contour(last_point(first, x), turned_back(first, x), closed)
            }
        }),
        segments_only(turned_back(first, drawn_out(first, segments, closed))),
{
    whole_contour(first, segments, closed);
    let c = contour(first, segments, closed);
    let x = drawn_out(first, segments, closed);
    let t = trace(c);
    let n = x.len() as int;
    if n == 0 {
        assert(reversed(c) =~= contour(first, Seq::empty(), false));
    } else {
        assert(t.segments.last().1 == last_point(first, x));
        assert(backward(t.segments) =~= turned_back(first, x));
        assert(reversed(c) =~= contour(last_point(first, x), turned_back(first, x), closed));
    }
    assert forall|j: int| 0 <= j < n implies (#[trigger] turned_back(first, x)[j]).is_segment() by {
        assert(x[n - 1 - j].is_segment());
    }
}

/// Reversing a contour negates its area, and leaves alone which points
/// are inside it and the box around it.
pub proof fn reverse_keeps_measures(first: Point, segments: Seq<PathCommand>, closed: bool)
    requires
        segments_only(segments),
    ensures
        twice_area(reversed(contour(first, segments, closed))) == -twice_area(
            contour(first, segments, closed),
        ),
        forall|q: DoubledPoint|
            inside(q, reversed(contour(first, segments, closed))) == #[trigger] inside(
                q,
                contour(first, segments, closed),
            ),
        bounding_box(reversed(contour(first, segments, closed))) == bounding_box(
            contour(first, segments, closed),
        ),
{
    let c = contour(first, segments, closed);
    let r = reversed(c);
    let x = drawn_out(first, segments, closed);
    let n = x.len() as int;
    let m = segments.len() as int;
    whole_contour(first, segments, closed);
    reverse_of_contour(first, segments, closed);
    if n == 0 {
        let none = Seq::<PathCommand>::empty();
        whole_contour(first, none, false);
        assert(chords(first, x) =~= chords(first, drawn_out(first, none, false)));
        assert(ends(segments) =~= ends(none));
        assert forall|q: DoubledPoint| inside(q, r) == #[trigger] inside(q, c) by {
            assert(crossings(q, edges(r)) == crossings(q, chords(first, none)));
            assert(crossings(q, edges(c)) == crossings(q, chords(first, x)));
        }
    } else {
        let start = last_point(first, x);
        let back = turned_back(first, x);
        whole_contour(start, back, closed);
        assert(last_point(start, back) == first);
        if closed {
            assert(start == first);
        }
        assert(drawn_out(start, back, closed) == back);
        let es = chords(first, x);
        assert(chords(start, back) =~= walked_back(es)) by {
            assert forall|j: int| 0 <= j < n implies chord(start, back, j) == flipped(
                es[n - 1 - j],
            ) by {
                assert(end_of(back[j]) == start_at(first, x, n - 1 - j));
                if j > 0 {
                    assert(end_of(back[j - 1]) == start_at(first, x, n - j));
                }
            }
        }
        cross_sum_walked_back(es);
        assert forall|q: DoubledPoint| inside(q, r) == #[trigger] inside(q, c) by {
            crossings_walked_back(q, es);
            assert(crossings(q, edges(r)) == crossings(q, chords(start, back)));
            assert(crossings(q, edges(c)) == crossings(q, es));
        }
        let ps = seq![first] + ends(segments);
        let qs = seq![start] + ends(back);
        assert(among(ps, qs)) by {
            assert forall|i: int| 0 <= i < ps.len() implies qs.contains(#[trigger] ps[i]) by {
                if i == 0 {
                    assert(qs[n] == ends(back)[n - 1]);
                    assert(qs[n] == first);
                } else {
                    let k = i - 1;
                    assert(ps[i] == end_of(segments[k]));
                    assert(x[k] == segments[k]);
                    if k + 1 < n {
                        assert(qs[n - 1 - k] == ends(back)[n - 2 - k]);
                        assert(qs[n - 1 - k] == ps[i]);
                    } else {
                        assert(qs[0] == ps[i]);
                    }
                }
            }
        }
        assert(among(qs, ps)) by {
            assert forall|i: int| 0 <= i < qs.len() implies ps.contains(#[trigger] qs[i]) by {
                if i == 0 {
                    if n == m {
                        assert(x[n - 1] == segments[m - 1]);
                        assert(ps[m] == qs[0]);
                    } else {
                        assert(ps[0] == qs[0]);
                    }
                } else {
                    let k = n - i;
                    assert(qs[i] == start_at(first, x, k));
                    if k == 0 {
                        assert(ps[0] == qs[i]);
                    } else {
                        assert(x[k - 1] == segments[k - 1]);
                        assert(ps[k] == qs[i]);
                    }
                }
            }
        }
        bounds_of_same_points(ps, qs);
    }
}


/// Whether a closing command ends the commands.
pub open spec fn shut(c: Seq<PathCommand>) -> bool {
    c.len() >= 2 && c.last() is Close
}

/// The commands between the first and the closing one.
pub open spec fn body(c: Seq<PathCommand>) -> Seq<PathCommand> {
    c.subrange(
        1,
        if shut(c) {
            c.len() - 1
        } else {
            c.len() as int
        },
    )
}

/// Whether the commands are one well-formed contour: a move, then lines
/// and curves only, then, possibly, a closing command.
pub open spec fn well_formed(c: Seq<PathCommand>) -> bool {
    c.len() >= 1 && c[0] is MoveTo && segments_only(body(c))
}

/// Whether a path is made of well-formed contours: it begins with a move,
/// and after a closing command comes a move or nothing.
pub open spec fn tidy(path: Seq<PathCommand>) -> bool {
    &&& path.len() > 0 ==> path[0].is_move()
    &&& forall|i: int|
        0 <= i < path.len() - 1 && (#[trigger] path[i]) is Close ==> path[i + 1].is_move()
}

/// A well-formed contour is the contour of its first point, its body and
/// its closing.
proof fn well_formed_is_contour(c: Seq<PathCommand>)
    requires
        well_formed(c),
    ensures
        c == contour(end_of(c[0]), body(c), shut(c)),
{
    assert(c =~= contour(end_of(c[0]), body(c), shut(c)));
}

/// The contour of a first point, segments and a closing is well formed.
proof fn contour_is_well_formed(first: Point, segments: Seq<PathCommand>, closed: bool)
    requires
        segments_only(segments),
    ensures
        well_formed(contour(first, segments, closed)),
{
    let c = contour(first, segments, closed);
    if !closed && segments.len() > 0 {
        assert(c.last() == segments.last());
        assert(segments.last().is_segment());
    }
    assert(body(c) =~= segments);
}

/// The contours of a tidy path are well formed.
proof fn split_of_tidy(path: Seq<PathCommand>)
    requires
        tidy(path),
    ensures
        forall|i: int|
            0 <= i < split(path).done.len() ==> well_formed(#[trigger] split(path).done[i]),
        path.len() == 0 ==> split(path).current.len() == 0,
        path.len() > 0 ==> well_formed(split(path).current) && split(path).current.last()
            == path.last(),
    decreases path.len(),
{
    if path.len() > 0 {
        let front = path.drop_last();
        let last = path.last();
        assert(tidy(front)) by {
            assert forall|i: int| 0 <= i < front.len() - 1 && (#[trigger] front[i]) is Close
                implies front[i + 1].is_move() by {
                assert(path[i] is Close);
            }
        }
        split_of_tidy(front);
        let s = split(front);
        let t = split(path);
        if last.is_move() {
            assert(t.current =~= seq![last]);
            assert(body(t.current) =~= Seq::<PathCommand>::empty());
        } else {
            assert(front.len() > 0) by {
                if front.len() == 0 {
                    assert(path[0] == last);
                }
            }
            let n = path.len() as int;
            assert(path[n - 2] == front.last());
            assert(!(s.current.last() is Close)) by {
                if path[n - 2] is Close {
                    assert(path[n - 2 + 1].is_move());
                }
            }
            let c = s.current;
            let d = t.current;
            assert(d == c.push(last));
            assert(!shut(c));
            if last is Close {
                assert(body(d) =~= body(c));
            } else {
                assert(body(d) =~= body(c).push(last));
                assert forall|i: int| 0 <= i < body(d).len() implies (#[trigger] body(
                    d,
                )[i]).is_segment() by {
                    if i < body(c).len() {
                        assert(body(c)[i].is_segment());
                    }
                }
            }
        }
    }
}

/// The contours of a tidy path are well formed.
pub proof fn contours_of_tidy(path: Seq<PathCommand>)
    requires
        tidy(path),
    ensures
        forall|i: int|
            0 <= i < contours_of(path).len() ==> well_formed(#[trigger] contours_of(path)[i]),
{
    split_of_tidy(path);
}

/// A well-formed contour after a path is the last contour of the whole.
proof fn split_with_contour(path: Seq<PathCommand>, c: Seq<PathCommand>)
    requires
        well_formed(c),
    ensures
        split(path + c) == (Split { done: contours_of(path), current: c }),
        contours_of(path + c) == contours_of(path).push(c),
    decreases c.len(),
{
    let whole = path + c;
    let last = c.last();
    if c.len() == 1 {
        assert(whole.drop_last() =~= path);
        assert(whole.last() == last);
        assert(split(whole).current =~= c);
    } else {
        let front = c.drop_last();
        assert(well_formed(front)) by {
            if shut(c) {
                assert(body(front) =~= body(c)) by {
                    if front.len() >= 2 {
                        assert(front.last() == body(c)[body(c).len() - 1]);
                        assert(body(c)[body(c).len() - 1].is_segment());
                    }
                }
            } else {
                assert(body(front) =~= body(c).drop_last()) by {
                    if front.len() >= 2 {
                        assert(front.last() == body(c)[body(c).len() - 2]);
                        assert(body(c)[body(c).len() - 2].is_segment());
                    }
                }
                assert forall|i: int| 0 <= i < body(front).len() implies (#[trigger] body(
                    front,
                )[i]).is_segment() by {
                    assert(body(c)[i].is_segment());
                }
            }
        }
        split_with_contour(path, front);
        assert(whole.drop_last() =~= path + front);
        assert(whole.last() == last);
        assert(!last.is_move()) by {
            if !shut(c) {
                assert(last == body(c)[body(c).len() - 1]);
                assert(body(c)[body(c).len() - 1].is_segment());
            }
        }
        assert(split(whole).current =~= c);
    }
}

/// Well-formed contours laid end to end split into themselves.
pub proof fn contours_of_concat(parts: Seq<Seq<PathCommand>>)
    requires
        forall|i: int| 0 <= i < parts.len() ==> well_formed(#[trigger] parts[i]),
    ensures
        contours_of(concat(parts)) == parts,
    decreases parts.len(),
{
    if parts.len() == 0 {
        assert(contours_of(concat(parts)) =~= parts);
    } else {
        let front = parts.drop_last();
        assert forall|i: int| 0 <= i < front.len() implies well_formed(#[trigger] front[i]) by {
            assert(front[i] == parts[i]);
        }
        contours_of_concat(front);
        split_with_contour(concat(front), parts.last());
        assert(front.push(parts.last()) =~= parts);
    }
}

/// Where nothing from `from` on has a smaller key, nothing is found.
proof fn first_smaller_scan(order: Seq<int>, keys: Seq<int>, key: int, from: int)
    requires
        0 <= from <= order.len(),
    ensures
        from <= first_smaller(order, keys, key, from) <= order.len(),
        forall|j: int|
            from <= j < first_smaller(order, keys, key, from) ==> keys[#[trigger] order[j]] >= key,
        first_smaller(order, keys, key, from) < order.len() ==> keys[order[first_smaller(
            order,
            keys,
            key,
            from,
        )]] < key,
    decreases order.len() - from,
{
    if from < order.len() && !(keys[order[from]] < key) {
        first_smaller_scan(order, keys, key, from + 1);
    }
}

/// A ranking runs from greater keys to smaller ones.
pub proof fn ranking_descends(keys: Seq<int>, n: nat)
    ensures
        forall|a: int, b: int|
            0 <= a < b < n ==> keys[#[trigger] ranking(keys, n)[a]] >= keys[#[trigger] ranking(
                keys,
                n,
            )[b]],
    decreases n,
{
    if n > 0 {
        let placed = ranking(keys, (n - 1) as nat);
        let key = keys[n - 1];
        let at = first_smaller(placed, keys, key, 0);
        ranking_descends(keys, (n - 1) as nat);
        ranking_in_range(keys, (n - 1) as nat);
        first_smaller_scan(placed, keys, key, 0);
        let r = ranking(keys, n);
        assert(r == placed.insert(at, n - 1));
        assert forall|a: int, b: int| 0 <= a < b < n implies keys[#[trigger] r[a]]
            >= keys[#[trigger] r[b]] by {
            let ka = if a < at { keys[placed[a]] } else if a == at { key } else { keys[placed[a - 1]] };
            let kb = if b < at { keys[placed[b]] } else if b == at { key } else { keys[placed[b - 1]] };
            assert(keys[r[a]] == ka);
            assert(keys[r[b]] == kb);
            if a < at && b == at {
                assert(keys[placed[a]] >= key);
            } else if a < at && b > at {
                assert(keys[placed[a]] >= keys[placed[b - 1]]);
            } else if a == at {
                if at < b - 1 {
                    assert(keys[placed[at]] >= keys[placed[b - 1]]);
                }
            } else if a > at {
                assert(keys[placed[a - 1]] >= keys[placed[b - 1]]);
            } else {
                assert(keys[placed[a]] >= keys[placed[b]]);
            }
        }
    }
}

/// Keys that already run from greater to smaller are ranked as they
/// stand.
pub proof fn ranking_of_descending(keys: Seq<int>, n: nat)
    requires
        n <= keys.len(),
        forall|a: int, b: int| 0 <= a < b < n ==> #[trigger] keys[a] >= #[trigger] keys[b],
    ensures
        ranking(keys, n) == Seq::new(n, |i: int| i),
    decreases n,
{
    if n == 0 {
        assert(ranking(keys, n) =~= Seq::new(n, |i: int| i));
    } else {
        ranking_of_descending(keys, (n - 1) as nat);
        let placed = ranking(keys, (n - 1) as nat);
        let key = keys[n - 1];
        first_smaller_scan(placed, keys, key, 0);
        let at = first_smaller(placed, keys, key, 0);
        if at < placed.len() {
            assert(placed[at] == at);
            assert(keys[at] >= keys[n - 1]);
        }
        assert(placed.insert(at, n - 1) =~= Seq::new(n, |i: int| i));
    }
}

/// Contours with the same boxes and the same insides surround a point
/// alike.
proof fn same_enclosing_count(
    a: Seq<Seq<PathCommand>>,
    b: Seq<Seq<PathCommand>>,
    q: DoubledPoint,
    upto: nat,
)
    requires
        upto <= a.len(),
        upto <= b.len(),
        forall|j: int| 0 <= j < upto ==> encloses(#[trigger] a[j], q) == encloses(b[j], q),
    ensures
        enclosing_count(a, q, upto) == enclosing_count(b, q, upto),
    decreases upto,
{
    if upto > 0 {
        same_enclosing_count(a, b, q, (upto - 1) as nat);
        assert(encloses(a[upto - 1], q) == encloses(b[upto - 1], q));
    }
}

/// A contour drawn as its nesting level asks stays as it is when it is
/// asked again; it is well formed, and has the box and the inside of the
/// contour as it was.
pub proof fn oriented_is_settled(c: Seq<PathCommand>, level: nat)
    requires
        well_formed(c),
    ensures
        well_formed(oriented(c, level)),
        oriented(oriented(c, level), level) == oriented(c, level),
        !needs_reversal(twice_area(oriented(c, level)), level),
        bounding_box(oriented(c, level)) == bounding_box(c),
        forall|q: DoubledPoint| inside(q, oriented(c, level)) == #[trigger] inside(q, c),
{
    if needs_reversal(twice_area(c), level) {
        let first = end_of(c[0]);
        let segments = body(c);
        let closed = shut(c);
        well_formed_is_contour(c);
        reverse_of_contour(first, segments, closed);
        reverse_keeps_measures(first, segments, closed);
        let x = drawn_out(first, segments, closed);
        if x.len() == 0 {
            contour_is_well_formed(first, Seq::empty(), false);
        } else {
            contour_is_well_formed(last_point(first, x), turned_back(first, x), closed);
        }
    }
}

/// A tidy path that has been rewritten for the non-zero rule is left as
/// it is when it is rewritten again. Of a path that goes on after a
/// closing command without a move this need not hold: reversing such a
/// contour does not give back its edges.
pub proof fn normalizing_twice(path: Seq<PathCommand>, rule: FillRule)
    requires
        tidy(path),
    ensures
        normalized(normalized(path, rule), rule) == normalized(path, rule),
{
    match rule {
        FillRule::NonZero => {},
        FillRule::EvenOdd => {
            let cs = contours_of(path);
            let n = cs.len();
            if n > 1 {
                let keys = box_areas(cs);
                let order = ranking(keys, n);
                let sorted = largest_first(cs);
                let wound = rewound(cs);
                let once = concat(wound);
                assert(once == evenodd_fixed(path));
                ranking_in_range(keys, n);
                ranking_descends(keys, n);
                contours_of_tidy(path);
                assert forall|i: int| 0 <= i < n implies well_formed(#[trigger] sorted[i]) by {
                    assert(0 <= order[i] < n);
                    assert(sorted[i] == cs[order[i]]);
                }
                assert forall|i: int| 0 <= i < n implies well_formed(#[trigger] wound[i])
                    && bounding_box(wound[i]) == bounding_box(sorted[i]) && oriented(
                    wound[i],
                    nesting_level(sorted, i),
                ) == wound[i] && (forall|q: DoubledPoint|
                    inside(q, wound[i]) == #[trigger] inside(q, sorted[i])) by {
                    oriented_is_settled(sorted[i], nesting_level(sorted, i));
                }
                contours_of_concat(wound);
                let again_keys = box_areas(wound);
                assert forall|a: int, b: int| 0 <= a < b < n implies #[trigger] again_keys[a]
                    >= #[trigger] again_keys[b] by {
                    assert(again_keys[a] == keys[order[a]]);
                    assert(again_keys[b] == keys[order[b]]);
                }
                ranking_of_descending(again_keys, n);
                assert(largest_first(wound) =~= wound);
                let again = rewound(wound);
                assert forall|i: int| 0 <= i < n implies #[trigger] again[i] == wound[i] by {
                    let q = bounding_box(wound[i]).center();
                    assert forall|j: int| 0 <= j < i implies encloses(#[trigger] wound[j], q)
                        == encloses(sorted[j], q) by {
                        assert(inside(q, wound[j]) == inside(q, sorted[j]));
                    }
                    same_enclosing_count(wound, sorted, q, i as nat);
                    assert(nesting_level(wound, i) == nesting_level(sorted, i));
                }
                assert(again =~= wound);
            }
        },
    }
}


/// What rewriting leaves behind. The contours of a tidy path of more than
/// one contour that has been rewritten for the non-zero rule are as many
/// as before, stand by descending area of bounding box, and each runs as
/// its nesting level asks: at an even level not counter-clockwise, at an
/// odd level not clockwise.
pub proof fn rewritten_path_is_wound(path: Seq<PathCommand>)
    requires
        tidy(path),
        contours_of(path).len() > 1,
    ensures
        contours_of(evenodd_fixed(path)) == rewound(contours_of(path)),
        contours_of(evenodd_fixed(path)).len() == contours_of(path).len(),
        forall|a: int, b: int|
            0 <= a < b < contours_of(path).len() ==> bounding_box(
                #[trigger] contours_of(evenodd_fixed(path))[a],
            ).area() >= bounding_box(#[trigger] contours_of(evenodd_fixed(path))[b]).area(),
        forall|i: int|
            0 <= i < contours_of(path).len() ==> !needs_reversal(
                twice_area(#[trigger] contours_of(evenodd_fixed(path))[i]),
                nesting_level(contours_of(evenodd_fixed(path)), i),
            ),
{
    let cs = contours_of(path);
    let n = cs.len();
    let keys = box_areas(cs);
    let order = ranking(keys, n);
    let sorted = largest_first(cs);
    let wound = rewound(cs);
    ranking_in_range(keys, n);
    ranking_descends(keys, n);
    contours_of_tidy(path);
    assert forall|i: int| 0 <= i < n implies well_formed(#[trigger] sorted[i]) by {
        assert(0 <= order[i] < n);
        assert(sorted[i] == cs[order[i]]);
    }
    assert forall|i: int| 0 <= i < n implies well_formed(#[trigger] wound[i]) && bounding_box(
        wound[i],
    ) == bounding_box(sorted[i]) && !needs_reversal(
        twice_area(wound[i]),
        nesting_level(sorted, i),
    ) && (forall|q: DoubledPoint| inside(q, wound[i]) == #[trigger] inside(q, sorted[i])) by {
        oriented_is_settled(sorted[i], nesting_level(sorted, i));
    }
    contours_of_concat(wound);
    assert forall|a: int, b: int| 0 <= a < b < n implies bounding_box(#[trigger] wound[a]).area()
        >= bounding_box(#[trigger] wound[b]).area() by {
        assert(bounding_box(sorted[a]).area() == keys[order[a]]);
        assert(bounding_box(sorted[b]).area() == keys[order[b]]);
    }
    assert forall|i: int| 0 <= i < n implies !needs_reversal(
        twice_area(#[trigger] wound[i]),
        nesting_level(wound, i),
    ) by {
        let q = bounding_box(wound[i]).center();
        assert forall|j: int| 0 <= j < i implies encloses(#[trigger] wound[j], q) == encloses(
            sorted[j],
            q,
        ) by {
            assert(inside(q, wound[j]) == inside(q, sorted[j]));
        }
        same_enclosing_count(wound, sorted, q, i as nat);
        assert(nesting_level(wound, i) == nesting_level(sorted, i));
    }
}

} // verus!
