//! What holds of every outline: it begins with a move, holds no cubic,
//! and keeps to the range of glyph coordinates.

use vstd::prelude::*;
use crate::arith::nearest_between;
use crate::curves::{
    close_enough, cursor_after, first_half, halves_within, pieces, quadratic_path,
    quadratic_path_has_no_cubic, quadratics, scale_at, scale_grows, second_half,
    trial_quadratic, within, without_cubic, Bezier, Cubic, MAX_DEPTH, TOLERANCE,
};
use crate::glyph::{
    all_in_range, all_points, command_points, point_in_range, shape_error, ShapeError,
};
use crate::outline::{
    command_fits, extent, font_command, font_path, outline_error, outline_of, COORD_MAX,
    COORD_MIN,
};
use crate::path::{concat, FillRule, PathCommand};
use crate::winding::{
    backward, box_areas, contours_of, largest_first, normalized, ranking, ranking_in_range,
    reversed, rewound, split, trace,
};

verus! {

/// Whether every point of a command keeps to the range of glyph
/// coordinates.
pub open spec fn command_in_range(command: PathCommand) -> bool {
    match command {
        PathCommand::MoveTo(p) => point_in_range(p),
        PathCommand::LineTo(p) => point_in_range(p),
        PathCommand::QuadTo(c, p) => point_in_range(c) && point_in_range(p),
        PathCommand::CubicTo(c1, c2, p) => point_in_range(c1) && point_in_range(c2)
            && point_in_range(p),
        PathCommand::Close => true,
    }
}

/// Whether every point of a path keeps to the range of glyph coordinates.
pub open spec fn path_in_range(path: Seq<PathCommand>) -> bool {
    forall|i: int| 0 <= i < path.len() ==> command_in_range(#[trigger] path[i])
}

/// Whether a path that is not empty begins with a move.
pub open spec fn begins_with_move(path: Seq<PathCommand>) -> bool {
    path.len() > 0 ==> path[0].is_move()
}

/// The points of a path in range, one by one, are its commands in range.
proof fn points_of_path_in_range(path: Seq<PathCommand>)
    requires
        path_in_range(path),
    ensures
        all_in_range(all_points(path)),
    decreases path.len(),
{
    if path.len() > 0 {
        let front = path.drop_last();
        assert forall|i: int| 0 <= i < front.len() implies command_in_range(
            #[trigger] front[i],
        ) by {
            assert(front[i] == path[i]);
        }
        points_of_path_in_range(front);
        let points = all_points(front);
        let last = command_points(path.last());
        assert(command_in_range(path[path.len() - 1]));
        assert forall|k: int| 0 <= k < (points + last).len() implies point_in_range(
            #[trigger] (points + last)[k],
        ) by {
            if k >= points.len() {
                assert((points + last)[k] == last[k - points.len()]);
            }
        }
    }
}

/// The contours of a path in range are in range and not empty, and if the
/// path begins with a move, so does each of them.
proof fn split_in_range(path: Seq<PathCommand>)
    requires
        path_in_range(path),
        begins_with_move(path),
    ensures
        path_in_range(split(path).current),
        begins_with_move(split(path).current),
        path.len() > 0 ==> split(path).current.len() > 0,
        forall|i: int|
            0 <= i < split(path).done.len() ==> {
                let c = #[trigger] split(path).done[i];
                path_in_range(c) && c.len() > 0 && c[0].is_move()
            },
    decreases path.len(),
{
    if path.len() > 0 {
        let front = path.drop_last();
        assert(path_in_range(front)) by {
            assert forall|i: int| 0 <= i < front.len() implies command_in_range(
                #[trigger] front[i],
            ) by {
                assert(front[i] == path[i]);
            }
        }
        assert(begins_with_move(front)) by {
            if front.len() > 0 {
                assert(front[0] == path[0]);
            }
        }
        split_in_range(front);
        assert(command_in_range(path[path.len() - 1]));
        if front.len() == 0 {
            assert(path[0] == path.last());
        }
    }
}

/// The contours of a path in range that begins with a move are in range,
/// not empty, and begin with a move.
proof fn contours_in_range(path: Seq<PathCommand>)
    requires
        path_in_range(path),
        begins_with_move(path),
    ensures
        forall|i: int|
            0 <= i < contours_of(path).len() ==> {
                let c = #[trigger] contours_of(path)[i];
                path_in_range(c) && c.len() > 0 && c[0].is_move()
            },
{
    split_in_range(path);
}

/// The trace of a contour in range is in range.
proof fn trace_in_range(contour: Seq<PathCommand>)
    requires
        path_in_range(contour),
    ensures
        point_in_range(trace(contour).first),
        point_in_range(trace(contour).current),
        forall|j: int|
            0 <= j < trace(contour).segments.len() ==> command_in_range(
                (#[trigger] trace(contour).segments[j]).0,
            ) && point_in_range(trace(contour).segments[j].1),
    decreases contour.len(),
{
    if contour.len() > 0 {
        let front = contour.drop_last();
        assert(path_in_range(front)) by {
            assert forall|i: int| 0 <= i < front.len() implies command_in_range(
                #[trigger] front[i],
            ) by {
                assert(front[i] == contour[i]);
            }
        }
        trace_in_range(front);
        assert(command_in_range(contour[contour.len() - 1]));
    }
}

/// The reverse of a contour in range is in range, and begins with a move.
pub proof fn reversed_in_range(contour: Seq<PathCommand>)
    requires
        path_in_range(contour),
    ensures
        path_in_range(reversed(contour)),
        reversed(contour).len() > 0,
        reversed(contour)[0].is_move(),
{
    trace_in_range(contour);
    let t = trace(contour);
    let r = reversed(contour);
    let n = t.segments.len() as int;
    if n > 0 {
        assert forall|i: int| 0 <= i < r.len() implies command_in_range(#[trigger] r[i]) by {
            if i == 0 {
                assert(r[0] == PathCommand::MoveTo(t.segments[n - 1].1));
            } else if i <= n {
                assert(r[i] == backward(t.segments)[i - 1]);
                assert(r[i] == t.segments[n - 1 - (i - 1)].0);
            } else {
                assert(r[i] == PathCommand::Close);
            }
        }
    }
}

/// Contours in range, laid end to end, are a path in range; it begins
/// with a move if the first contour does.
proof fn concat_in_range(parts: Seq<Seq<PathCommand>>)
    requires
        forall|i: int|
            0 <= i < parts.len() ==> {
                let c = #[trigger] parts[i];
                path_in_range(c) && c.len() > 0 && c[0].is_move()
            },
    ensures
        path_in_range(concat(parts)),
        begins_with_move(concat(parts)),
    decreases parts.len(),
{
    if parts.len() > 0 {
        let front = parts.drop_last();
        assert forall|i: int| 0 <= i < front.len() implies {
            let c = #[trigger] front[i];
            path_in_range(c) && c.len() > 0 && c[0].is_move()
        } by {
            assert(front[i] == parts[i]);
        }
        concat_in_range(front);
        let a = concat(front);
        let b = parts.last();
        assert(path_in_range(b) && b.len() > 0 && b[0].is_move()) by {
            assert(b == parts[parts.len() - 1]);
        }
        assert forall|i: int| 0 <= i < (a + b).len() implies command_in_range(
            #[trigger] (a + b)[i],
        ) by {
            if i >= a.len() {
                assert((a + b)[i] == b[i - a.len()]);
            }
        }
        if a.len() == 0 {
            assert((a + b)[0] == b[0]);
        }
    }
}

/// A path in range that begins with a move is so too when it has been
/// rewritten for the non-zero rule.
pub proof fn normalized_in_range(path: Seq<PathCommand>, rule: FillRule)
    requires
        path_in_range(path),
        begins_with_move(path),
    ensures
        path_in_range(normalized(path, rule)),
        begins_with_move(normalized(path, rule)),
{
    let cs = contours_of(path);
    if rule == FillRule::EvenOdd && cs.len() > 1 {
        let n = cs.len();
        let order = ranking(box_areas(cs), n);
        let sorted = largest_first(cs);
        let wound = rewound(cs);
        contours_in_range(path);
        ranking_in_range(box_areas(cs), n);
        assert forall|i: int| 0 <= i < wound.len() implies {
            let c = #[trigger] wound[i];
            path_in_range(c) && c.len() > 0 && c[0].is_move()
        } by {
            assert(0 <= order[i] < n);
            assert(sorted[i] == cs[order[i]]);
            reversed_in_range(sorted[i]);
        }
        concat_in_range(wound);
    }
}

/// The quadratics that stand for a piece lie between the bounds that the
/// piece lies between.
proof fn quadratics_within(b: Bezier, k: nat, tolerance: int, limit: nat)
    requires
        within(b, k, COORD_MIN as int, COORD_MAX as int),
    ensures
        path_in_range(quadratics(b, k, tolerance, limit)),
    decreases limit - k,
{
    let lo = COORD_MIN as int;
    let hi = COORD_MAX as int;
    let s = scale_at(k);
    scale_grows(0, k);
    let whole = pieces(b, k, tolerance, limit);
    let qs = quadratics(b, k, tolerance, limit);
    if k >= limit || close_enough(b, k, tolerance) {
        assert(whole =~= seq![(b, k)]);
        assert(lo * (2 * s) == 2 * (lo * s) && hi * (2 * s) == 2 * (hi * s)) by (nonlinear_arith);
        nearest_between(b.bx + b.cx, 2 * s, lo, hi);
        nearest_between(b.by + b.cy, 2 * s, lo, hi);
        nearest_between(b.dx, s, lo, hi);
        nearest_between(b.dy, s, lo, hi);
        assert(qs[0] == trial_quadratic(b, k));
        assert(command_in_range(qs[0]));
    } else {
        let first = first_half(b);
        let second = second_half(b);
        halves_within(b, k, lo, hi);
        quadratics_within(first, k + 1, tolerance, limit);
        quadratics_within(second, k + 1, tolerance, limit);
        let front = quadratics(first, k + 1, tolerance, limit);
        let back = quadratics(second, k + 1, tolerance, limit);
        assert(whole =~= pieces(first, k + 1, tolerance, limit) + pieces(
            second,
            k + 1,
            tolerance,
            limit,
        ));
        assert(qs =~= front + back);
        assert forall|i: int| 0 <= i < qs.len() implies command_in_range(#[trigger] qs[i]) by {
            if i < front.len() {
                assert(qs[i] == front[i]);
            } else {
                assert(qs[i] == back[i - front.len()]);
            }
        }
    }
}

/// The pen of a path in range rests in range.
proof fn cursor_in_range(path: Seq<PathCommand>)
    requires
        path_in_range(path),
    ensures
        point_in_range(cursor_after(path)),
    decreases path.len(),
{
    if path.len() > 0 {
        let front = path.drop_last();
        assert forall|i: int| 0 <= i < front.len() implies command_in_range(
            #[trigger] front[i],
        ) by {
            assert(front[i] == path[i]);
        }
        cursor_in_range(front);
        assert(command_in_range(path[path.len() - 1]));
    }
}

/// A path in range that begins with a move is so too when quadratics have
/// taken the place of its cubics.
pub proof fn quadratic_path_in_range(path: Seq<PathCommand>)
    requires
        path_in_range(path),
        begins_with_move(path),
    ensures
        path_in_range(quadratic_path(path, TOLERANCE)),
        begins_with_move(quadratic_path(path, TOLERANCE)),
        path.len() > 0 ==> quadratic_path(path, TOLERANCE).len() > 0,
    decreases path.len(),
{
    if path.len() > 0 {
        let front = path.drop_last();
        let last = path.last();
        assert(path_in_range(front)) by {
            assert forall|i: int| 0 <= i < front.len() implies command_in_range(
                #[trigger] front[i],
            ) by {
                assert(front[i] == path[i]);
            }
        }
        assert(begins_with_move(front)) by {
            if front.len() > 0 {
                assert(front[0] == path[0]);
            }
        }
        quadratic_path_in_range(front);
        cursor_in_range(front);
        assert(command_in_range(path[path.len() - 1]));
        let cursor = cursor_after(front);
        let a = quadratic_path(front, TOLERANCE);
        let b = without_cubic(cursor, last, TOLERANCE);
        match last {
            PathCommand::CubicTo(c1, c2, p) => {
                let cubic = Cubic { p0: cursor, p1: c1, p2: c2, p3: p };
                assert(scale_at(0) == 1);
                quadratics_within(cubic.unscaled(), 0, TOLERANCE as int, MAX_DEPTH as nat);
            },
            _ => {
                assert(b[0] == last);
            },
        }
        assert forall|i: int| 0 <= i < (a + b).len() implies command_in_range(
            #[trigger] (a + b)[i],
        ) by {
            if i >= a.len() {
                assert((a + b)[i] == b[i - a.len()]);
            }
        }
        if front.len() == 0 {
            assert(path[0] == last);
            assert((a + b)[0] == b[0]);
        } else {
            assert((a + b)[0] == a[0]);
        }
    }
}

/// A path whose commands fit is in range in font units.
proof fn font_path_in_range(path: Seq<PathCommand>, height: int, extent: int)
    requires
        forall|i: int| 0 <= i < path.len() ==> command_fits(#[trigger] path[i], height, extent),
        begins_with_move(path),
    ensures
        path_in_range(font_path(path, height, extent)),
        begins_with_move(font_path(path, height, extent)),
{
    let fp = font_path(path, height, extent);
    assert forall|i: int| 0 <= i < fp.len() implies command_in_range(#[trigger] fp[i]) by {
        assert(command_fits(path[i], height, extent));
        assert(fp[i] == font_command(path[i], height, extent));
    }
}

/// Every outline begins with a move, holds no cubic and keeps to the
/// range of glyph coordinates: it has a glyph shape unless the shape
/// cannot be encoded.
pub proof fn outline_has_shape_unless_too_large(
    path: Seq<PathCommand>,
    width: int,
    height: int,
    rule: FillRule,
)
    requires
        outline_error(path, width, height) is None,
    ensures
        shape_error(outline_of(path, width, height, rule)) is None || shape_error(
            outline_of(path, width, height, rule),
        ) == Some(ShapeError::Unencodable),
{
    let e = extent(width, height);
    let fp = font_path(path, height, e);
    font_path_in_range(path, height, e);
    normalized_in_range(fp, rule);
    let np = normalized(fp, rule);
    quadratic_path_in_range(np);
    let outline = quadratic_path(np, TOLERANCE);
    quadratic_path_has_no_cubic(np, TOLERANCE);
    points_of_path_in_range(outline);
}

} // verus!
