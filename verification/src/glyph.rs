//! Glyph shapes: an outline as the glyph format holds it, contour by
//! contour, each a ring of points that lie on the curve or steer it. The
//! font crate traces the shape; what is proved here is when an outline
//! has one and whether it can be encoded.

use vstd::prelude::*;
use crate::outline::{in_range, COORD_MAX, COORD_MIN};
use crate::path::{PathCommand, Point};
use kurbo::BezPath;
use crate::encode::{
    new_path, on_the_grid, path_commands, push_command, trace_glyph, traced_glyph,
};

verus! {

/// The greatest number of contours that one glyph may have.
pub const MAX_CONTOURS: usize = 32766;

/// The greatest number of points that one glyph may have.
pub const MAX_POINTS: usize = 65535;

/// A point of a contour. A point off the curve is the control point of a
/// quadratic curve between its neighbours.
#[derive(Clone, Copy, Debug, PartialEq, Eq, Structural)]
pub struct CurvePoint {
    pub x: i16,
    pub y: i16,
    pub on_curve: bool,
}

/// A glyph as the glyph format holds it: the box around all its points and
/// its contours. Every contour is closed by the format itself.
#[derive(Debug)]
pub struct GlyphShape {
    pub x_min: i16,
    pub y_min: i16,
    pub x_max: i16,
    pub y_max: i16,
    pub contours: Vec<Vec<CurvePoint>>,
}

pub struct ShapeView {
    pub x_min: i16,
    pub y_min: i16,
    pub x_max: i16,
    pub y_max: i16,
    pub contours: Seq<Seq<CurvePoint>>,
}

pub open spec fn rings(contours: Seq<Vec<CurvePoint>>) -> Seq<Seq<CurvePoint>> {
    contours.map_values(|c: Vec<CurvePoint>| c@)
}

impl View for GlyphShape {
    type V = ShapeView;

    open spec fn view(&self) -> ShapeView {
        ShapeView {
            x_min: self.x_min,
            y_min: self.y_min,
            x_max: self.x_max,
            y_max: self.y_max,
            contours: rings(self.contours@),
        }
    }
}

/// Why an outline has no glyph shape.
#[derive(Clone, Copy, Debug, PartialEq, Eq, Structural)]
pub enum ShapeError {
    /// The outline holds a cubic curve.
    HasCubic,
    /// The outline does not begin with a move.
    MissingMove,
    /// A point lies outside the coordinates that a glyph point may have.
    CoordinateOutOfRange,
    /// The shape cannot be encoded: it has more contours or points than a
    /// glyph may have, or a contour without points.
    Unencodable,
}

/// Every point that the commands name, control points included.
pub open spec fn all_points(outline: Seq<PathCommand>) -> Seq<Point>
    decreases outline.len(),
{
    if outline.len() == 0 {
        Seq::empty()
    } else {
        all_points(outline.drop_last()) + command_points(outline.last())
    }
}

pub open spec fn command_points(command: PathCommand) -> Seq<Point> {
    match command {
        PathCommand::MoveTo(p) => seq![p],
        PathCommand::LineTo(p) => seq![p],
        PathCommand::QuadTo(c, p) => seq![c, p],
        PathCommand::CubicTo(c1, c2, p) => seq![c1, c2, p],
        PathCommand::Close => Seq::empty(),
    }
}

pub open spec fn point_in_range(p: Point) -> bool {
    in_range(p.x as int) && in_range(p.y as int)
}

pub open spec fn total_points(contours: Seq<Seq<CurvePoint>>) -> nat
    decreases contours.len(),
{
    if contours.len() == 0 {
        0
    } else {
        total_points(contours.drop_last()) + contours.last().len()
    }
}

/// The glyph without contours, whose box is at the origin.
pub open spec fn empty_shape() -> ShapeView {
    ShapeView { x_min: 0, y_min: 0, x_max: 0, y_max: 0, contours: Seq::empty() }
}

/// The shape of an outline: nothing for no commands, else the glyph that
/// the font crate traces from the commands.
pub open spec fn shape_of(outline: Seq<PathCommand>) -> ShapeView {
    if outline.len() == 0 {
        empty_shape()
    } else {
        traced_glyph(outline).unwrap()
    }
}

/// Whether a glyph can be encoded: without contours its box is at the
/// origin, it keeps to the format's limits on contours and points, no
/// contour is empty, and every
/// point keeps to the range of glyph coordinates, so that the step from
/// each point to the next fits 16 bits.
pub open spec fn encodable(shape: ShapeView) -> bool {
    &&& shape.contours.len() == 0 ==> shape.x_min == 0 && shape.y_min == 0 && shape.x_max == 0
        && shape.y_max == 0
    &&& shape.contours.len() <= MAX_CONTOURS
    &&& total_points(shape.contours) <= MAX_POINTS
    &&& forall|i: int| 0 <= i < shape.contours.len() ==> (#[trigger] shape.contours[i]).len() > 0
    &&& forall|i: int, k: int|
        0 <= i < shape.contours.len() && 0 <= k < shape.contours[i].len() ==> in_range(
            (#[trigger] shape.contours[i][k]).x as int,
        ) && in_range(shape.contours[i][k].y as int)
}


/// Why an outline has no shape, if it has none.
pub open spec fn shape_error(outline: Seq<PathCommand>) -> Option<ShapeError> {
    if exists|i: int| 0 <= i < outline.len() && (#[trigger] outline[i]).is_cubic() {
        Some(ShapeError::HasCubic)
    } else if outline.len() > 0 && !outline[0].is_move() {
        Some(ShapeError::MissingMove)
    } else if exists|i: int|
        0 <= i < all_points(outline).len() && !point_in_range(#[trigger] all_points(outline)[i]) {
        Some(ShapeError::CoordinateOutOfRange)
    } else if !encodable(shape_of(outline)) {
        Some(ShapeError::Unencodable)
    } else {
        None
    }
}

fn has_cubic(outline: &Vec<PathCommand>) -> (r: bool)
    ensures
        r == exists|i: int| 0 <= i < outline@.len() && (#[trigger] outline@[i]).is_cubic(),
{
    let mut i: usize = 0;
    while i < outline.len()
        invariant
            i <= outline.len(),
            forall|k: int| 0 <= k < i ==> !(#[trigger] outline@[k]).is_cubic(),
        decreases outline.len() - i,
    {
        match outline[i] {
            PathCommand::CubicTo(_, _, _) => {
                return true;
            },
            _ => {},
        }
        i = i + 1;
    }
    false
}

fn point_ok(p: Point) -> (r: bool)
    ensures
        r == point_in_range(p),
{
    COORD_MIN <= p.x && p.x <= COORD_MAX && COORD_MIN <= p.y && p.y <= COORD_MAX
}

fn command_ok(command: PathCommand) -> (r: bool)
    ensures
        r == forall|k: int|
            0 <= k < command_points(command).len() ==> point_in_range(
                #[trigger] command_points(command)[k],
            ),
{
    match command {
        PathCommand::MoveTo(p) => {
            assert(command_points(command)[0] == p);
            point_ok(p)
        },
        PathCommand::LineTo(p) => {
            assert(command_points(command)[0] == p);
            point_ok(p)
        },
        PathCommand::QuadTo(c, p) => {
            assert(command_points(command)[0] == c);
            assert(command_points(command)[1] == p);
            point_ok(c) && point_ok(p)
        },
        PathCommand::CubicTo(c1, c2, p) => {
            assert(command_points(command)[0] == c1);
            assert(command_points(command)[1] == c2);
            assert(command_points(command)[2] == p);
            point_ok(c1) && point_ok(c2) && point_ok(p)
        },
        PathCommand::Close => true,
    }
}

pub open spec fn all_in_range(points: Seq<Point>) -> bool {
    forall|k: int| 0 <= k < points.len() ==> point_in_range(#[trigger] points[k])
}

fn points_ok(outline: &Vec<PathCommand>) -> (r: bool)
    ensures
        r == all_in_range(all_points(outline@)),
{
    let mut i: usize = 0;
    while i < outline.len()
        invariant
            i <= outline.len(),
            all_in_range(all_points(outline@.take(i as int))),
        decreases outline.len() - i,
    {
        assert(outline@.take(i + 1).drop_last() =~= outline@.take(i as int));
        let ghost front = all_points(outline@.take(i as int));
        let ghost back = command_points(outline@[i as int]);
        assert(all_points(outline@.take(i + 1)) == front + back);
        if !command_ok(outline[i]) {
            proof {
                let k = choose|k: int| 0 <= k < back.len() && !point_in_range(#[trigger] back[k]);
                assert(outline@.take(i + 1) =~= outline@.take(outline.len() as int).take(i + 1));
                all_points_grow(outline@, i + 1);
                let whole = all_points(outline@);
                assert(whole[front.len() + k] == (front + back)[front.len() + k]);
                assert((front + back)[front.len() + k] == back[k]);
            }
            return false;
        }
        assert forall|k: int| 0 <= k < (front + back).len() implies point_in_range(
            #[trigger] (front + back)[k],
        ) by {
            if k >= front.len() {
                assert((front + back)[k] == back[k - front.len()]);
            }
        }
        i = i + 1;
    }
    assert(outline@.take(outline.len() as int) =~= outline@);
    true
}

/// The points of a prefix of an outline are a prefix of its points.
proof fn all_points_grow(outline: Seq<PathCommand>, n: int)
    requires
        0 <= n <= outline.len(),
    ensures
        all_points(outline.take(n)).len() <= all_points(outline).len(),
        forall|k: int|
            0 <= k < all_points(outline.take(n)).len() ==> #[trigger] all_points(outline)[k]
                == all_points(outline.take(n))[k],
    decreases outline.len() - n,
{
    if n < outline.len() {
        all_points_grow(outline, n + 1);
        assert(outline.take(n + 1).drop_last() =~= outline.take(n));
    } else {
        assert(outline.take(n) =~= outline);
    }
}

/// The points of the first rings are no more than the points of all.
pub proof fn total_points_grow(contours: Seq<Seq<CurvePoint>>, n: int)
    requires
        0 <= n <= contours.len(),
    ensures
        total_points(contours.take(n)) <= total_points(contours),
    decreases contours.len() - n,
{
    if n < contours.len() {
        total_points_grow(contours, n + 1);
        assert(contours.take(n + 1).drop_last() =~= contours.take(n));
    } else {
        assert(contours.take(n) =~= contours);
    }
}


/// Tests whether a glyph can be encoded.
pub fn can_encode(shape: &GlyphShape) -> (r: bool)
    ensures
        r == encodable(shape@),
{
    let n: usize = shape.contours.len();
    if n > MAX_CONTOURS {
        return false;
    }
    if n == 0 && (shape.x_min != 0 || shape.y_min != 0 || shape.x_max != 0 || shape.y_max != 0) {
        return false;
    }
    let ghost contours = shape@.contours;
    let mut total: usize = 0;
    let mut i: usize = 0;
    assert(contours.take(0) =~= Seq::<Seq<CurvePoint>>::empty());
    while i < n
        invariant
            n == shape.contours@.len(),
            contours == rings(shape.contours@),
            i <= n,
            total == total_points(contours.take(i as int)),
            total <= MAX_POINTS,
            forall|c: int| 0 <= c < i ==> (#[trigger] contours[c]).len() > 0,
            forall|c: int, k: int|
                0 <= c < i && 0 <= k < contours[c].len() ==> in_range(
                    (#[trigger] contours[c][k]).x as int,
                ) && in_range(contours[c][k].y as int),
        decreases n - i,
    {
        let ring = &shape.contours[i];
        assert(contours[i as int] == ring@);
        assert(contours == shape@.contours);
        assert(contours.take(i + 1).drop_last() =~= contours.take(i as int));
        let m: usize = ring.len();
        if m == 0 {
            return false;
        }
        if m > MAX_POINTS - total {
            proof {
                total_points_grow(contours, i + 1);
            }
            return false;
        }
        let mut k: usize = 0;
        while k < m
            invariant
                m == ring@.len(),
                k <= m,
                i < n,
                n == contours.len(),
                contours == shape@.contours,
                contours[i as int] == ring@,
                forall|j: int|
                    0 <= j < k ==> in_range((#[trigger] ring@[j]).x as int) && in_range(
                        ring@[j].y as int,
                    ),
            decreases m - k,
        {
            let p = ring[k];
            if p.x < -16384 || p.x > 16383 || p.y < -16384 || p.y > 16383 {
                assert(contours[i as int][k as int] == p);
                return false;
            }
            k = k + 1;
        }
        total = total + m;
        i = i + 1;
    }
    assert(contours.take(n as int) =~= contours);
    true
}

/// Makes the path that the font crate traces of an outline.
fn bezier_path(outline: &Vec<PathCommand>) -> (path: BezPath)
    requires
        outline@.len() > 0 ==> outline@[0].is_move(),
    ensures
        on_the_grid(path),
        path_commands(path) == outline@,
{
    let mut path = new_path();
    let mut i: usize = 0;
    assert(path_commands(path) =~= outline@.take(0));
    while i < outline.len()
        invariant
            i <= outline.len(),
            outline@.len() > 0 ==> outline@[0].is_move(),
            on_the_grid(path),
            path_commands(path) == outline@.take(i as int),
        decreases outline.len() - i,
    {
        push_command(&mut path, outline[i]);
        assert(outline@.take(i + 1) =~= outline@.take(i as int).push(outline@[i as int]));
        i = i + 1;
    }
    assert(outline@.take(outline.len() as int) =~= outline@);
    path
}

/// Converts an outline to the shape that the glyph format holds.
///
/// The outline must be free of cubics, begin with a move unless it is
/// empty, and keep to the range of glyph coordinates. The shape is traced
/// by the font crate; it must be one that can be encoded.
pub fn glyph_shape(outline: &Vec<PathCommand>) -> (r: Result<GlyphShape, ShapeError>)
    ensures
        match r {
            Ok(shape) => shape_error(outline@) is None && shape@ == shape_of(outline@),
            Err(e) => shape_error(outline@) == Some(e),
        },
{
    if has_cubic(outline) {
        return Err(ShapeError::HasCubic);
    }
    if outline.len() > 0 {
        match outline[0] {
            PathCommand::MoveTo(_) => {},
            _ => {
                return Err(ShapeError::MissingMove);
            },
        }
    }
    if !points_ok(outline) {
        return Err(ShapeError::CoordinateOutOfRange);
    }
    if outline.len() == 0 {
        let shape = GlyphShape { x_min: 0, y_min: 0, x_max: 0, y_max: 0, contours: Vec::new() };
        assert(shape@.contours =~= Seq::<Seq<CurvePoint>>::empty());
        assert(total_points(shape@.contours) == 0);
        return Ok(shape);
    }
    let path = bezier_path(outline);
    match trace_glyph(&path) {
        Some(shape) => {
            if can_encode(&shape) {
                Ok(shape)
            } else {
                Err(ShapeError::Unencodable)
            }
        },
        None => Err(ShapeError::MissingMove),
    }
}

/// The shape of an outline that has one can be encoded.
pub proof fn shape_is_encodable(outline: Seq<PathCommand>)
    requires
        shape_error(outline) is None,
    ensures
        encodable(shape_of(outline)),
{
}

} // verus!
