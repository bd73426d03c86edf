//! Glyph outlines: an icon's path brought from the source grid into font
//! units, rewound for the non-zero fill rule, and freed of cubic curves.

use vstd::prelude::*;
use crate::arith::{nearest, round_div};
use crate::curves::{cubic_to_quadratic, quadratic_path, TOLERANCE};
use crate::icon::Icon;
use crate::path::{FillRule, PathCommand, Point};
use crate::winding::{normalize_winding, normalized};

verus! {

/// The number of font units to the em.
pub const UNITS_PER_EM: u16 = 1000;

/// The least coordinate that a glyph point may have.
pub const COORD_MIN: i32 = -16384;

/// The greatest coordinate that a glyph point may have. With all
/// coordinates between `COORD_MIN` and `COORD_MAX` the step from any point
/// to any other fits the glyph format's 16-bit deltas.
pub const COORD_MAX: i32 = 16383;

/// Why an icon has no outline.
#[derive(Clone, Copy, Debug, PartialEq, Eq, Structural)]
pub enum OutlineError {
    /// Neither the width nor the height of the viewport is positive.
    EmptyViewport,
    /// The path does not begin with a move.
    MalformedPath,
    /// A point of the path falls outside the coordinates that a glyph
    /// point may have.
    CoordinateOutOfRange,
}

/// The greater of width and height: the extent that is scaled to the em.
pub open spec fn extent(width: int, height: int) -> int {
    if width >= height {
        width
    } else {
        height
    }
}

pub open spec fn in_range(v: int) -> bool {
    COORD_MIN <= v <= COORD_MAX
}

/// A source coordinate along x in font units: scaled so that the extent
/// becomes the em, and rounded to the nearest unit.
pub open spec fn font_x(x: int, extent: int) -> int {
    nearest(x * UNITS_PER_EM, extent)
}

/// A source coordinate along y in font units: the axis is turned over, so
/// that the viewport's lower edge comes to lie at zero, then scaled and
/// rounded like x.
pub open spec fn font_y(y: int, height: int, extent: int) -> int {
    nearest((height - y) * UNITS_PER_EM, extent)
}

pub open spec fn point_fits(p: Point, height: int, extent: int) -> bool {
    in_range(font_x(p.x as int, extent)) && in_range(font_y(p.y as int, height, extent))
}

pub open spec fn font_point(p: Point, height: int, extent: int) -> Point {
    Point { x: font_x(p.x as int, extent) as i32, y: font_y(p.y as int, height, extent) as i32 }
}

/// Whether every point of a command lands on a coordinate that a glyph
/// point may have.
pub open spec fn command_fits(command: PathCommand, height: int, extent: int) -> bool {
    match command {
        PathCommand::MoveTo(p) => point_fits(p, height, extent),
        PathCommand::LineTo(p) => point_fits(p, height, extent),
        PathCommand::QuadTo(c, p) => point_fits(c, height, extent) && point_fits(
            p,
            height,
            extent,
        ),
        PathCommand::CubicTo(c1, c2, p) => point_fits(c1, height, extent) && point_fits(
            c2,
            height,
            extent,
        ) && point_fits(p, height, extent),
        PathCommand::Close => true,
    }
}

/// A command with its points in font units.
pub open spec fn font_command(command: PathCommand, height: int, extent: int) -> PathCommand {
    match command {
        PathCommand::MoveTo(p) => PathCommand::MoveTo(font_point(p, height, extent)),
        PathCommand::LineTo(p) => PathCommand::LineTo(font_point(p, height, extent)),
        PathCommand::QuadTo(c, p) => PathCommand::QuadTo(
            font_point(c, height, extent),
            font_point(p, height, extent),
        ),
        PathCommand::CubicTo(c1, c2, p) => PathCommand::CubicTo(
            font_point(c1, height, extent),
            font_point(c2, height, extent),
            font_point(p, height, extent),
        ),
        PathCommand::Close => PathCommand::Close,
    }
}

/// A path with its points in font units.
pub open spec fn font_path(path: Seq<PathCommand>, height: int, extent: int) -> Seq<PathCommand> {
    Seq::new(path.len(), |i: int| font_command(path[i], height, extent))
}

/// Why a path in a viewport has no outline, if it has none.
pub open spec fn outline_error(path: Seq<PathCommand>, width: int, height: int) -> Option<
    OutlineError,
> {
    let e = extent(width, height);
    if e <= 0 {
        Some(OutlineError::EmptyViewport)
    } else if path.len() > 0 && !path[0].is_move() {
        Some(OutlineError::MalformedPath)
    } else if exists|i: int| 0 <= i < path.len() && !command_fits(#[trigger] path[i], height, e) {
        Some(OutlineError::CoordinateOutOfRange)
    } else {
        None
    }
}

/// The outline of a path in a viewport: the path in font units, rewound
/// for the non-zero rule, with quadratics in place of cubics.
pub open spec fn outline_of(path: Seq<PathCommand>, width: int, height: int, rule: FillRule) -> Seq<
    PathCommand,
> {
    quadratic_path(normalized(font_path(path, height, extent(width, height)), rule), TOLERANCE)
}

impl Icon {
    /// Why the icon has no outline, if it has none.
    pub open spec fn outline_error(&self) -> Option<OutlineError> {
        outline_error(self.path@, self.width as int, self.height as int)
    }

    /// The icon's outline.
    pub open spec fn outline(&self) -> Seq<PathCommand> {
        outline_of(self.path@, self.width as int, self.height as int, self.fill_rule)
    }
}

/// Brings one coordinate, already laid off from the right edge of its
/// axis, into font units; `None` if it falls outside the range of glyph
/// coordinates.
fn to_font_units(offset: i64, extent: i32) -> (r: Option<i32>)
    requires
        extent > 0,
        -0x1_0000_0000 <= offset <= 0x1_0000_0000,
    ensures
        match r {
            Some(v) => v == nearest(offset * UNITS_PER_EM, extent as int) && in_range(v as int),
            None => !in_range(nearest(offset * UNITS_PER_EM, extent as int)),
        },
{
    let scaled: i128 = (offset as i128) * 1000;
    let q: i128 = round_div(scaled, extent as i128);
    if -16384 <= q && q <= 16383 {
        Some(q as i32)
    } else {
        None
    }
}

fn place_point(p: Point, height: i32, extent: i32) -> (r: Option<Point>)
    requires
        extent > 0,
    ensures
        match r {
            Some(q) => point_fits(p, height as int, extent as int) && q == font_point(
                p,
                height as int,
                extent as int,
            ),
            None => !point_fits(p, height as int, extent as int),
        },
{
    let x = to_font_units(p.x as i64, extent);
    let y = to_font_units(height as i64 - p.y as i64, extent);
    match (x, y) {
        (Some(x), Some(y)) => Some(Point { x, y }),
        _ => None,
    }
}

fn place_command(command: PathCommand, height: i32, extent: i32) -> (r: Option<PathCommand>)
    requires
        extent > 0,
    ensures
        match r {
            Some(c) => command_fits(command, height as int, extent as int) && c == font_command(
                command,
                height as int,
                extent as int,
            ),
            None => !command_fits(command, height as int, extent as int),
        },
{
    match command {
        PathCommand::MoveTo(p) => match place_point(p, height, extent) {
            Some(p) => Some(PathCommand::MoveTo(p)),
            None => None,
        },
        PathCommand::LineTo(p) => match place_point(p, height, extent) {
            Some(p) => Some(PathCommand::LineTo(p)),
            None => None,
        },
        PathCommand::QuadTo(c, p) => match (
            place_point(c, height, extent),
            place_point(p, height, extent),
        ) {
            (Some(c), Some(p)) => Some(PathCommand::QuadTo(c, p)),
            _ => None,
        },
        PathCommand::CubicTo(c1, c2, p) => match (
            place_point(c1, height, extent),
            place_point(c2, height, extent),
            place_point(p, height, extent),
        ) {
            (Some(c1), Some(c2), Some(p)) => Some(PathCommand::CubicTo(c1, c2, p)),
            _ => None,
        },
        PathCommand::Close => Some(PathCommand::Close),
    }
}

/// Builds the glyph outline of an icon.
///
/// The icon's path is scaled so that the greater side of its viewport
/// becomes the em, turned over so that y grows upwards, rewound for the
/// non-zero fill rule, and its cubics are replaced by quadratics. An
/// empty path gives an empty outline.
pub fn svg_path_to_glyph(icon: &Icon) -> (r: Result<Vec<PathCommand>, OutlineError>)
    ensures
        match r {
            Ok(outline) => icon.outline_error() is None && outline@ == icon.outline(),
            Err(e) => icon.outline_error() == Some(e),
        },
        r matches Ok(outline) ==> forall|i: int|
            0 <= i < outline@.len() ==> !(#[trigger] outline@[i]).is_cubic(),
{
    let side: i32 = if icon.width >= icon.height {
        icon.width
    } else {
        icon.height
    };
    if side <= 0 {
        return Err(OutlineError::EmptyViewport);
    }
    let n: usize = icon.path.len();
    if n > 0 {
        match icon.path[0] {
            PathCommand::MoveTo(_) => {},
            _ => {
                return Err(OutlineError::MalformedPath);
            },
        }
    }
    let mut placed: Vec<PathCommand> = Vec::new();
    let mut i: usize = 0;
    while i < n
        invariant
            n == icon.path@.len(),
            i <= n,
            side > 0,
            side as int == extent(icon.width as int, icon.height as int),
            n > 0 ==> icon.path@[0].is_move(),
            placed@.len() == i,
            forall|k: int|
                0 <= k < i ==> command_fits(
                    #[trigger] icon.path@[k],
                    icon.height as int,
                    side as int,
                ),
            forall|k: int|
                0 <= k < i ==> #[trigger] placed@[k] == font_command(
                    icon.path@[k],
                    icon.height as int,
                    side as int,
                ),
        decreases n - i,
    {
        match place_command(icon.path[i], icon.height, side) {
            Some(c) => {
                placed.push(c);
            },
            None => {
                assert(!command_fits(icon.path@[i as int], icon.height as int, side as int));
                return Err(OutlineError::CoordinateOutOfRange);
            },
        }
        i = i + 1;
    }
    assert(placed@ =~= font_path(icon.path@, icon.height as int, side as int));
    let wound = normalize_winding(&placed, icon.fill_rule);
    Ok(cubic_to_quadratic(&wound))
}

} // verus!
