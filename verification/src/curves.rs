//! Cubic curves as runs of quadratic ones, by recursive bisection.
//!
//! A cubic is halved until the quadratic through the mean of its two
//! control points is close enough at the middle, or until it has been
//! halved `MAX_DEPTH` times. The halves are kept exact: a piece at depth
//! `k` holds its coordinates multiplied by `8^k`.

use vstd::prelude::*;
use crate::arith::{near, nearest, nearest_between, nearest_is_near, round_div};
use crate::path::{PathCommand, Point};

verus! {

/// How often a cubic is halved at most.
pub const MAX_DEPTH: u32 = 16;

/// The greatest distance, in grid units, that is accepted between the
/// middle of a cubic and the middle of the quadratic that stands for it.
pub const TOLERANCE: u32 = 1;

/// A cubic curve on the grid: start, two control points, end.
#[derive(Clone, Copy, Debug, PartialEq, Eq, Structural)]
pub struct Cubic {
    pub p0: Point,
    pub p1: Point,
    pub p2: Point,
    pub p3: Point,
}

/// The four control points of a cubic, each coordinate multiplied by the
/// scale of the depth at which the cubic stands.
pub struct Bezier {
    pub ax: int,
    pub ay: int,
    pub bx: int,
    pub by: int,
    pub cx: int,
    pub cy: int,
    pub dx: int,
    pub dy: int,
}

/// A cubic in the course of bisection, in exact scaled coordinates.
#[derive(Clone, Copy, Debug)]
pub struct Piece {
    pub ax: i128,
    pub ay: i128,
    pub bx: i128,
    pub by: i128,
    pub cx: i128,
    pub cy: i128,
    pub dx: i128,
    pub dy: i128,
}

impl View for Piece {
    type V = Bezier;

    open spec fn view(&self) -> Bezier {
        Bezier {
            ax: self.ax as int,
            ay: self.ay as int,
            bx: self.bx as int,
            by: self.by as int,
            cx: self.cx as int,
            cy: self.cy as int,
            dx: self.dx as int,
            dy: self.dy as int,
        }
    }
}

impl Cubic {
    /// The cubic at depth 0, where the scale is 1.
    pub open spec fn unscaled(self) -> Bezier {
        Bezier {
            ax: self.p0.x as int,
            ay: self.p0.y as int,
            bx: self.p1.x as int,
            by: self.p1.y as int,
            cx: self.p2.x as int,
            cy: self.p2.y as int,
            dx: self.p3.x as int,
            dy: self.p3.y as int,
        }
    }
}

/// The scale at depth `k`: `8^k`.
pub open spec fn scale_at(k: nat) -> int
    decreases k,
{
    if k == 0 {
        1
    } else {
        8 * scale_at((k - 1) as nat)
    }
}

pub open spec fn magnitude(v: int) -> int {
    if v < 0 {
        -v
    } else {
        v
    }
}

/// The first half of a cubic by De Casteljau's construction, at the next
/// depth's scale.
pub open spec fn first_half(b: Bezier) -> Bezier {
    Bezier {
        ax: 8 * b.ax,
        ay: 8 * b.ay,
        bx: 4 * (b.ax + b.bx),
        by: 4 * (b.ay + b.by),
        cx: 2 * (b.ax + 2 * b.bx + b.cx),
        cy: 2 * (b.ay + 2 * b.by + b.cy),
        dx: b.ax + 3 * b.bx + 3 * b.cx + b.dx,
        dy: b.ay + 3 * b.by + 3 * b.cy + b.dy,
    }
}

/// The second half of a cubic, at the next depth's scale.
pub open spec fn second_half(b: Bezier) -> Bezier {
    Bezier {
        ax: b.ax + 3 * b.bx + 3 * b.cx + b.dx,
        ay: b.ay + 3 * b.by + 3 * b.cy + b.dy,
        bx: 2 * (b.bx + 2 * b.cx + b.dx),
        by: 2 * (b.by + 2 * b.cy + b.dy),
        cx: 4 * (b.cx + b.dx),
        cy: 4 * (b.cy + b.dy),
        dx: 8 * b.dx,
        dy: 8 * b.dy,
    }
}

/// Eight times the point of the cubic at parameter one half.
pub open spec fn cubic_middle8(b: Bezier) -> (int, int) {
    (b.ax + 3 * b.bx + 3 * b.cx + b.dx, b.ay + 3 * b.by + 3 * b.cy + b.dy)
}

/// Eight times the point at parameter one half of the trial quadratic: the
/// quadratic with the cubic's ends whose control point is the mean of the
/// cubic's two control points.
pub open spec fn trial_middle8(b: Bezier) -> (int, int) {
    (2 * b.ax + 2 * (b.bx + b.cx) + 2 * b.dx, 2 * b.ay + 2 * (b.by + b.cy) + 2 * b.dy)
}

/// Eight times the distance between the two middles, measured as the sum
/// of the coordinate differences, in scaled coordinates.
pub open spec fn middle_gap8(b: Bezier) -> int {
    magnitude(cubic_middle8(b).0 - trial_middle8(b).0) + magnitude(
        cubic_middle8(b).1 - trial_middle8(b).1,
    )
}

/// Whether the trial quadratic of a piece at depth `k` is close enough:
/// the distance between the middles is below the tolerance.
pub open spec fn close_enough(b: Bezier, k: nat, tolerance: int) -> bool {
    middle_gap8(b) < 8 * tolerance * scale_at(k)
}

/// Whether every coordinate of a piece at depth `k` stands for a value
/// between `lo` and `hi`.
pub open spec fn within(b: Bezier, k: nat, lo: int, hi: int) -> bool {
    let l = lo * scale_at(k);
    let h = hi * scale_at(k);
    l <= b.ax <= h && l <= b.ay <= h && l <= b.bx <= h && l <= b.by <= h && l <= b.cx <= h && l
        <= b.cy <= h && l <= b.dx <= h && l <= b.dy <= h
}

/// Whether every coordinate of a piece at depth `k` stands for a value
/// that a grid point can hold.
pub open spec fn on_grid(b: Bezier, k: nat) -> bool {
    within(b, k, -0x8000_0000, 0x7fff_ffff)
}

/// The trial quadratic of a piece at depth `k`, as a command: control and
/// end point brought back to grid units and rounded to the grid.
pub open spec fn trial_quadratic(b: Bezier, k: nat) -> PathCommand {
    let s = scale_at(k);
    PathCommand::QuadTo(
        Point { x: nearest(b.bx + b.cx, 2 * s) as i32, y: nearest(b.by + b.cy, 2 * s) as i32 },
        Point { x: nearest(b.dx, s) as i32, y: nearest(b.dy, s) as i32 },
    )
}

/// The pieces into which bisection cuts a piece at depth `k`, each with
/// its depth: a piece is kept whole if its trial quadratic is close enough
/// or `limit` is reached, else both its halves are cut in turn.
pub open spec fn pieces(b: Bezier, k: nat, tolerance: int, limit: nat) -> Seq<(Bezier, nat)>
    decreases limit - k,
{
    if k >= limit || close_enough(b, k, tolerance) {
        seq![(b, k)]
    } else {
        pieces(first_half(b), k + 1, tolerance, limit) + pieces(
            second_half(b),
            k + 1,
            tolerance,
            limit,
        )
    }
}

/// The quadratic commands that stand for a piece at depth `k`: the trial
/// quadratics of its pieces, in order.
pub open spec fn quadratics(b: Bezier, k: nat, tolerance: int, limit: nat) -> Seq<PathCommand> {
    pieces(b, k, tolerance, limit).map_values(|p: (Bezier, nat)| trial_quadratic(p.0, p.1))
}

/// The quadratic commands that stand for a cubic.
pub open spec fn approximation(cubic: Cubic, tolerance: u32) -> Seq<PathCommand> {
    quadratics(cubic.unscaled(), 0, tolerance as int, MAX_DEPTH as nat)
}

/// The scale is at least one and grows with the depth.
pub proof fn scale_grows(j: nat, k: nat)
    requires
        j <= k,
    ensures
        1 <= scale_at(j) <= scale_at(k),
    decreases k,
{
    if j < k {
        scale_grows(j, (k - 1) as nat);
    } else if k > 0 {
        scale_grows((j - 1) as nat, (k - 1) as nat);
    }
}

/// The scale at the depth limit.
proof fn scale_at_limit()
    ensures
        scale_at(16) == 0x1_0000_0000_0000,
{
    assert(scale_at(0) == 1);
    assert(scale_at(1) == 8);
    assert(scale_at(2) == 64);
    assert(scale_at(3) == 512);
    assert(scale_at(4) == 4096);
    assert(scale_at(5) == 32768);
    assert(scale_at(6) == 262144);
    assert(scale_at(7) == 2097152);
    assert(scale_at(8) == 16777216);
    assert(scale_at(9) == 134217728);
    assert(scale_at(10) == 1073741824);
    assert(scale_at(11) == 8589934592);
    assert(scale_at(12) == 68719476736);
    assert(scale_at(13) == 549755813888);
    assert(scale_at(14) == 4398046511104);
    assert(scale_at(15) == 35184372088832);
}

/// Both halves of a piece lie between the bounds that the piece lies
/// between.
pub proof fn halves_within(b: Bezier, k: nat, lo: int, hi: int)
    requires
        within(b, k, lo, hi),
    ensures
        within(first_half(b), k + 1, lo, hi),
        within(second_half(b), k + 1, lo, hi),
{
    let s = scale_at(k);
    assert(scale_at(k + 1) == 8 * s);
    assert(lo * (8 * s) == 8 * (lo * s) && hi * (8 * s) == 8 * (hi * s)) by (nonlinear_arith);
}

/// Whether a piece can be halved without leaving the range of the
/// machine's integers.
pub open spec fn divisible(b: Bezier) -> bool {
    let hi: int = 0x100_0000_0000_0000_0000_0000_0000_0000;
    -hi <= b.ax <= hi && -hi <= b.ay <= hi && -hi <= b.bx <= hi && -hi <= b.by <= hi && -hi
        <= b.cx <= hi && -hi <= b.cy <= hi && -hi <= b.dx <= hi && -hi <= b.dy <= hi
}

/// A piece on the grid that has been halved less than `MAX_DEPTH` times
/// can be halved.
proof fn on_grid_divisible(b: Bezier, k: nat)
    requires
        k <= MAX_DEPTH,
        on_grid(b, k),
    ensures
        divisible(b),
{
    scale_grows(k, 16);
    scale_at_limit();
}

/// Halves a cubic at parameter one half. The halves stand at the next
/// depth: their coordinates are eight times as fine as the given ones.
pub fn subdivide_cubic(piece: &Piece) -> (halves: (Piece, Piece))
    requires
        divisible(piece@),
    ensures
        halves.0@ == first_half(piece@),
        halves.1@ == second_half(piece@),
{
    let middle_x: i128 = piece.ax + 3 * piece.bx + 3 * piece.cx + piece.dx;
    let middle_y: i128 = piece.ay + 3 * piece.by + 3 * piece.cy + piece.dy;
    let first = Piece {
        ax: 8 * piece.ax,
        ay: 8 * piece.ay,
        bx: 4 * (piece.ax + piece.bx),
        by: 4 * (piece.ay + piece.by),
        cx: 2 * (piece.ax + 2 * piece.bx + piece.cx),
        cy: 2 * (piece.ay + 2 * piece.by + piece.cy),
        dx: middle_x,
        dy: middle_y,
    };
    let second = Piece {
        ax: middle_x,
        ay: middle_y,
        bx: 2 * (piece.bx + 2 * piece.cx + piece.dx),
        by: 2 * (piece.by + 2 * piece.cy + piece.dy),
        cx: 4 * (piece.cx + piece.dx),
        cy: 4 * (piece.cy + piece.dy),
        dx: 8 * piece.dx,
        dy: 8 * piece.dy,
    };
    (first, second)
}

fn absolute(v: i128) -> (r: i128)
    requires
        v > i128::MIN,
    ensures
        r == magnitude(v as int),
{
    if v < 0 {
        -v
    } else {
        v
    }
}

/// Brings a scaled coordinate back to the grid, rounding to the nearest
/// grid value.
fn to_grid(v: i128, unit: i128) -> (r: i32)
    requires
        0 < unit <= 0x2_0000_0000_0000,
        -0x8000_0000 * unit <= v <= 0x7fff_ffff * unit,
    ensures
        r == nearest(v as int, unit as int),
{
    proof {
        nearest_between(v as int, unit as int, -0x8000_0000, 0x7fff_ffff);
    }
    let q: i128 = round_div(v, unit);
    q as i32
}

fn bisect(piece: &Piece, depth: u32, scale: i128, tolerance: u32, path: &mut Vec<PathCommand>)
    requires
        depth <= MAX_DEPTH,
        scale == scale_at(depth as nat),
        on_grid(piece@, depth as nat),
    ensures
        final(path)@ == old(path)@ + quadratics(
            piece@,
            depth as nat,
            tolerance as int,
            MAX_DEPTH as nat,
        ),
    decreases MAX_DEPTH - depth,
{
    proof {
        scale_grows(depth as nat, 16);
        scale_at_limit();
    }
    let gap_x: i128 = absolute(piece.bx + piece.cx - piece.ax - piece.dx);
    let gap_y: i128 = absolute(piece.by + piece.cy - piece.ay - piece.dy);
    let eightfold: i128 = 8 * (tolerance as i128);
    assert(0 <= eightfold * scale <= 0x8_0000_0000 * 0x1_0000_0000_0000) by (nonlinear_arith)
        requires
            0 <= eightfold <= 0x8_0000_0000,
            1 <= scale <= 0x1_0000_0000_0000,
    ;
    let bound: i128 = eightfold * scale;
    assert(bound == 8 * tolerance * scale) by (nonlinear_arith)
        requires
            bound == eightfold * scale,
            eightfold == 8 * tolerance,
    ;
    let ghost whole = pieces(piece@, depth as nat, tolerance as int, MAX_DEPTH as nat);
    if depth >= MAX_DEPTH || gap_x + gap_y < bound {
        let control = Point {
            x: to_grid(piece.bx + piece.cx, 2 * scale),
            y: to_grid(piece.by + piece.cy, 2 * scale),
        };
        let end = Point { x: to_grid(piece.dx, scale), y: to_grid(piece.dy, scale) };
        path.push(PathCommand::QuadTo(control, end));
        assert(whole =~= seq![(piece@, depth as nat)]);
        assert(quadratics(piece@, depth as nat, tolerance as int, MAX_DEPTH as nat) =~= seq![
            trial_quadratic(piece@, depth as nat),
        ]);
        assert(path@ =~= old(path)@ + seq![trial_quadratic(piece@, depth as nat)]);
    } else {
        proof {
            halves_within(piece@, depth as nat, -0x8000_0000, 0x7fff_ffff);
            on_grid_divisible(piece@, depth as nat);
        }
        let halves = subdivide_cubic(piece);
        let ghost first = pieces(
            first_half(piece@),
            (depth + 1) as nat,
            tolerance as int,
            MAX_DEPTH as nat,
        );
        let ghost second = pieces(
            second_half(piece@),
            (depth + 1) as nat,
            tolerance as int,
            MAX_DEPTH as nat,
        );
        bisect(&halves.0, depth + 1, 8 * scale, tolerance, path);
        bisect(&halves.1, depth + 1, 8 * scale, tolerance, path);
        assert(whole =~= first + second);
        assert(quadratics(piece@, depth as nat, tolerance as int, MAX_DEPTH as nat)
            =~= quadratics(
            first_half(piece@),
            (depth + 1) as nat,
            tolerance as int,
            MAX_DEPTH as nat,
        ) + quadratics(
            second_half(piece@),
            (depth + 1) as nat,
            tolerance as int,
            MAX_DEPTH as nat,
        ));
    }
}

/// Appends to `path` the quadratic curves that stand for `cubic`, from
/// where `cubic` starts. Every appended quadratic is the trial quadratic of
/// a piece of the cubic whose middle lies less than `tolerance` from the
/// quadratic's, unless the piece is the result of `MAX_DEPTH` halvings.
pub fn approximate_cubic_with_quadratics(
    cubic: &Cubic,
    tolerance: u32,
    path: &mut Vec<PathCommand>,
)
    ensures
        final(path)@ == old(path)@ + approximation(*cubic, tolerance),
        approximation(*cubic, tolerance).len() >= 1,
{
    let piece = Piece {
        ax: cubic.p0.x as i128,
        ay: cubic.p0.y as i128,
        bx: cubic.p1.x as i128,
        by: cubic.p1.y as i128,
        cx: cubic.p2.x as i128,
        cy: cubic.p2.y as i128,
        dx: cubic.p3.x as i128,
        dy: cubic.p3.y as i128,
    };
    proof {
        pieces_exist(cubic.unscaled(), 0, tolerance as int, MAX_DEPTH as nat);
    }
    bisect(&piece, 0, 1, tolerance, path);
}

/// Bisection yields at least one piece.
proof fn pieces_exist(b: Bezier, k: nat, tolerance: int, limit: nat)
    ensures
        pieces(b, k, tolerance, limit).len() >= 1,
    decreases limit - k,
{
    if !(k >= limit || close_enough(b, k, tolerance)) {
        pieces_exist(first_half(b), k + 1, tolerance, limit);
    }
}


/// Every command that stands for a cubic is a quadratic curve.
pub proof fn approximation_is_quadratic(cubic: Cubic, tolerance: u32)
    ensures
        forall|i: int|
            0 <= i < approximation(cubic, tolerance).len() ==> #[trigger] approximation(
                cubic,
                tolerance,
            )[i] is QuadTo,
{
}

/// `2^n`.
pub open spec fn two_to(n: nat) -> int
    decreases n,
{
    if n == 0 {
        1
    } else {
        2 * two_to((n - 1) as nat)
    }
}

/// How far a cubic is from a straight, evenly run line: the greatest
/// magnitude among the coordinates of its two second differences,
/// `a - 2b + c` and `b - 2c + d`.
pub open spec fn bend(b: Bezier) -> int {
    let ux = magnitude(b.ax - 2 * b.bx + b.cx);
    let uy = magnitude(b.ay - 2 * b.by + b.cy);
    let vx = magnitude(b.bx - 2 * b.cx + b.dx);
    let vy = magnitude(b.by - 2 * b.cy + b.dy);
    let u = if ux >= uy { ux } else { uy };
    let v = if vx >= vy { vx } else { vy };
    if u >= v { u } else { v }
}

/// The gap between the middles is at most four times the bend, and
/// halving a cubic at most doubles the bend in the finer coordinates.
proof fn bend_of_halves(b: Bezier)
    ensures
        middle_gap8(b) <= 4 * bend(b),
        bend(first_half(b)) <= 2 * bend(b),
        bend(second_half(b)) <= 2 * bend(b),
{
}

/// A piece whose bend is small enough for its depth is cut into pieces
/// whose trial quadratics are all close enough: the depth limit never
/// lets a quadratic through that misses the tolerance.
pub proof fn pieces_close_enough(b: Bezier, k: nat, tolerance: int, limit: nat)
    requires
        k <= limit,
        bend(b) * two_to((limit - k) as nat) < 2 * tolerance * scale_at(limit),
    ensures
        forall|i: int|
            0 <= i < pieces(b, k, tolerance, limit).len() ==> close_enough(
                (#[trigger] pieces(b, k, tolerance, limit)[i]).0,
                pieces(b, k, tolerance, limit)[i].1,
                tolerance,
            ),
    decreases limit - k,
{
    bend_of_halves(b);
    let whole = pieces(b, k, tolerance, limit);
    if close_enough(b, k, tolerance) {
        assert(whole =~= seq![(b, k)]);
    } else if k >= limit {
        assert(two_to(0) == 1);
        assert(bend(b) * 1 == bend(b));
        assert(4 * bend(b) < 8 * tolerance * scale_at(limit)) by (nonlinear_arith)
            requires
                bend(b) < 2 * tolerance * scale_at(limit),
        ;
        assert(whole =~= seq![(b, k)]);
        assert(close_enough(b, k, tolerance));
    } else {
        let rest = two_to((limit - k - 1) as nat);
        assert(two_to((limit - k) as nat) == 2 * rest);
        assert(rest >= 1) by {
            two_to_positive((limit - k - 1) as nat);
        }
        let first = first_half(b);
        let second = second_half(b);
        assert(bend(first) * rest <= bend(b) * (2 * rest)) by (nonlinear_arith)
            requires
                bend(first) <= 2 * bend(b),
                rest >= 1,
        ;
        assert(bend(second) * rest <= bend(b) * (2 * rest)) by (nonlinear_arith)
            requires
                bend(second) <= 2 * bend(b),
                rest >= 1,
        ;
        pieces_close_enough(first, k + 1, tolerance, limit);
        pieces_close_enough(second, k + 1, tolerance, limit);
        let front = pieces(first, k + 1, tolerance, limit);
        let back = pieces(second, k + 1, tolerance, limit);
        assert(whole =~= front + back);
        assert forall|i: int| 0 <= i < whole.len() implies close_enough(
            (#[trigger] whole[i]).0,
            whole[i].1,
            tolerance,
        ) by {
            if i < front.len() {
                assert(whole[i] == front[i]);
            } else {
                assert(whole[i] == back[i - front.len()]);
            }
        }
    }
}

/// A power of two is at least one.
proof fn two_to_positive(n: nat)
    ensures
        two_to(n) >= 1,
    decreases n,
{
    if n > 0 {
        two_to_positive((n - 1) as nat);
    }
}

/// Two to the depth limit.
proof fn two_to_limit()
    ensures
        two_to(16) == 0x1_0000,
{
    assert(two_to(0) == 1);
    assert(two_to(1) == 2);
    assert(two_to(2) == 4);
    assert(two_to(3) == 8);
    assert(two_to(4) == 16);
    assert(two_to(5) == 32);
    assert(two_to(6) == 64);
    assert(two_to(7) == 128);
    assert(two_to(8) == 256);
    assert(two_to(9) == 512);
    assert(two_to(10) == 1024);
    assert(two_to(11) == 2048);
    assert(two_to(12) == 4096);
    assert(two_to(13) == 8192);
    assert(two_to(14) == 16384);
    assert(two_to(15) == 32768);
}

/// Bisection halves no piece more often than the limit allows.
pub proof fn pieces_keep_to_limit(b: Bezier, k: nat, tolerance: int, limit: nat)
    requires
        k <= limit,
    ensures
        forall|i: int|
            0 <= i < pieces(b, k, tolerance, limit).len() ==> k <= (#[trigger] pieces(
                b,
                k,
                tolerance,
                limit,
            )[i]).1 <= limit,
    decreases limit - k,
{
    let whole = pieces(b, k, tolerance, limit);
    if k >= limit || close_enough(b, k, tolerance) {
        assert(whole =~= seq![(b, k)]);
    } else {
        let front = pieces(first_half(b), k + 1, tolerance, limit);
        let back = pieces(second_half(b), k + 1, tolerance, limit);
        pieces_keep_to_limit(first_half(b), k + 1, tolerance, limit);
        pieces_keep_to_limit(second_half(b), k + 1, tolerance, limit);
        assert(whole =~= front + back);
        assert forall|i: int| 0 <= i < whole.len() implies k <= (#[trigger] whole[i]).1
            <= limit by {
            if i < front.len() {
                assert(whole[i] == front[i]);
            } else {
                assert(whole[i] == back[i - front.len()]);
            }
        }
    }
}

/// Let the tolerance be at least one grid unit. Then every quadratic that
/// stands for a cubic is the trial quadratic of a piece of the cubic, and
/// the middle of that quadratic lies less than the tolerance from the
/// middle of the piece: bisection stops on the test of the middles before
/// it would stop on the depth limit. No piece has been halved more than
/// `MAX_DEPTH` times.
pub proof fn approximation_bound(cubic: Cubic, tolerance: u32)
    requires
        tolerance >= 1,
    ensures
        approximation(cubic, tolerance) == pieces(
            cubic.unscaled(),
            0,
            tolerance as int,
            MAX_DEPTH as nat,
        ).map_values(|p: (Bezier, nat)| trial_quadratic(p.0, p.1)),
        forall|i: int|
            0 <= i < pieces(cubic.unscaled(), 0, tolerance as int, MAX_DEPTH as nat).len()
                ==> close_enough(
                (#[trigger] pieces(cubic.unscaled(), 0, tolerance as int, MAX_DEPTH as nat)[i]).0,
                pieces(cubic.unscaled(), 0, tolerance as int, MAX_DEPTH as nat)[i].1,
                tolerance as int,
            ) && pieces(cubic.unscaled(), 0, tolerance as int, MAX_DEPTH as nat)[i].1
                <= MAX_DEPTH,
{
    let b = cubic.unscaled();
    pieces_keep_to_limit(b, 0, tolerance as int, MAX_DEPTH as nat);
    two_to_limit();
    scale_at_limit();
    assert(bend(b) <= 0x2_0000_0000 - 2);
    assert(bend(b) * two_to(16) < 2 * (tolerance as int) * scale_at(16)) by (nonlinear_arith)
        requires
            0 <= bend(b) <= 0x2_0000_0000 - 2,
            two_to(16) == 0x1_0000,
            scale_at(16) == 0x1_0000_0000_0000,
            tolerance >= 1,
    ;
    pieces_close_enough(b, 0, tolerance as int, MAX_DEPTH as nat);
}


/// Where the pen rests after the commands, for the purpose of starting a
/// cubic: the end point of the last command that has one, or the origin.
pub open spec fn cursor_after(path: Seq<PathCommand>) -> Point
    decreases path.len(),
{
    if path.len() == 0 {
        Point { x: 0, y: 0 }
    } else {
        match path.last().end_point() {
            Some(p) => p,
            None => cursor_after(path.drop_last()),
        }
    }
}

/// What a command becomes when cubics are replaced: a cubic becomes the
/// quadratics that stand for it, drawn from `cursor`; any other command
/// stays.
pub open spec fn without_cubic(cursor: Point, command: PathCommand, tolerance: u32) -> Seq<
    PathCommand,
> {
    match command {
        PathCommand::CubicTo(c1, c2, p) => approximation(
            Cubic { p0: cursor, p1: c1, p2: c2, p3: p },
            tolerance,
        ),
        _ => seq![command],
    }
}

/// The path with every cubic replaced by quadratics.
pub open spec fn quadratic_path(path: Seq<PathCommand>, tolerance: u32) -> Seq<PathCommand>
    decreases path.len(),
{
    if path.len() == 0 {
        Seq::empty()
    } else {
        quadratic_path(path.drop_last(), tolerance) + without_cubic(
            cursor_after(path.drop_last()),
            path.last(),
            tolerance,
        )
    }
}

/// A path with its cubics replaced holds no cubic.
pub proof fn quadratic_path_has_no_cubic(path: Seq<PathCommand>, tolerance: u32)
    ensures
        forall|i: int|
            0 <= i < quadratic_path(path, tolerance).len() ==> !(#[trigger] quadratic_path(
                path,
                tolerance,
            )[i]).is_cubic(),
    decreases path.len(),
{
    if path.len() > 0 {
        quadratic_path_has_no_cubic(path.drop_last(), tolerance);
        let front = quadratic_path(path.drop_last(), tolerance);
        let back = without_cubic(cursor_after(path.drop_last()), path.last(), tolerance);
        match path.last() {
            PathCommand::CubicTo(c1, c2, p) => {
                approximation_is_quadratic(
                    Cubic { p0: cursor_after(path.drop_last()), p1: c1, p2: c2, p3: p },
                    tolerance,
                );
            },
            _ => {},
        }
        assert forall|i: int| 0 <= i < (front + back).len() implies !(#[trigger] (front
            + back)[i]).is_cubic() by {
            if i >= front.len() {
                assert((front + back)[i] == back[i - front.len()]);
            }
        }
    }
}

/// Replaces every cubic of a path by quadratic curves within `TOLERANCE`;
/// all other commands pass through.
pub fn cubic_to_quadratic(path: &Vec<PathCommand>) -> (result: Vec<PathCommand>)
    ensures
        result@ == quadratic_path(path@, TOLERANCE),
        forall|i: int| 0 <= i < result@.len() ==> !(#[trigger] result@[i]).is_cubic(),
{
    let mut result: Vec<PathCommand> = Vec::new();
    let mut cursor = Point { x: 0, y: 0 };
    let mut i: usize = 0;
    while i < path.len()
        invariant
            i <= path.len(),
            cursor == cursor_after(path@.take(i as int)),
            result@ == quadratic_path(path@.take(i as int), TOLERANCE),
        decreases path.len() - i,
    {
        assert(path@.take(i + 1).drop_last() =~= path@.take(i as int));
        let command = path[i];
        match command {
            PathCommand::MoveTo(p) => {
                result.push(command);
                cursor = p;
            },
            PathCommand::LineTo(p) => {
                result.push(command);
                cursor = p;
            },
            PathCommand::QuadTo(_, p) => {
                result.push(command);
                cursor = p;
            },
            PathCommand::CubicTo(c1, c2, p) => {
                let cubic = Cubic { p0: cursor, p1: c1, p2: c2, p3: p };
                approximate_cubic_with_quadratics(&cubic, TOLERANCE, &mut result);
                cursor = p;
            },
            PathCommand::Close => {
                result.push(command);
            },
        }
        assert(result@ =~= quadratic_path(path@.take(i as int), TOLERANCE) + without_cubic(
            cursor_after(path@.take(i as int)),
            command,
            TOLERANCE,
        ));
        i = i + 1;
    }
    assert(path@.take(path.len() as int) =~= path@);
    proof {
        quadratic_path_has_no_cubic(path@, TOLERANCE);
    }
    result
}


/// Whether a quadratic command is the trial quadratic of a piece at depth
/// `k` as nearly as the grid allows: its control point lies no more than
/// half a grid unit, along x and along y, from the mean of the piece's
/// control points, and its end no more than that from the piece's end.
pub open spec fn on_nearest_grid_points(command: PathCommand, b: Bezier, k: nat) -> bool {
    match command {
        PathCommand::QuadTo(c, e) => {
            &&& near(c.x as int, b.bx + b.cx, 2 * scale_at(k))
            &&& near(c.y as int, b.by + b.cy, 2 * scale_at(k))
            &&& near(e.x as int, b.dx, scale_at(k))
            &&& near(e.y as int, b.dy, scale_at(k))
        },
        _ => false,
    }
}

/// The pieces of a piece on the grid are on the grid.
pub proof fn pieces_on_grid(b: Bezier, k: nat, tolerance: int, limit: nat)
    requires
        on_grid(b, k),
    ensures
        forall|i: int|
            0 <= i < pieces(b, k, tolerance, limit).len() ==> on_grid(
                (#[trigger] pieces(b, k, tolerance, limit)[i]).0,
                pieces(b, k, tolerance, limit)[i].1,
            ),
    decreases limit - k,
{
    let whole = pieces(b, k, tolerance, limit);
    if k >= limit || close_enough(b, k, tolerance) {
        assert(whole =~= seq![(b, k)]);
    } else {
        halves_within(b, k, -0x8000_0000, 0x7fff_ffff);
        let front = pieces(first_half(b), k + 1, tolerance, limit);
        let back = pieces(second_half(b), k + 1, tolerance, limit);
        pieces_on_grid(first_half(b), k + 1, tolerance, limit);
        pieces_on_grid(second_half(b), k + 1, tolerance, limit);
        assert(whole =~= front + back);
        assert forall|i: int| 0 <= i < whole.len() implies on_grid(
            (#[trigger] whole[i]).0,
            whole[i].1,
        ) by {
            if i < front.len() {
                assert(whole[i] == front[i]);
            } else {
                assert(whole[i] == back[i - front.len()]);
            }
        }
    }
}

/// The trial quadratic of a piece on the grid, as it is emitted, lies on
/// the grid points nearest to the exact one.
pub proof fn trial_quadratic_is_near(b: Bezier, k: nat)
    requires
        on_grid(b, k),
    ensures
        on_nearest_grid_points(trial_quadratic(b, k), b, k),
{
    let s = scale_at(k);
    scale_grows(0, k);
    assert(-0x8000_0000 * (2 * s) == 2 * (-0x8000_0000 * s));
    assert(0x7fff_ffff * (2 * s) == 2 * (0x7fff_ffff * s));
    nearest_between(b.bx + b.cx, 2 * s, -0x8000_0000, 0x7fff_ffff);
    nearest_between(b.by + b.cy, 2 * s, -0x8000_0000, 0x7fff_ffff);
    nearest_between(b.dx, s, -0x8000_0000, 0x7fff_ffff);
    nearest_between(b.dy, s, -0x8000_0000, 0x7fff_ffff);
    nearest_is_near(b.bx + b.cx, 2 * s);
    nearest_is_near(b.by + b.cy, 2 * s);
    nearest_is_near(b.dx, s);
    nearest_is_near(b.dy, s);
}

/// Every quadratic that stands for a cubic is emitted on the grid points
/// nearest to the trial quadratic of its piece: rounding moves its control
/// point and its end no more than half a grid unit along x and along y.
/// Together with `approximation_bound` this bounds what is emitted.
pub proof fn emitted_points_are_near(cubic: Cubic, tolerance: u32)
    ensures
        approximation(cubic, tolerance).len() == pieces(
            cubic.unscaled(),
            0,
            tolerance as int,
            MAX_DEPTH as nat,
        ).len(),
        forall|i: int|
            0 <= i < approximation(cubic, tolerance).len() ==> on_nearest_grid_points(
                #[trigger] approximation(cubic, tolerance)[i],
                pieces(cubic.unscaled(), 0, tolerance as int, MAX_DEPTH as nat)[i].0,
                pieces(cubic.unscaled(), 0, tolerance as int, MAX_DEPTH as nat)[i].1,
            ),
{
    let b = cubic.unscaled();
    let ps = pieces(b, 0, tolerance as int, MAX_DEPTH as nat);
    assert(scale_at(0) == 1);
    pieces_on_grid(b, 0, tolerance as int, MAX_DEPTH as nat);
    assert forall|i: int| 0 <= i < ps.len() implies on_nearest_grid_points(
        #[trigger] approximation(cubic, tolerance)[i],
        ps[i].0,
        ps[i].1,
    ) by {
        assert(on_grid(ps[i].0, ps[i].1));
        trial_quadratic_is_near(ps[i].0, ps[i].1);
    }
}

} // verus!
