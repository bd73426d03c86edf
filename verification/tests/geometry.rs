use svg2font::curves::{
    approximate_cubic_with_quadratics, cubic_to_quadratic, subdivide_cubic, Cubic, Piece,
    MAX_DEPTH, TOLERANCE,
};
use svg2font::path::{DoubledPoint, FillRule, PathCommand, Point};
use svg2font::winding::{
    contour_bounds, descending_order, fix_evenodd_winding, normalize_winding, point_in_contour,
    reverse_contour, split_into_contours, twice_signed_area, BoundingBox,
};

fn p(x: i32, y: i32) -> Point {
    Point { x, y }
}

fn square(x0: i32, y0: i32, x1: i32, y1: i32, clockwise: bool) -> Vec<PathCommand> {
    // With y growing upwards, going up the left side first is clockwise.
    if clockwise {
        vec![
            PathCommand::MoveTo(p(x0, y0)),
            PathCommand::LineTo(p(x0, y1)),
            PathCommand::LineTo(p(x1, y1)),
            PathCommand::LineTo(p(x1, y0)),
            PathCommand::Close,
        ]
    } else {
        vec![
            PathCommand::MoveTo(p(x0, y0)),
            PathCommand::LineTo(p(x1, y0)),
            PathCommand::LineTo(p(x1, y1)),
            PathCommand::LineTo(p(x0, y1)),
            PathCommand::Close,
        ]
    }
}

fn join(parts: &[Vec<PathCommand>]) -> Vec<PathCommand> {
    let mut all = Vec::new();
    for part in parts {
        all.extend(part.iter().copied());
    }
    all
}

#[test]
fn signed_area_of_squares() {
    assert_eq!(twice_signed_area(&square(0, 0, 10, 10, false)), 200);
    assert_eq!(twice_signed_area(&square(0, 0, 10, 10, true)), -200);
    assert_eq!(twice_signed_area(&square(5, 7, 8, 11, false)), 24);
}

#[test]
fn signed_area_counts_curves_by_their_chords() {
    let path = vec![
        PathCommand::MoveTo(p(0, 0)),
        PathCommand::QuadTo(p(50, -40), p(10, 0)),
        PathCommand::CubicTo(p(90, 3), p(70, 8), p(10, 10)),
        PathCommand::LineTo(p(0, 10)),
        PathCommand::Close,
    ];
    assert_eq!(twice_signed_area(&path), 200);
}

#[test]
fn signed_area_of_open_and_degenerate_contours() {
    assert_eq!(twice_signed_area(&vec![]), 0);
    assert_eq!(twice_signed_area(&vec![PathCommand::MoveTo(p(3, 4))]), 0);
    assert_eq!(
        twice_signed_area(&vec![PathCommand::MoveTo(p(3, 4)), PathCommand::Close]),
        0
    );
    // Without a closing command the way back to the start is not counted.
    let open = vec![
        PathCommand::MoveTo(p(1, 0)),
        PathCommand::LineTo(p(1, 1)),
        PathCommand::LineTo(p(0, 1)),
    ];
    assert_eq!(twice_signed_area(&open), 1 + 1);
}

#[test]
fn signed_area_at_the_ends_of_the_grid() {
    let lo = i32::MIN;
    let hi = i32::MAX;
    let path = square(lo, lo, hi, hi, false);
    let side = hi as i128 - lo as i128;
    assert_eq!(twice_signed_area(&path), 2 * side * side);
}

#[test]
fn bounds_use_end_points_only() {
    let path = vec![
        PathCommand::MoveTo(p(2, 3)),
        PathCommand::QuadTo(p(100, 100), p(8, -1)),
        PathCommand::CubicTo(p(-50, 0), p(0, -50), p(4, 9)),
        PathCommand::Close,
    ];
    assert_eq!(
        contour_bounds(&path),
        BoundingBox { x0: 2, y0: -1, x1: 8, y1: 9 }
    );
    assert_eq!(
        contour_bounds(&vec![]),
        BoundingBox { x0: 0, y0: 0, x1: 0, y1: 0 }
    );
    assert_eq!(
        contour_bounds(&vec![PathCommand::MoveTo(p(-7, 5))]),
        BoundingBox { x0: -7, y0: 5, x1: -7, y1: 5 }
    );
}

#[test]
fn box_measures() {
    let b = BoundingBox { x0: 1, y0: 2, x1: 4, y1: 9 };
    assert_eq!(b.measure(), 21);
    assert_eq!(b.midpoint(), DoubledPoint { x2: 5, y2: 11 });
    assert!(b.holds(DoubledPoint { x2: 2, y2: 4 }));
    assert!(!b.holds(DoubledPoint { x2: 8, y2: 4 }));
    assert!(!b.holds(DoubledPoint { x2: 2, y2: 18 }));
    assert!(b.holds(DoubledPoint { x2: 7, y2: 17 }));
    assert!(!b.holds(DoubledPoint { x2: 1, y2: 4 }));
}

#[test]
fn point_in_square() {
    let sq = square(0, 0, 10, 10, false);
    assert!(point_in_contour(DoubledPoint { x2: 10, y2: 10 }, &sq));
    assert!(point_in_contour(DoubledPoint { x2: 1, y2: 19 }, &sq));
    assert!(!point_in_contour(DoubledPoint { x2: 21, y2: 10 }, &sq));
    assert!(!point_in_contour(DoubledPoint { x2: -1, y2: 10 }, &sq));
    assert!(!point_in_contour(DoubledPoint { x2: 10, y2: 21 }, &sq));
    assert!(!point_in_contour(DoubledPoint { x2: 10, y2: -1 }, &sq));
}

#[test]
fn point_in_contour_is_the_same_for_both_directions() {
    let a = square(0, 0, 10, 10, false);
    let b = square(0, 0, 10, 10, true);
    for x2 in -3..24 {
        for y2 in -3..24 {
            let q = DoubledPoint { x2, y2 };
            assert_eq!(point_in_contour(q, &a), point_in_contour(q, &b));
        }
    }
}

#[test]
fn point_in_triangle_with_slanted_edge() {
    let tri = vec![
        PathCommand::MoveTo(p(0, 0)),
        PathCommand::LineTo(p(10, 0)),
        PathCommand::LineTo(p(0, 10)),
        PathCommand::Close,
    ];
    assert!(point_in_contour(DoubledPoint { x2: 4, y2: 4 }, &tri));
    assert!(point_in_contour(DoubledPoint { x2: 9, y2: 10 }, &tri));
    assert!(!point_in_contour(DoubledPoint { x2: 11, y2: 10 }, &tri));
    assert!(!point_in_contour(DoubledPoint { x2: 12, y2: 12 }, &tri));
}

#[test]
fn open_polyline_has_no_closing_edge() {
    let open = vec![
        PathCommand::MoveTo(p(0, 0)),
        PathCommand::LineTo(p(10, 0)),
        PathCommand::LineTo(p(10, 10)),
    ];
    // The ray to the right from (5, 5) meets the edge x = 10 once.
    assert!(point_in_contour(DoubledPoint { x2: 10, y2: 10 }, &open));
    let closed = vec![
        PathCommand::MoveTo(p(0, 0)),
        PathCommand::LineTo(p(10, 0)),
        PathCommand::LineTo(p(10, 10)),
        PathCommand::Close,
    ];
    assert!(point_in_contour(DoubledPoint { x2: 16, y2: 10 }, &closed));
    assert!(!point_in_contour(DoubledPoint { x2: 4, y2: 10 }, &closed));
}

#[test]
fn split_at_every_move() {
    let a = square(0, 0, 10, 10, true);
    let b = square(2, 2, 4, 4, true);
    let parts = split_into_contours(&join(&[a.clone(), b.clone()]));
    assert_eq!(parts, vec![a, b]);
    assert_eq!(split_into_contours(&vec![]), Vec::<Vec<PathCommand>>::new());
}

#[test]
fn split_keeps_a_leading_run_without_move() {
    let path = vec![
        PathCommand::LineTo(p(1, 1)),
        PathCommand::Close,
        PathCommand::MoveTo(p(2, 2)),
        PathCommand::MoveTo(p(3, 3)),
        PathCommand::LineTo(p(4, 4)),
    ];
    let parts = split_into_contours(&path);
    assert_eq!(
        parts,
        vec![
            vec![PathCommand::LineTo(p(1, 1)), PathCommand::Close],
            vec![PathCommand::MoveTo(p(2, 2))],
            vec![PathCommand::MoveTo(p(3, 3)), PathCommand::LineTo(p(4, 4))],
        ]
    );
}

#[test]
fn reverse_closed_polygon() {
    let sq = square(0, 0, 10, 10, true);
    // The closing line from (10, 0) back to the start becomes a segment.
    assert_eq!(
        reverse_contour(&sq),
        vec![
            PathCommand::MoveTo(p(0, 0)),
            PathCommand::LineTo(p(10, 0)),
            PathCommand::LineTo(p(10, 10)),
            PathCommand::LineTo(p(0, 10)),
            PathCommand::LineTo(p(0, 0)),
            PathCommand::Close,
        ]
    );
}

#[test]
fn reverse_swaps_cubic_controls() {
    let path = vec![
        PathCommand::MoveTo(p(0, 0)),
        PathCommand::CubicTo(p(1, 5), p(9, 5), p(10, 0)),
        PathCommand::QuadTo(p(5, -5), p(0, 0)),
        PathCommand::Close,
    ];
    assert_eq!(
        reverse_contour(&path),
        vec![
            PathCommand::MoveTo(p(0, 0)),
            PathCommand::QuadTo(p(5, -5), p(10, 0)),
            PathCommand::CubicTo(p(9, 5), p(1, 5), p(0, 0)),
            PathCommand::Close,
        ]
    );
}

#[test]
fn reverse_open_and_degenerate_contours() {
    let open = vec![
        PathCommand::MoveTo(p(0, 0)),
        PathCommand::LineTo(p(1, 0)),
        PathCommand::LineTo(p(1, 1)),
    ];
    assert_eq!(
        reverse_contour(&open),
        vec![
            PathCommand::MoveTo(p(1, 1)),
            PathCommand::LineTo(p(1, 0)),
            PathCommand::LineTo(p(0, 0)),
        ]
    );
    assert_eq!(
        reverse_contour(&vec![PathCommand::MoveTo(p(4, 5)), PathCommand::Close]),
        vec![PathCommand::MoveTo(p(4, 5))]
    );
    assert_eq!(reverse_contour(&vec![]), vec![PathCommand::MoveTo(p(0, 0))]);
}

#[test]
fn reversing_negates_the_area() {
    let path = vec![
        PathCommand::MoveTo(p(0, 0)),
        PathCommand::LineTo(p(7, 1)),
        PathCommand::QuadTo(p(9, 9), p(3, 8)),
        PathCommand::Close,
    ];
    let area = twice_signed_area(&path);
    assert_ne!(area, 0);
    assert_eq!(twice_signed_area(&reverse_contour(&path)), -area);
}

#[test]
fn descending_order_is_stable() {
    assert_eq!(descending_order(&vec![5, 9, 5, 1, 9]), vec![1, 4, 0, 2, 3]);
    assert_eq!(descending_order(&vec![]), Vec::<usize>::new());
    assert_eq!(descending_order(&vec![3, 2, 1]), vec![0, 1, 2]);
    assert_eq!(descending_order(&vec![1, 2, 3]), vec![2, 1, 0]);
}

// An outer square with a fully enclosed hole, both authored clockwise, for
// the even-odd rule: the outer contour stays clockwise at nesting level 0,
// the hole is reversed to counter-clockwise at nesting level 1.
#[test]
fn hole_is_turned_counter_clockwise() {
    let outer = square(0, 0, 100, 100, true);
    let inner = square(25, 25, 75, 75, true);
    assert!(twice_signed_area(&outer) < 0);
    assert!(twice_signed_area(&inner) < 0);
    let fixed = normalize_winding(&join(&[outer.clone(), inner.clone()]), FillRule::EvenOdd);
    let parts = split_into_contours(&fixed);
    assert_eq!(parts.len(), 2);
    assert_eq!(parts[0], outer);
    assert!(twice_signed_area(&parts[0]) < 0);
    assert_eq!(parts[1], reverse_contour(&inner));
    assert!(twice_signed_area(&parts[1]) > 0);
}

#[test]
fn hole_given_first_is_sorted_behind_its_outer_contour() {
    let outer = square(0, 0, 100, 100, false);
    let inner = square(25, 25, 75, 75, false);
    let fixed = normalize_winding(&join(&[inner.clone(), outer.clone()]), FillRule::EvenOdd);
    let parts = split_into_contours(&fixed);
    assert_eq!(parts.len(), 2);
    assert_eq!(parts[0], reverse_contour(&outer));
    assert!(twice_signed_area(&parts[0]) < 0);
    assert_eq!(parts[1], inner);
    assert!(twice_signed_area(&parts[1]) > 0);
}

#[test]
fn three_nested_contours_alternate() {
    let a = square(0, 0, 100, 100, true);
    let b = square(10, 10, 90, 90, true);
    let c = square(20, 20, 80, 80, true);
    let fixed = normalize_winding(&join(&[a, b, c]), FillRule::EvenOdd);
    let parts = split_into_contours(&fixed);
    assert_eq!(parts.len(), 3);
    assert!(twice_signed_area(&parts[0]) < 0);
    assert!(twice_signed_area(&parts[1]) > 0);
    assert!(twice_signed_area(&parts[2]) < 0);
}

#[test]
fn contours_side_by_side_are_both_outer() {
    let a = square(0, 0, 10, 10, false);
    let b = square(20, 0, 30, 10, true);
    let fixed = normalize_winding(&join(&[a.clone(), b.clone()]), FillRule::EvenOdd);
    let parts = split_into_contours(&fixed);
    assert_eq!(parts, vec![reverse_contour(&a), b]);
}

#[test]
fn single_contour_is_unchanged_by_either_rule() {
    let ccw = square(0, 0, 10, 10, false);
    assert_eq!(normalize_winding(&ccw, FillRule::EvenOdd), ccw);
    assert_eq!(normalize_winding(&ccw, FillRule::NonZero), ccw);
    let cw = square(0, 0, 10, 10, true);
    assert_eq!(normalize_winding(&cw, FillRule::EvenOdd), cw);
    let mut in_place = ccw.clone();
    fix_evenodd_winding(&mut in_place);
    assert_eq!(in_place, ccw);
    assert_eq!(normalize_winding(&vec![], FillRule::EvenOdd), vec![]);
}

#[test]
fn non_zero_paths_pass_through() {
    let path = join(&[square(0, 0, 100, 100, true), square(25, 25, 75, 75, true)]);
    assert_eq!(normalize_winding(&path, FillRule::NonZero), path);
}

#[test]
fn normalizing_twice_is_normalizing_once() {
    let paths = vec![
        join(&[square(0, 0, 100, 100, true), square(25, 25, 75, 75, true)]),
        join(&[square(25, 25, 75, 75, false), square(0, 0, 100, 100, false)]),
        join(&[
            square(0, 0, 100, 100, false),
            square(10, 10, 90, 90, true),
            square(20, 20, 80, 80, false),
            square(200, 0, 300, 100, false),
        ]),
    ];
    for path in paths {
        let once = normalize_winding(&path, FillRule::EvenOdd);
        let twice = normalize_winding(&once, FillRule::EvenOdd);
        assert_eq!(twice, once);
    }
}

#[test]
fn contours_without_area_are_never_turned() {
    let line = vec![
        PathCommand::MoveTo(p(0, 0)),
        PathCommand::LineTo(p(5, 5)),
        PathCommand::LineTo(p(9, 9)),
        PathCommand::Close,
    ];
    let dot = vec![PathCommand::MoveTo(p(50, 50)), PathCommand::Close];
    let outer = square(0, 0, 100, 100, true);
    let fixed = normalize_winding(&join(&[outer.clone(), line.clone(), dot.clone()]), FillRule::EvenOdd);
    assert_eq!(split_into_contours(&fixed), vec![outer, line, dot]);
}

#[test]
fn straight_cubic_is_one_quadratic() {
    let cubic = Cubic { p0: p(0, 0), p1: p(10, 0), p2: p(20, 0), p3: p(30, 0) };
    let mut path = vec![PathCommand::MoveTo(p(0, 0))];
    approximate_cubic_with_quadratics(&cubic, TOLERANCE, &mut path);
    assert_eq!(
        path,
        vec![PathCommand::MoveTo(p(0, 0)), PathCommand::QuadTo(p(15, 0), p(30, 0))]
    );
}

#[test]
fn trial_control_point_rounds_halves_upwards() {
    let cubic = Cubic { p0: p(0, 0), p1: p(1, -1), p2: p(2, -2), p3: p(3, -3) };
    let mut path = Vec::new();
    approximate_cubic_with_quadratics(&cubic, TOLERANCE, &mut path);
    // The mean of the control points is (1.5, -1.5).
    assert_eq!(path, vec![PathCommand::QuadTo(p(2, -1), p(3, -3))]);
}

#[test]
fn cubic_just_beyond_the_tolerance_is_halved_once() {
    // The gap of the middles is |-p0 + p1 + p2 - p3| / 8 = 8 / 8 = 1, not
    // below the tolerance of 1.
    let cubic = Cubic { p0: p(0, 0), p1: p(0, 4), p2: p(0, 4), p3: p(0, 0) };
    let mut path = Vec::new();
    approximate_cubic_with_quadratics(&cubic, TOLERANCE, &mut path);
    // The halves have the control points 2 and 3, and 3 and 2: their means,
    // 2.5, round upwards.
    assert_eq!(
        path,
        vec![
            PathCommand::QuadTo(p(0, 3), p(0, 3)),
            PathCommand::QuadTo(p(0, 3), p(0, 0)),
        ]
    );
    // With a gap of 7 / 8 the one quadratic is accepted.
    let flatter = Cubic { p0: p(0, 0), p1: p(0, 4), p2: p(0, 3), p3: p(0, 0) };
    let mut path = Vec::new();
    approximate_cubic_with_quadratics(&flatter, TOLERANCE, &mut path);
    assert_eq!(path, vec![PathCommand::QuadTo(p(0, 4), p(0, 0))]);
}

#[test]
fn a_larger_tolerance_needs_fewer_quadratics() {
    let cubic = Cubic { p0: p(0, 0), p1: p(0, 400), p2: p(400, 400), p3: p(400, 0) };
    let mut fine = Vec::new();
    approximate_cubic_with_quadratics(&cubic, 1, &mut fine);
    let mut coarse = Vec::new();
    approximate_cubic_with_quadratics(&cubic, 1000, &mut coarse);
    assert_eq!(coarse.len(), 1);
    assert!(fine.len() > 1);
}

#[test]
fn tolerance_zero_stops_at_the_depth_limit() {
    let cubic = Cubic { p0: p(0, 0), p1: p(1, 0), p2: p(2, 0), p3: p(3, 0) };
    let mut path = Vec::new();
    approximate_cubic_with_quadratics(&cubic, 0, &mut path);
    assert_eq!(path.len(), 1usize << MAX_DEPTH);
    assert_eq!(path[path.len() - 1], PathCommand::QuadTo(p(3, 0), p(3, 0)));
}

// A cubic whose control points lie ten chord lengths off its ends.
#[test]
fn wild_cubic_needs_several_quadratics() {
    let cubic = Cubic { p0: p(0, 0), p1: p(0, 1000), p2: p(100, 1000), p3: p(100, 0) };
    let mut path = Vec::new();
    approximate_cubic_with_quadratics(&cubic, TOLERANCE, &mut path);
    assert!(path.len() > 1);
    assert_eq!(path.len(), 28);
    assert!(path.len() <= 1usize << MAX_DEPTH);
    for command in &path {
        assert!(matches!(command, PathCommand::QuadTo(_, _)));
    }
    assert_eq!(
        match path[path.len() - 1] {
            PathCommand::QuadTo(_, end) => end,
            _ => unreachable!(),
        },
        p(100, 0)
    );
}

#[test]
fn middle_test_accepts_a_cubic_whose_bends_cancel() {
    // The control points lie far off on opposite sides: the middles agree,
    // and the one quadratic is accepted.
    let cubic = Cubic { p0: p(0, 0), p1: p(0, 1000), p2: p(100, -1000), p3: p(100, 0) };
    let mut path = Vec::new();
    approximate_cubic_with_quadratics(&cubic, TOLERANCE, &mut path);
    assert_eq!(path, vec![PathCommand::QuadTo(p(50, 0), p(100, 0))]);
}

#[test]
fn quadratics_stay_near_the_cubic() {
    // Every joint of the quadratics is the middle of a piece of the cubic,
    // rounded to the grid; for this symmetric arch the middle joint is the
    // cubic's own middle, (p0 + 3 p1 + 3 p2 + p3) / 8.
    let cubic = Cubic { p0: p(0, 0), p1: p(0, 800), p2: p(800, 800), p3: p(800, 0) };
    let mut path = Vec::new();
    approximate_cubic_with_quadratics(&cubic, TOLERANCE, &mut path);
    assert_eq!(path.len() % 2, 0);
    let middle = match path[path.len() / 2 - 1] {
        PathCommand::QuadTo(_, end) => end,
        _ => unreachable!(),
    };
    assert_eq!(middle, p(400, 600));
}

#[test]
fn halves_are_exact() {
    let piece = Piece { ax: 0, ay: 0, bx: 1, by: 3, cx: 5, cy: 7, dx: 9, dy: 2 };
    let (first, second) = subdivide_cubic(&piece);
    assert_eq!(
        (first.ax, first.ay, first.bx, first.by, first.cx, first.cy, first.dx, first.dy),
        (0, 0, 4, 12, 14, 26, 27, 32)
    );
    assert_eq!(
        (second.ax, second.ay, second.bx, second.by, second.cx, second.cy, second.dx, second.dy),
        (27, 32, 40, 38, 56, 36, 72, 16)
    );
}

#[test]
fn cubics_in_a_path_are_replaced_from_the_pen() {
    let path = vec![
        PathCommand::MoveTo(p(10, 10)),
        PathCommand::LineTo(p(20, 10)),
        PathCommand::CubicTo(p(30, 10), p(40, 10), p(50, 10)),
        PathCommand::QuadTo(p(60, 20), p(70, 10)),
        PathCommand::Close,
        PathCommand::CubicTo(p(70, 10), p(70, 10), p(70, 10)),
    ];
    assert_eq!(
        cubic_to_quadratic(&path),
        vec![
            PathCommand::MoveTo(p(10, 10)),
            PathCommand::LineTo(p(20, 10)),
            PathCommand::QuadTo(p(35, 10), p(50, 10)),
            PathCommand::QuadTo(p(60, 20), p(70, 10)),
            PathCommand::Close,
            PathCommand::QuadTo(p(70, 10), p(70, 10)),
        ]
    );
    assert_eq!(cubic_to_quadratic(&vec![]), vec![]);
}

// After a closing command a contour may go on without a move. Such a path
// is not made of well-formed contours, and rewinding it need not settle.
#[test]
fn path_that_goes_on_after_closing_may_change_again() {
    let mut path = square(0, 0, 100, 100, true);
    path.extend(vec![
        PathCommand::MoveTo(p(20, 20)),
        PathCommand::LineTo(p(80, 80)),
        PathCommand::LineTo(p(20, 80)),
        PathCommand::Close,
        PathCommand::LineTo(p(50, 10)),
    ]);
    let once = normalize_winding(&path, FillRule::EvenOdd);
    let twice = normalize_winding(&once, FillRule::EvenOdd);
    assert_eq!(
        &once[5..],
        &[
            PathCommand::MoveTo(p(50, 10)),
            PathCommand::LineTo(p(20, 80)),
            PathCommand::LineTo(p(20, 80)),
            PathCommand::LineTo(p(80, 80)),
            PathCommand::LineTo(p(20, 20)),
            PathCommand::Close,
        ]
    );
    assert_ne!(twice, once);
}

// A path that draws before it moves is not made of well-formed contours
// either: its first contour is sorted behind another and joins it.
#[test]
fn path_that_draws_before_it_moves_may_change_again() {
    let path = vec![
        PathCommand::LineTo(p(0, 0)),
        PathCommand::LineTo(p(0, 0)),
        PathCommand::LineTo(p(50, 120)),
        PathCommand::MoveTo(p(20, 20)),
        PathCommand::LineTo(p(20, 80)),
        PathCommand::LineTo(p(80, 80)),
        PathCommand::Close,
        PathCommand::MoveTo(p(200, 0)),
        PathCommand::LineTo(p(200, 300)),
        PathCommand::LineTo(p(500, 300)),
        PathCommand::Close,
    ];
    let once = normalize_winding(&path, FillRule::EvenOdd);
    let twice = normalize_winding(&once, FillRule::EvenOdd);
    assert_eq!(once[0], PathCommand::MoveTo(p(200, 0)));
    assert_eq!(once[4], PathCommand::LineTo(p(0, 0)));
    assert_ne!(twice, once);
}
