use typst::bez::{
    find_intersections_bbox, CubicBez, Line, Monotone, ParamCurve, PathSeg, PathSegExt, QuadBez,
};
use typst::geom::{Point, Rect, Transform, TranslateScale, UNIT};

fn units(v: f64) -> i64 {
    (v * UNIT as f64).round() as i64
}

fn pt(x: f64, y: f64) -> Point {
    Point::new(units(x), units(y))
}

fn to_f64(p: &Point) -> (f64, f64) {
    (p.x as f64 / UNIT as f64, p.y as f64 / UNIT as f64)
}

/// Reads a path of the form `Mx y Cx1 y1 x2 y2 x3 y3` as one cubic segment.
fn seg(d: &str) -> PathSeg {
    let nums: Vec<f64> = d
        .replace('M', " ")
        .replace('C', " ")
        .split_whitespace()
        .map(|s| s.parse().unwrap())
        .collect();
    assert_eq!(nums.len(), 8);
    PathSeg::Cubic(CubicBez {
        p0: pt(nums[0], nums[1]),
        p1: pt(nums[2], nums[3]),
        p2: pt(nums[4], nums[5]),
        p3: pt(nums[6], nums[7]),
    })
}

fn assert_points_approx(actual: &[Point], expected: &[(f64, f64)], tolerance: f64) {
    assert_eq!(actual.len(), expected.len(), "got {:?}", actual);
    for (a, e) in actual.iter().zip(expected) {
        let (x, y) = to_f64(a);
        assert!(
            (x - e.0).abs() <= tolerance && (y - e.1).abs() <= tolerance,
            "({}, {}) is not near {:?}",
            x,
            y,
            e
        );
    }
}

fn sorted_by_y(mut v: Vec<Point>) -> Vec<Point> {
    v.sort_by(|a, b| a.y.cmp(&b.y));
    v
}

#[test]
fn test_intersect_monotone_two_intersections() {
    let a = Monotone(seg("M9 31C37.5 31 59 61 59 81"));
    let b = Monotone(seg("M21 20C21 40 42.5 70 71 70"));

    assert_points_approx(
        &a.intersect(&b, units(0.01), 3),
        &[(24.0, 34.0), (56.0, 67.0)],
        0.5,
    );
}

#[test]
fn test_intersect_monotone_three_intersections() {
    let a = Monotone(seg("M59 81C14 74.5 37.5 31 9 31"));
    let b = Monotone(seg("M17 31C17 81 50 53 50 81"));

    let vec = sorted_by_y(a.intersect(&b, units(0.01), 3));
    assert_points_approx(&vec, &[(17.0, 32.5), (31.5, 63.5), (50.0, 79.0)], 0.25);
}

#[test]
fn test_intersect_not_monotone_five_intersections() {
    let a = seg("M53 69C82 12 -2 -11 23 69");
    let b = seg("M31 63C-71 14 187 75 11 17");

    let vec = sorted_by_y(find_intersections_bbox(&a, &b, units(0.01), 5));
    assert_points_approx(
        &vec,
        &[(25.0, 21.5), (56.5, 33.0), (18.0, 42.0), (59.0, 44.0), (20.0, 57.5)],
        0.5,
    );
}

#[test]
fn test_intersect_curve_with_itself() {
    let a1 = seg("M53 69C82 12 -2 -11 23 69");
    let a2 = seg("M53 69C82 12 -2 -11 23 69");

    let vec = find_intersections_bbox(&a1, &a2, units(0.01), 10);
    assert_eq!(vec.len(), 10);
}

#[test]
fn disjoint_boxes_give_no_intersection() {
    let a = seg("M0 0C1 0 2 1 2 2");
    let b = seg("M10 10C11 10 12 11 12 12");
    assert!(find_intersections_bbox(&a, &b, units(0.01), 9).is_empty());
    assert!(Monotone(a).intersect(&Monotone(b), units(0.01), 9).is_empty());
}

#[test]
fn boxes_touching_at_an_edge_do_not_overlap() {
    let a = PathSeg::Line(Line { p0: pt(0.0, 0.0), p1: pt(1.0, 1.0) });
    let b = PathSeg::Line(Line { p0: pt(1.0, 1.0), p1: pt(2.0, 2.0) });
    assert!(find_intersections_bbox(&a, &b, units(0.01), 3).is_empty());
}

#[test]
fn crossing_lines_meet_once() {
    let a = Monotone(PathSeg::Line(Line { p0: pt(0.0, 0.0), p1: pt(10.0, 10.0) }));
    let b = Monotone(PathSeg::Line(Line { p0: pt(0.0, 8.0), p1: pt(10.0, 0.0) }));
    let r = a.intersect(&b, units(0.01), 1);
    assert_points_approx(&r, &[(40.0 / 9.0, 40.0 / 9.0)], 0.02);
}

#[test]
fn box_search_misses_a_crossing_exactly_at_a_split_point() {
    // The halves only touch at the crossing, and touching boxes do not count
    // as overlapping.
    let a = PathSeg::Line(Line { p0: pt(0.0, 0.0), p1: pt(10.0, 10.0) });
    let b = PathSeg::Line(Line { p0: pt(0.0, 10.0), p1: pt(10.0, 0.0) });
    assert!(find_intersections_bbox(&a, &b, units(0.01), 1).is_empty());
}

#[test]
fn monotone_lines_are_solved_exactly() {
    let a = Monotone(PathSeg::Line(Line { p0: pt(0.0, 0.0), p1: pt(10.0, 10.0) }));
    let b = Monotone(PathSeg::Line(Line { p0: pt(0.0, 10.0), p1: pt(10.0, 0.0) }));
    assert_eq!(a.intersect(&b, units(0.01), 3), vec![pt(5.0, 5.0)]);
    assert!(a.intersect(&b, units(0.01), 0).is_empty());
}

#[test]
fn monotone_lines_that_do_not_reach_each_other() {
    // The boxes overlap, but the crossing of the two lines lies past the end
    // of the second one.
    let a = Monotone(PathSeg::Line(Line { p0: pt(0.0, 0.0), p1: pt(10.0, 10.0) }));
    let b = Monotone(PathSeg::Line(Line { p0: pt(2.0, 9.0), p1: pt(4.0, 8.0) }));
    assert!(a.intersect(&b, units(0.01), 3).is_empty());
    // Parallel lines never cross.
    let c = Monotone(PathSeg::Line(Line { p0: pt(1.0, 0.0), p1: pt(11.0, 10.0) }));
    assert!(a.intersect(&c, units(0.01), 3).is_empty());
}

#[test]
fn zero_capacity_reports_nothing() {
    let a = seg("M53 69C82 12 -2 -11 23 69");
    assert!(find_intersections_bbox(&a, &a, units(0.01), 0).is_empty());
}

#[test]
fn reported_points_are_apart() {
    let a = seg("M53 69C82 12 -2 -11 23 69");
    let b = seg("M31 63C-71 14 187 75 11 17");
    let acc = units(0.01);
    let vec = find_intersections_bbox(&a, &b, acc, 9);
    assert!(vec.len() <= 9);
    for i in 0..vec.len() {
        for j in i + 1..vec.len() {
            assert!(!vec[i].approx_eq(&vec[j], 2 * acc));
        }
    }
}

#[test]
fn subdivide_splits_a_cubic_at_the_middle() {
    let c = PathSeg::Cubic(CubicBez {
        p0: Point::new(0, 0),
        p1: Point::new(8, 0),
        p2: Point::new(16, 8),
        p3: Point::new(16, 16),
    });
    let (a, b) = c.subdivide();
    assert_eq!(
        a,
        PathSeg::Cubic(CubicBez {
            p0: Point::new(0, 0),
            p1: Point::new(4, 0),
            p2: Point::new(8, 2),
            p3: Point::new(11, 5),
        })
    );
    assert_eq!(
        b,
        PathSeg::Cubic(CubicBez {
            p0: Point::new(11, 5),
            p1: Point::new(14, 8),
            p2: Point::new(16, 12),
            p3: Point::new(16, 16),
        })
    );
}

#[test]
fn subdivide_rounds_toward_zero() {
    let q = PathSeg::Quad(QuadBez { p0: Point::new(-3, 0), p1: Point::new(0, 0), p2: Point::new(3, 1) });
    let (a, b) = q.subdivide();
    assert_eq!(a, PathSeg::Quad(QuadBez { p0: Point::new(-3, 0), p1: Point::new(-1, 0), p2: Point::new(0, 0) }));
    assert_eq!(b, PathSeg::Quad(QuadBez { p0: Point::new(0, 0), p1: Point::new(1, 0), p2: Point::new(3, 1) }));
}

#[test]
fn bounding_boxes() {
    let c = PathSeg::Cubic(CubicBez {
        p0: Point::new(0, 0),
        p1: Point::new(-5, 3),
        p2: Point::new(9, -2),
        p3: Point::new(4, 4),
    });
    assert_eq!(c.bounding_box(), Rect { x0: -5, y0: -2, x1: 9, y1: 4 });
    let m = Monotone(c);
    assert_eq!(m.bounding_box(), Rect { x0: 0, y0: 0, x1: 4, y1: 4 });
    let r = Rect { x0: -5, y0: -2, x1: 9, y1: 4 };
    assert_eq!(r.width(), 14);
    assert_eq!(r.height(), 6);
    assert_eq!(r.center(), Point::new(2, 1));
}

#[test]
fn reverse_swaps_the_endpoints() {
    let c = seg("M9 31C37.5 31 59 61 59 81");
    let r = Monotone(c).reverse();
    assert_eq!(r.start(), c.end());
    assert_eq!(r.end(), c.start());
    assert_eq!(r.reverse().0, c);
}

#[test]
fn identity_transform_keeps_every_segment() {
    let segs = vec![
        PathSeg::Line(Line { p0: pt(0.0, 0.0), p1: pt(35.0, 10.0) }),
        PathSeg::Quad(QuadBez { p0: pt(0.0, 0.0), p1: pt(35.0, 0.0), p2: pt(80.0, 35.0) }),
        seg("M53 69C82 12 -2 -11 23 69"),
    ];
    for s in segs {
        assert_eq!(s.apply_affine(Transform::identity()), s);
    }
}

#[test]
fn affine_transform_maps_control_points() {
    // Rotate by a quarter turn and move right by one point.
    let t = Transform { sx: 0, ky: UNIT, kx: -UNIT, sy: 0, tx: UNIT, ty: 0 };
    let l = PathSeg::Line(Line { p0: pt(1.0, 0.0), p1: pt(2.0, 3.0) });
    assert_eq!(l.apply_affine(t), PathSeg::Line(Line { p0: pt(1.0, 1.0), p1: pt(-2.0, 2.0) }));
}

#[test]
fn translate_scale_doubles_and_moves() {
    let ts = TranslateScale::new(pt(1.0, -1.0), 2 * UNIT);
    let q = PathSeg::Quad(QuadBez { p0: pt(0.0, 0.0), p1: pt(1.5, 2.0), p2: pt(3.0, 0.5) });
    assert_eq!(
        q.apply_translate_scale(ts),
        PathSeg::Quad(QuadBez { p0: pt(1.0, -1.0), p1: pt(4.0, 3.0), p2: pt(7.0, 0.0) })
    );
    let m = Monotone(q).apply_translate_scale(ts);
    assert_eq!(m.0, q.apply_translate_scale(ts));
}

#[test]
fn approx_eq_is_strict() {
    let p = Point::new(0, 0);
    assert!(p.approx_eq(&Point::new(9, -9), 10));
    assert!(!p.approx_eq(&Point::new(10, 0), 10));
}

#[test]
fn test_bez_point_for_t() {
    let bez = PathSeg::Cubic(CubicBez {
        p0: pt(0.0, 0.0),
        p1: pt(35.0, 0.0),
        p2: pt(80.0, 35.0),
        p3: pt(80.0, 70.0),
    });

    assert_eq!(bez.eval(0), pt(0.0, 0.0));
    assert_eq!(bez.eval(UNIT), pt(80.0, 70.0));

    let (x, y) = to_f64(&bez.eval(units(0.3)));
    assert!((x - 32.7).abs() <= 0.1 && (y - 8.5).abs() <= 0.1, "({}, {})", x, y);
}

#[test]
fn eval_line_and_quad() {
    let l = PathSeg::Line(Line { p0: Point::new(0, 0), p1: Point::new(-10, 20) });
    assert_eq!(l.eval(UNIT / 2), Point::new(-5, 10));
    assert_eq!(l.eval(UNIT / 4), Point::new(-2, 5));
    let q = PathSeg::Quad(QuadBez { p0: pt(0.0, 0.0), p1: pt(1.0, 2.0), p2: pt(2.0, 0.0) });
    assert_eq!(q.eval(UNIT / 2), pt(1.0, 1.0));
    assert_eq!(Monotone(l).eval(UNIT), Point::new(-10, 20));
}

#[test]
fn monotone_extrema() {
    let m = Monotone(seg("M9 31C37.5 31 59 61 59 81"));
    assert!(m.extrema().is_empty());
    assert_eq!(m.extrema_ranges(), vec![(0, UNIT)]);
}

#[test]
fn reported_points_lie_near_both_boxes() {
    let a = seg("M53 69C82 12 -2 -11 23 69");
    let b = seg("M31 63C-71 14 187 75 11 17");
    let acc = units(0.01);
    let (ra, rb) = (a.bounding_box(), b.bounding_box());
    let near = |p: &Point, r: &Rect| {
        2 * (r.x0 - p.x) <= acc
            && 2 * (p.x - r.x1) <= acc
            && 2 * (r.y0 - p.y) <= acc
            && 2 * (p.y - r.y1) <= acc
    };
    let vec = find_intersections_bbox(&a, &b, acc, 9);
    assert!(!vec.is_empty());
    for p in &vec {
        assert!(near(p, &ra) && near(p, &rb));
    }
}

#[test]
fn overlap_of_two_rectangles() {
    let a = Rect { x0: 0, y0: 0, x1: 10, y1: 10 };
    let b = Rect { x0: 4, y0: -3, x1: 12, y1: 6 };
    assert_eq!(a.meet(&b), Rect { x0: 4, y0: 0, x1: 10, y1: 6 });
    assert_eq!(a.union(&b), Rect { x0: 0, y0: -3, x1: 12, y1: 10 });
    assert_eq!(Rect::from_points(Point::new(3, -1), Point::new(-2, 5)), Rect { x0: -2, y0: -1, x1: 3, y1: 5 });
}

#[test]
fn monotone_curve_against_a_line_reports_points_of_the_line() {
    let c = Monotone(PathSeg::Cubic(CubicBez {
        p0: pt(49.0, -1.0),
        p1: pt(50.0, 0.0),
        p2: pt(50.0, 1.0),
        p3: pt(51.0, 3.0),
    }));
    let l = Monotone(PathSeg::Line(Line { p0: pt(0.0, 0.0), p1: pt(100.0, 0.0) }));
    for r in [c.intersect(&l, units(10.0), 3), l.intersect(&c, units(10.0), 3)] {
        assert_eq!(r.len(), 1);
        assert_eq!(r[0].y, 0);
        let (x, _) = to_f64(&r[0]);
        assert!((x - 49.9).abs() < 0.2, "{}", x);
    }
}

#[test]
fn curve_against_a_line_keeps_the_first_hits() {
    let c = Monotone(PathSeg::Cubic(CubicBez {
        p0: pt(0.0, 1.0),
        p1: pt(6.0, 1.0),
        p2: pt(6.0, 12.0),
        p3: pt(11.0, 12.0),
    }));
    let l = Monotone(PathSeg::Line(Line { p0: pt(0.0, 0.0), p1: pt(100.0, 100.0) }));
    let all = c.intersect(&l, units(0.01), 3);
    assert_eq!(all.len(), 2);
    for p in &all {
        assert!((p.x - p.y).abs() <= 1);
    }
    assert!(all[0].x < all[1].x);
    let first = c.intersect(&l, units(0.01), 1);
    assert_eq!(first, vec![all[0]]);
}

fn test_curves() -> Vec<PathSeg> {
    vec![
        PathSeg::Line(Line { p0: pt(0.0, 0.0), p1: pt(35.0, 10.0) }),
        PathSeg::Quad(QuadBez { p0: pt(0.0, 0.0), p1: pt(35.0, 0.0), p2: pt(80.0, 35.0) }),
        PathSeg::Cubic(CubicBez {
            p0: pt(0.0, 0.0),
            p1: pt(35.0, 0.0),
            p2: pt(80.0, 35.0),
            p3: pt(80.0, 70.0),
        }),
    ]
}

fn assert_values_approx(actual: &[i64], expected: f64, eps: f64) {
    assert_eq!(actual.len(), 1, "got {:?}", actual);
    let got = actual[0] as f64 / UNIT as f64;
    assert!((got - expected).abs() <= eps, "{} is not near {}", got, expected);
}

#[test]
fn test_bez_solve_for_coordinate_for_different_sampled_points() {
    let eps = 1e-3;
    for seg in test_curves() {
        for &t in &[0.01, 0.2, 0.5, 0.7, 0.99] {
            let p = seg.eval(units(t));
            let (x, y) = to_f64(&p);

            assert_values_approx(&seg.solve_t_for_x(p.x), t, eps);
            assert_values_approx(&seg.solve_t_for_y(p.y), t, eps);
            assert_values_approx(&seg.solve_y_for_x(p.x), y, eps);
            assert_values_approx(&seg.solve_x_for_y(p.y), x, eps);
        }
    }
}

#[test]
fn test_bez_solve_for_coordinate_out_of_bounds() {
    for seg in test_curves() {
        assert!(seg.solve_x_for_y(units(-10.0)).is_empty());
        assert!(seg.solve_x_for_y(units(100.0)).is_empty());
        assert!(seg.solve_y_for_x(units(-20.0)).is_empty());
        assert!(seg.solve_y_for_x(units(100.0)).is_empty());
    }
}

#[test]
fn solving_a_non_monotone_coordinate_finds_each_crossing() {
    // x goes from 0 out to 7.5 and back to 0: the value 5 is reached twice.
    let q = PathSeg::Quad(QuadBez { p0: pt(0.0, 0.0), p1: pt(15.0, 5.0), p2: pt(0.0, 10.0) });
    let ts = q.solve_t_for_x(units(5.0));
    assert_eq!(ts.len(), 2);
    let a = ts[0] as f64 / UNIT as f64;
    let b = ts[1] as f64 / UNIT as f64;
    let r1 = (1.0 - (1.0f64 / 3.0).sqrt()) / 2.0;
    assert!((a - r1).abs() < 1e-3 && (b - (1.0 - r1)).abs() < 1e-3, "{} {}", a, b);
    let ys = q.solve_y_for_x(units(5.0));
    assert_eq!(ys, vec![q.eval(ts[0]).y, q.eval(ts[1]).y]);
    assert_eq!(q.solve_t_for_x(units(7.5)).len(), 1);
    assert!(q.solve_t_for_x(units(7.6)).is_empty());
}

#[test]
fn tight_box_follows_the_curve() {
    let q = PathSeg::Quad(QuadBez { p0: pt(0.0, 0.0), p1: pt(10.0, 10.0), p2: pt(20.0, 0.0) });
    assert_eq!(q.tight_bounding_box(), Rect { x0: 0, y0: 0, x1: units(20.0), y1: units(5.0) });
    assert_eq!(q.bounding_box(), Rect { x0: 0, y0: 0, x1: units(20.0), y1: units(10.0) });
}

#[test]
fn subsegment_restricts_the_parameter_range() {
    let l = PathSeg::Line(Line { p0: pt(0.0, 0.0), p1: pt(8.0, 4.0) });
    assert_eq!(
        l.subsegment(UNIT / 4, UNIT / 2),
        PathSeg::Line(Line { p0: pt(2.0, 1.0), p1: pt(4.0, 2.0) })
    );
    let c = seg("M53 69C82 12 -2 -11 23 69");
    let part = c.subsegment(units(0.25), units(0.75));
    assert_eq!(part.end(), c.eval(units(0.75)));
    let (x, y) = to_f64(&part.start());
    let (ex, ey) = to_f64(&c.eval(units(0.25)));
    assert!((x - ex).abs() < 0.01 && (y - ey).abs() < 0.01);
    assert_eq!(c.subsegment(0, UNIT), c);
    assert_eq!(Monotone(c).subsegment(0, UNIT / 2).0, c.subsegment(0, UNIT / 2));
}
