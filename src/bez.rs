//! Path segments, the monotone wrapper and the recursive bounding-box
//! intersection search.

use vstd::prelude::*;
use crate::geom::{
    lemma_identity_maps_point, lemma_lerp_between, plerp, pmid2, pmid4, pmid8, point_lerp, point_mid2, point_mid4,
    point_mid8, tdiv, in_range, Point, Rect, Transform, TranslateScale, COORD_MAX, UNIT,
};

verus! {

/// A straight line from `p0` to `p1`.
#[derive(Clone, Copy, Debug, PartialEq, Eq, Structural)]
pub struct Line {
    pub p0: Point,
    pub p1: Point,
}

/// A quadratic Bézier curve; `p0` and `p2` are its endpoints.
#[derive(Clone, Copy, Debug, PartialEq, Eq, Structural)]
pub struct QuadBez {
    pub p0: Point,
    pub p1: Point,
    pub p2: Point,
}

/// A cubic Bézier curve; `p0` and `p3` are its endpoints.
#[derive(Clone, Copy, Debug, PartialEq, Eq, Structural)]
pub struct CubicBez {
    pub p0: Point,
    pub p1: Point,
    pub p2: Point,
    pub p3: Point,
}

/// One segment of a path.
#[derive(Clone, Copy, Debug, PartialEq, Eq, Structural)]
pub enum PathSeg {
    Line(Line),
    Quad(QuadBez),
    Cubic(CubicBez),
}

/// The operations that the intersection search needs of a curve.
pub trait ParamCurve: Sized {
    /// Every control value lies in the coordinate range.
    spec fn wf(&self) -> bool;

    spec fn start_spec(&self) -> Point;

    /// The point at parameter `t / UNIT`.
    spec fn eval_spec(&self, t: int) -> Point;

    spec fn end_spec(&self) -> Point;

    /// A rectangle that holds the whole curve.
    spec fn bbox_spec(&self) -> Rect;

    /// The two halves of the curve, split at the middle parameter.
    spec fn halves(&self) -> (Self, Self);

    /// The part of the curve between the parameters `t0 / UNIT` and
    /// `t1 / UNIT`, parameterized anew from zero to one.
    spec fn sub_spec(&self, t0: int, t1: int) -> Self;

    /// The point at parameter `t / UNIT`, for `t` from zero to `UNIT`.
    fn eval(&self, t: i64) -> (r: Point)
        requires
            self.wf(),
            0 <= t <= UNIT,
        ensures
            r == self.eval_spec(t as int),
            r.wf(),
    ;

    /// The point at parameter zero.
    fn start(&self) -> (r: Point)
        requires
            self.wf(),
        ensures
            r == self.start_spec(),
            r.wf(),
    ;

    /// The point at parameter one.
    fn end(&self) -> (r: Point)
        requires
            self.wf(),
        ensures
            r == self.end_spec(),
            r.wf(),
    ;

    /// A rectangle that holds the whole curve.
    fn bounding_box(&self) -> (r: Rect)
        requires
            self.wf(),
        ensures
            r == self.bbox_spec(),
            r.wf(),
    ;

    /// The part of the curve between the parameters `t0 / UNIT` and
    /// `t1 / UNIT`.
    fn subsegment(&self, t0: i64, t1: i64) -> (r: Self)
        requires
            self.wf(),
            0 <= t0 <= t1 <= UNIT,
        ensures
            r == self.sub_spec(t0 as int, t1 as int),
            r.wf(),
    ;

    /// Split the curve at the middle parameter.
    fn subdivide(&self) -> (r: (Self, Self))
        requires
            self.wf(),
        ensures
            r == self.halves(),
            r.0.wf(),
            r.1.wf(),
    ;
}

impl PathSeg {
    pub open spec fn wf_spec(&self) -> bool {
        match *self {
            PathSeg::Line(l) => l.p0.wf() && l.p1.wf(),
            PathSeg::Quad(q) => q.p0.wf() && q.p1.wf() && q.p2.wf(),
            PathSeg::Cubic(c) => c.p0.wf() && c.p1.wf() && c.p2.wf() && c.p3.wf(),
        }
    }

    pub open spec fn first(&self) -> Point {
        match *self {
            PathSeg::Line(l) => l.p0,
            PathSeg::Quad(q) => q.p0,
            PathSeg::Cubic(c) => c.p0,
        }
    }

    /// The point at parameter `t / UNIT` by de Casteljau's construction.
    pub open spec fn point_at(&self, t: int) -> Point {
        match *self {
            PathSeg::Line(l) => plerp(l.p0, l.p1, t),
            PathSeg::Quad(q) => plerp(plerp(q.p0, q.p1, t), plerp(q.p1, q.p2, t), t),
            PathSeg::Cubic(c) => {
                let a = plerp(c.p0, c.p1, t);
                let b = plerp(c.p1, c.p2, t);
                let d = plerp(c.p2, c.p3, t);
                plerp(plerp(a, b, t), plerp(b, d, t), t)
            },
        }
    }

    pub open spec fn last(&self) -> Point {
        match *self {
            PathSeg::Line(l) => l.p1,
            PathSeg::Quad(q) => q.p2,
            PathSeg::Cubic(c) => c.p3,
        }
    }

    /// The rectangle spanned by the control points. It holds the curve (see
    /// `lemma_point_in_hull`) but can be larger than the smallest box, which
    /// would need the interior extrema: roots of the derivative, which are
    /// not exact in fixed point.
    pub open spec fn hull_box(&self) -> Rect {
        match *self {
            PathSeg::Line(l) => Rect::spanned(l.p0, l.p1),
            PathSeg::Quad(q) => Rect::spanned(q.p0, q.p1).union_spec(Rect::spanned(q.p2, q.p2)),
            PathSeg::Cubic(c) => Rect::spanned(c.p0, c.p1).union_spec(Rect::spanned(c.p2, c.p3)),
        }
    }

    /// The halves by de Casteljau's construction at the middle parameter.
    pub open spec fn split(&self) -> (PathSeg, PathSeg) {
        match *self {
            PathSeg::Line(l) => {
                let m = pmid2(l.p0, l.p1);
                (PathSeg::Line(Line { p0: l.p0, p1: m }), PathSeg::Line(Line { p0: m, p1: l.p1 }))
            },
            PathSeg::Quad(q) => {
                let m = pmid4(q.p0, q.p1, q.p2);
                (
                    PathSeg::Quad(QuadBez { p0: q.p0, p1: pmid2(q.p0, q.p1), p2: m }),
                    PathSeg::Quad(QuadBez { p0: m, p1: pmid2(q.p1, q.p2), p2: q.p2 }),
                )
            },
            PathSeg::Cubic(c) => {
                let m = pmid8(c.p0, c.p1, c.p2, c.p3);
                (
                    PathSeg::Cubic(
                        CubicBez {
                            p0: c.p0,
                            p1: pmid2(c.p0, c.p1),
                            p2: pmid4(c.p0, c.p1, c.p2),
                            p3: m,
                        },
                    ),
                    PathSeg::Cubic(
                        CubicBez {
                            p0: m,
                            p1: pmid4(c.p1, c.p2, c.p3),
                            p2: pmid2(c.p2, c.p3),
                            p3: c.p3,
                        },
                    ),
                )
            },
        }
    }

    /// The two parts of the segment before and after the parameter
    /// `t / UNIT`, by de Casteljau's construction.
    pub open spec fn split_at(&self, t: int) -> (PathSeg, PathSeg) {
        match *self {
            PathSeg::Line(l) => {
                let m = plerp(l.p0, l.p1, t);
                (PathSeg::Line(Line { p0: l.p0, p1: m }), PathSeg::Line(Line { p0: m, p1: l.p1 }))
            },
            PathSeg::Quad(q) => {
                let a = plerp(q.p0, q.p1, t);
                let b = plerp(q.p1, q.p2, t);
                let m = plerp(a, b, t);
                (
                    PathSeg::Quad(QuadBez { p0: q.p0, p1: a, p2: m }),
                    PathSeg::Quad(QuadBez { p0: m, p1: b, p2: q.p2 }),
                )
            },
            PathSeg::Cubic(c) => {
                let a = plerp(c.p0, c.p1, t);
                let b = plerp(c.p1, c.p2, t);
                let e = plerp(c.p2, c.p3, t);
                let d = plerp(a, b, t);
                let f = plerp(b, e, t);
                let m = plerp(d, f, t);
                (
                    PathSeg::Cubic(CubicBez { p0: c.p0, p1: a, p2: d, p3: m }),
                    PathSeg::Cubic(CubicBez { p0: m, p1: f, p2: e, p3: c.p3 }),
                )
            },
        }
    }

    /// The part before `t1`, and of that the part after `t0`, with `t0`
    /// rescaled to the shorter part and rounded down.
    pub open spec fn restricted(&self, t0: int, t1: int) -> PathSeg {
        let left = self.split_at(t1).0;
        if t1 == 0 {
            left
        } else {
            left.split_at(t0 * UNIT / t1).1
        }
    }

    /// Split the segment at the parameter `t / UNIT`.
    pub fn split_at_exec(&self, t: i64) -> (r: (PathSeg, PathSeg))
        requires
            self.wf_spec(),
            0 <= t <= UNIT,
        ensures
            r == self.split_at(t as int),
            r.0.wf_spec(),
            r.1.wf_spec(),
    {
        match *self {
            PathSeg::Line(l) => {
                let m = point_lerp(l.p0, l.p1, t);
                (PathSeg::Line(Line { p0: l.p0, p1: m }), PathSeg::Line(Line { p0: m, p1: l.p1 }))
            },
            PathSeg::Quad(q) => {
                let a = point_lerp(q.p0, q.p1, t);
                let b = point_lerp(q.p1, q.p2, t);
                let m = point_lerp(a, b, t);
                (
                    PathSeg::Quad(QuadBez { p0: q.p0, p1: a, p2: m }),
                    PathSeg::Quad(QuadBez { p0: m, p1: b, p2: q.p2 }),
                )
            },
            PathSeg::Cubic(c) => {
                let a = point_lerp(c.p0, c.p1, t);
                let b = point_lerp(c.p1, c.p2, t);
                let e = point_lerp(c.p2, c.p3, t);
                let d = point_lerp(a, b, t);
                let f = point_lerp(b, e, t);
                let m = point_lerp(d, f, t);
                (
                    PathSeg::Cubic(CubicBez { p0: c.p0, p1: a, p2: d, p3: m }),
                    PathSeg::Cubic(CubicBez { p0: m, p1: f, p2: e, p3: c.p3 }),
                )
            },
        }
    }

    pub open spec fn reversed(&self) -> PathSeg {
        match *self {
            PathSeg::Line(l) => PathSeg::Line(Line { p0: l.p1, p1: l.p0 }),
            PathSeg::Quad(q) => PathSeg::Quad(QuadBez { p0: q.p2, p1: q.p1, p2: q.p0 }),
            PathSeg::Cubic(c) => PathSeg::Cubic(CubicBez { p0: c.p3, p1: c.p2, p2: c.p1, p3: c.p0 }),
        }
    }

    /// The same segment traversed in the opposite direction.
    pub fn reverse(self) -> (r: PathSeg)
        ensures
            r == self.reversed(),
    {
        match self {
            PathSeg::Line(l) => PathSeg::Line(Line { p0: l.p1, p1: l.p0 }),
            PathSeg::Quad(q) => PathSeg::Quad(QuadBez { p0: q.p2, p1: q.p1, p2: q.p0 }),
            PathSeg::Cubic(c) => PathSeg::Cubic(CubicBez { p0: c.p3, p1: c.p2, p2: c.p1, p3: c.p0 }),
        }
    }
}

impl ParamCurve for PathSeg {
    open spec fn wf(&self) -> bool {
        self.wf_spec()
    }

    open spec fn start_spec(&self) -> Point {
        self.first()
    }

    open spec fn end_spec(&self) -> Point {
        self.last()
    }

    open spec fn eval_spec(&self, t: int) -> Point {
        self.point_at(t)
    }

    fn eval(&self, t: i64) -> (r: Point) {
        match self {
            PathSeg::Line(l) => point_lerp(l.p0, l.p1, t),
            PathSeg::Quad(q) => {
                let a = point_lerp(q.p0, q.p1, t);
                let b = point_lerp(q.p1, q.p2, t);
                point_lerp(a, b, t)
            },
            PathSeg::Cubic(c) => {
                let a = point_lerp(c.p0, c.p1, t);
                let b = point_lerp(c.p1, c.p2, t);
                let d = point_lerp(c.p2, c.p3, t);
                let ab = point_lerp(a, b, t);
                let bd = point_lerp(b, d, t);
                point_lerp(ab, bd, t)
            },
        }
    }

    open spec fn bbox_spec(&self) -> Rect {
        self.hull_box()
    }

    open spec fn halves(&self) -> (PathSeg, PathSeg) {
        self.split()
    }

    open spec fn sub_spec(&self, t0: int, t1: int) -> PathSeg {
        self.restricted(t0, t1)
    }

    fn subsegment(&self, t0: i64, t1: i64) -> (r: PathSeg) {
        let left = self.split_at_exec(t1).0;
        if t1 == 0 {
            left
        } else {
            proof {
                lemma_fraction_in_unit(t0 as int, t1 as int);
            }
            left.split_at_exec(t0 * UNIT / t1).1
        }
    }

    fn start(&self) -> (r: Point) {
        match self {
            PathSeg::Line(l) => l.p0,
            PathSeg::Quad(q) => q.p0,
            PathSeg::Cubic(c) => c.p0,
        }
    }

    fn end(&self) -> (r: Point) {
        match self {
            PathSeg::Line(l) => l.p1,
            PathSeg::Quad(q) => q.p2,
            PathSeg::Cubic(c) => c.p3,
        }
    }

    fn bounding_box(&self) -> (r: Rect) {
        match self {
            PathSeg::Line(l) => Rect::from_points(l.p0, l.p1),
            PathSeg::Quad(q) => Rect::from_points(q.p0, q.p1).union(&Rect::from_points(q.p2, q.p2)),
            PathSeg::Cubic(c) => Rect::from_points(c.p0, c.p1).union(&Rect::from_points(c.p2, c.p3)),
        }
    }

    fn subdivide(&self) -> (r: (PathSeg, PathSeg)) {
        match self {
            PathSeg::Line(l) => {
                let m = point_mid2(l.p0, l.p1);
                (PathSeg::Line(Line { p0: l.p0, p1: m }), PathSeg::Line(Line { p0: m, p1: l.p1 }))
            },
            PathSeg::Quad(q) => {
                let m = point_mid4(q.p0, q.p1, q.p2);
                let a = point_mid2(q.p0, q.p1);
                let b = point_mid2(q.p1, q.p2);
                (
                    PathSeg::Quad(QuadBez { p0: q.p0, p1: a, p2: m }),
                    PathSeg::Quad(QuadBez { p0: m, p1: b, p2: q.p2 }),
                )
            },
            PathSeg::Cubic(c) => {
                let m = point_mid8(c.p0, c.p1, c.p2, c.p3);
                let a1 = point_mid2(c.p0, c.p1);
                let a2 = point_mid4(c.p0, c.p1, c.p2);
                let b1 = point_mid4(c.p1, c.p2, c.p3);
                let b2 = point_mid2(c.p2, c.p3);
                (
                    PathSeg::Cubic(CubicBez { p0: c.p0, p1: a1, p2: a2, p3: m }),
                    PathSeg::Cubic(CubicBez { p0: m, p1: b1, p2: b2, p3: c.p3 }),
                )
            },
        }
    }
}


/// A wrapper for curves that are monotone in both dimensions.
///
/// The wrapped curve must be non-decreasing or non-increasing in x and in y;
/// the wrapper then takes the rectangle spanned by the two endpoints as the
/// bounding box, which is exact for such curves and cheap to compute.
#[derive(Clone, Copy, Debug, PartialEq, Eq)]
pub struct Monotone<C>(pub C);

impl<C: ParamCurve> ParamCurve for Monotone<C> {
    open spec fn wf(&self) -> bool {
        self.0.wf()
    }

    open spec fn start_spec(&self) -> Point {
        self.0.start_spec()
    }

    open spec fn end_spec(&self) -> Point {
        self.0.end_spec()
    }

    open spec fn eval_spec(&self, t: int) -> Point {
        self.0.eval_spec(t)
    }

    fn eval(&self, t: i64) -> (r: Point) {
        self.0.eval(t)
    }

    open spec fn bbox_spec(&self) -> Rect {
        Rect::spanned(self.0.start_spec(), self.0.end_spec())
    }

    open spec fn halves(&self) -> (Monotone<C>, Monotone<C>) {
        (Monotone(self.0.halves().0), Monotone(self.0.halves().1))
    }

    open spec fn sub_spec(&self, t0: int, t1: int) -> Monotone<C> {
        Monotone(self.0.sub_spec(t0, t1))
    }

    fn subsegment(&self, t0: i64, t1: i64) -> (r: Monotone<C>) {
        Monotone(self.0.subsegment(t0, t1))
    }

    fn start(&self) -> (r: Point) {
        self.0.start()
    }

    fn end(&self) -> (r: Point) {
        self.0.end()
    }

    fn bounding_box(&self) -> (r: Rect) {
        Rect::from_points(self.0.start(), self.0.end())
    }

    fn subdivide(&self) -> (r: (Monotone<C>, Monotone<C>)) {
        let (a, b) = self.0.subdivide();
        (Monotone(a), Monotone(b))
    }
}

impl<C: ParamCurve> Monotone<C> {
    /// The parameters at which a coordinate is extremal inside the curve: none.
    pub fn extrema(&self) -> (r: Vec<i64>)
        ensures
            r@ == Seq::<i64>::empty(),
    {
        Vec::new()
    }

    /// The parameter ranges, as `(start, end)` in units of `1 / UNIT`, on
    /// which the curve is monotone: the whole domain.
    pub fn extrema_ranges(&self) -> (r: Vec<(i64, i64)>)
        ensures
            r@ == seq![(0i64, UNIT)],
    {
        let mut result: Vec<(i64, i64)> = Vec::new();
        result.push((0, UNIT));
        result
    }
}

/// The curve starts at its first control point and ends at its last.
pub proof fn lemma_eval_endpoints(seg: PathSeg)
    ensures
        seg.point_at(0) == seg.first(),
        seg.point_at(UNIT as int) == seg.last(),
{
    assert forall|a: int, b: int| #[trigger] crate::geom::lerp(a, b, 0) == a by {
        assert((b - a) * 0 == 0);
    }
    assert forall|a: int, b: int| #[trigger] crate::geom::lerp(a, b, UNIT as int) == b by {
        assert(crate::geom::tdiv((b - a) * UNIT, UNIT as int) == b - a) by (nonlinear_arith)
            requires
                UNIT == 65536,
        ;
    }
}

/// Whether the chosen coordinate of `seg` never falls, or never rises, from
/// one parameter step to a later one.
pub open spec fn axis_monotone(seg: PathSeg, x_axis: bool) -> bool {
    (forall|s: int, t: int|
        0 <= s <= t <= UNIT ==> coord_of(#[trigger] seg.point_at(s), x_axis) <= coord_of(
            #[trigger] seg.point_at(t),
            x_axis,
        )) || (forall|s: int, t: int|
        0 <= s <= t <= UNIT ==> coord_of(#[trigger] seg.point_at(s), x_axis) >= coord_of(
            #[trigger] seg.point_at(t),
            x_axis,
        ))
}

/// The condition that `Monotone` asks of the curve it wraps: monotone in x
/// and in y.
pub open spec fn is_monotone(seg: PathSeg) -> bool {
    axis_monotone(seg, true) && axis_monotone(seg, false)
}

/// For a monotone segment, the box of `Monotone` holds the point at every
/// parameter step, and any box that holds all of them holds it: it is the
/// smallest such box.
pub proof fn lemma_monotone_box(seg: PathSeg)
    requires
        seg.wf_spec(),
        is_monotone(seg),
    ensures
        forall|t: int| 0 <= t <= UNIT ==> in_box(#[trigger] seg.point_at(t), Monotone(seg).bbox_spec()),
        forall|r: Rect|
            (forall|t: int| 0 <= t <= UNIT ==> in_box(#[trigger] seg.point_at(t), r)) ==> within(
                #[trigger] Monotone(seg).bbox_spec(),
                r,
            ),
{
    lemma_eval_endpoints(seg);
    let p0 = seg.point_at(0);
    let p1 = seg.point_at(UNIT as int);
    assert forall|t: int| 0 <= t <= UNIT implies in_box(
        #[trigger] seg.point_at(t),
        Monotone(seg).bbox_spec(),
    ) by {
        let q = seg.point_at(t);
        assert(coord_of(p0, true) == p0.x && coord_of(q, true) == q.x && coord_of(p1, true) == p1.x);
        assert(coord_of(p0, false) == p0.y && coord_of(q, false) == q.y && coord_of(p1, false)
            == p1.y);
    }
    assert forall|r: Rect|
        (forall|t: int| 0 <= t <= UNIT ==> in_box(#[trigger] seg.point_at(t), r)) implies within(
        #[trigger] Monotone(seg).bbox_spec(),
        r,
    ) by {
        assert(in_box(p0, r));
        assert(in_box(p1, r));
    }
}

impl PathSeg {
    /// The smallest box that holds the point of the segment at every
    /// parameter step from zero to `UNIT`: each of its edges is reached by one
    /// of those points. It takes one evaluation per step.
    pub fn tight_bounding_box(&self) -> (r: Rect)
        requires
            self.wf_spec(),
        ensures
            r.wf(),
            forall|t: int| 0 <= t <= UNIT ==> in_box(#[trigger] self.point_at(t), r),
            exists|t: int| 0 <= t <= UNIT && #[trigger] self.point_at(t).x == r.x0,
            exists|t: int| 0 <= t <= UNIT && #[trigger] self.point_at(t).x == r.x1,
            exists|t: int| 0 <= t <= UNIT && #[trigger] self.point_at(t).y == r.y0,
            exists|t: int| 0 <= t <= UNIT && #[trigger] self.point_at(t).y == r.y1,
    {
        let p = self.eval(0);
        let mut r = Rect { x0: p.x, y0: p.y, x1: p.x, y1: p.y };
        let ghost (mut wx0, mut wx1, mut wy0, mut wy1) = (0int, 0int, 0int, 0int);
        let mut t: i64 = 1;
        while t <= UNIT
            invariant
                1 <= t <= UNIT + 1,
                self.wf_spec(),
                r.wf(),
                forall|s: int| 0 <= s < t ==> in_box(#[trigger] self.point_at(s), r),
                0 <= wx0 < t && self.point_at(wx0).x == r.x0,
                0 <= wx1 < t && self.point_at(wx1).x == r.x1,
                0 <= wy0 < t && self.point_at(wy0).y == r.y0,
                0 <= wy1 < t && self.point_at(wy1).y == r.y1,
            decreases UNIT + 1 - t,
        {
            let q = self.eval(t);
            if q.x < r.x0 {
                r.x0 = q.x;
                proof {
                    wx0 = t as int;
                }
            }
            if q.x > r.x1 {
                r.x1 = q.x;
                proof {
                    wx1 = t as int;
                }
            }
            if q.y < r.y0 {
                r.y0 = q.y;
                proof {
                    wy0 = t as int;
                }
            }
            if q.y > r.y1 {
                r.y1 = q.y;
                proof {
                    wy1 = t as int;
                }
            }
            t = t + 1;
        }
        assert(self.point_at(wx0).x == r.x0);
        assert(self.point_at(wx1).x == r.x1);
        assert(self.point_at(wy0).y == r.y0);
        assert(self.point_at(wy1).y == r.y1);
        r
    }
}

/// A part of a segment ends where the segment is at the part's upper
/// parameter, and one that starts at zero starts where the segment starts.
pub proof fn lemma_subsegment_ends(seg: PathSeg, t0: int, t1: int)
    requires
        0 <= t0 <= t1 <= UNIT,
    ensures
        seg.restricted(t0, t1).last() == seg.point_at(t1),
        t0 == 0 ==> seg.restricted(t0, t1).first() == seg.first(),
{
    if t1 != 0 && t0 == 0 {
        assert(0 * UNIT / t1 == 0);
        assert forall|a: int, b: int| #[trigger] crate::geom::lerp(a, b, 0) == a by {
            assert((b - a) * 0 == 0);
        }
    }
}

/// The recursion depth after which the search stops subdividing and reports
/// the middle of the overlap of the two boxes.
pub const MAX_DEPTH: u32 = 64;

/// Whether two rectangles overlap with room to spare on every edge.
pub open spec fn overlaps(ba: Rect, bb: Rect) -> bool {
    ba.x1 > bb.x0 && bb.x1 > ba.x0 && ba.y1 > bb.y0 && bb.y1 > ba.y0
}

/// Whether a rectangle is narrower and lower than `accuracy`.
pub open spec fn is_small(r: Rect, accuracy: int) -> bool {
    r.width_spec() < accuracy && r.height_spec() < accuracy
}

/// Whether some point of `s` is within `tol` of `p`.
pub open spec fn close_to_any(s: Seq<Point>, p: Point, tol: int) -> bool {
    exists|i: int| 0 <= i < s.len() && #[trigger] s[i].approx_eq_spec(p, tol)
}

/// `acc` with `p` appended, unless `acc` is full or already holds a point
/// close to `p`.
pub open spec fn merge_one(acc: Seq<Point>, p: Point, tol: int, cap: nat) -> Seq<Point> {
    if acc.len() < cap && !close_to_any(acc, p, tol) {
        acc.push(p)
    } else {
        acc
    }
}

/// The points of `vals` merged one after the other into `acc`.
pub open spec fn merge(acc: Seq<Point>, vals: Seq<Point>, tol: int, cap: nat) -> Seq<Point>
    decreases vals.len(),
{
    if vals.len() == 0 {
        acc
    } else {
        merge_one(merge(acc, vals.drop_last(), tol, cap), vals.last(), tol, cap)
    }
}

/// The points that the bounding-box search reports for `a` and `b`, with at
/// most `depth` further subdivisions.
pub open spec fn intersections<C: ParamCurve>(
    a: C,
    b: C,
    accuracy: int,
    cap: nat,
    depth: nat,
) -> Seq<Point>
    decreases depth,
{
    let ba = a.bbox_spec();
    let bb = b.bbox_spec();
    if !overlaps(ba, bb) || cap == 0 {
        seq![]
    } else if is_small(ba, accuracy) {
        seq![ba.center_spec()]
    } else if is_small(bb, accuracy) {
        seq![bb.center_spec()]
    } else if depth == 0 {
        seq![ba.meet_spec(bb).center_spec()]
    } else {
        let (a1, a2) = a.halves();
        let (b1, b2) = b.halves();
        let tol = 2 * accuracy;
        let d = (depth - 1) as nat;
        let r = merge(seq![], intersections(a1, b1, accuracy, cap, d), tol, cap);
        let r = merge(r, intersections(a1, b2, accuracy, cap, d), tol, cap);
        let r = merge(r, intersections(a2, b1, accuracy, cap, d), tol, cap);
        merge(r, intersections(a2, b2, accuracy, cap, d), tol, cap)
    }
}

/// Whether the two rectangles overlap with room to spare on every edge.
pub fn bboxes_overlap(ba: Rect, bb: Rect) -> (r: bool)
    ensures
        r == overlaps(ba, bb),
{
    ba.x1 > bb.x0 && bb.x1 > ba.x0 && ba.y1 > bb.y0 && bb.y1 > ba.y0
}

/// Merges `values` into `result` one by one, skipping points within `tol` of
/// one already there, and stopping to add once `result` holds `cap` points.
fn extend(result: &mut Vec<Point>, values: Vec<Point>, tol: i64, cap: usize)
    requires
        forall|i: int| 0 <= i < old(result)@.len() ==> (#[trigger] old(result)@[i]).wf(),
        forall|i: int| 0 <= i < values@.len() ==> (#[trigger] values@[i]).wf(),
    ensures
        final(result)@ == merge(old(result)@, values@, tol as int, cap as nat),
        forall|i: int| 0 <= i < final(result)@.len() ==> (#[trigger] final(result)@[i]).wf(),
{
    let ghost start = result@;
    let mut i: usize = 0;
    while i < values.len()
        invariant
            0 <= i <= values@.len(),
            result@ == merge(start, values@.take(i as int), tol as int, cap as nat),
            forall|k: int| 0 <= k < result@.len() ==> (#[trigger] result@[k]).wf(),
            forall|k: int| 0 <= k < values@.len() ==> (#[trigger] values@[k]).wf(),
        decreases values@.len() - i,
    {
        let p = values[i];
        let mut found = false;
        let mut j: usize = 0;
        while j < result.len()
            invariant
                0 <= j <= result@.len(),
                p.wf(),
                forall|k: int| 0 <= k < result@.len() ==> (#[trigger] result@[k]).wf(),
                found == exists|k: int| 0 <= k < j && #[trigger] result@[k].approx_eq_spec(p, tol as int),
            decreases result@.len() - j,
        {
            if result[j].approx_eq(&p, tol) {
                found = true;
            }
            j = j + 1;
        }
        assert(values@.take(i as int + 1).drop_last() == values@.take(i as int));
        if result.len() < cap && !found {
            result.push(p);
        }
        i = i + 1;
    }
    assert(values@.take(values@.len() as int) == values@);
}

fn intersect_rec<C: ParamCurve>(a: &C, b: &C, accuracy: i64, cap: usize, depth: u32) -> (r: Vec<Point>)
    requires
        a.wf(),
        b.wf(),
        0 < accuracy <= COORD_MAX,
    ensures
        r@ == intersections(*a, *b, accuracy as int, cap as nat, depth as nat),
        forall|i: int| 0 <= i < r@.len() ==> (#[trigger] r@[i]).wf(),
    decreases depth,
{
    let mut result: Vec<Point> = Vec::new();
    let ba = a.bounding_box();
    let bb = b.bounding_box();
    if !bboxes_overlap(ba, bb) || cap == 0 {
        return result;
    }
    if ba.width() < accuracy && ba.height() < accuracy {
        result.push(ba.center());
        return result;
    }
    if bb.width() < accuracy && bb.height() < accuracy {
        result.push(bb.center());
        return result;
    }
    if depth == 0 {
        result.push(ba.meet(&bb).center());
        return result;
    }
    let (a1, a2) = a.subdivide();
    let (b1, b2) = b.subdivide();
    let double = 2 * accuracy;
    let d = depth - 1;
    extend(&mut result, intersect_rec(&a1, &b1, accuracy, cap, d), double, cap);
    extend(&mut result, intersect_rec(&a1, &b2, accuracy, cap, d), double, cap);
    extend(&mut result, intersect_rec(&a2, &b1, accuracy, cap, d), double, cap);
    extend(&mut result, intersect_rec(&a2, &b2, accuracy, cap, d), double, cap);
    result
}

/// Finds the intersections of two curves by recursive subdivision.
///
/// Pairs of pieces whose bounding boxes do not overlap are dropped; once a
/// piece's box is smaller than `accuracy` in both dimensions, its center is
/// reported. After `MAX_DEPTH` subdivisions the middle of the overlap of the
/// two boxes is reported instead. Points closer than twice the accuracy to
/// one already found are skipped, and at most `cap` points are reported: the
/// rest are dropped.
/// When the curves share a stretch, which points come out is unspecified.
pub fn find_intersections_bbox<C: ParamCurve>(a: &C, b: &C, accuracy: i64, cap: usize) -> (r: Vec<Point>)
    requires
        a.wf(),
        b.wf(),
        0 < accuracy <= COORD_MAX,
    ensures
        r@ == intersections(*a, *b, accuracy as int, cap as nat, MAX_DEPTH as nat),
        r@.len() <= cap,
        separated(r@, 2 * accuracy),
        !overlaps(a.bbox_spec(), b.bbox_spec()) ==> r@.len() == 0,
{
    let r = intersect_rec(a, b, accuracy, cap, MAX_DEPTH);
    proof {
        lemma_intersections_within_capacity(*a, *b, accuracy as int, cap as nat, MAX_DEPTH as nat);
        lemma_intersections_separated(*a, *b, accuracy as int, cap as nat, MAX_DEPTH as nat);
    }
    r
}

impl Monotone<PathSeg> {
    /// The same curve traversed in the opposite direction.
    pub fn reverse(self) -> (r: Monotone<PathSeg>)
        ensures
            r.0 == self.0.reversed(),
    {
        Monotone(self.0.reverse())
    }

    /// Intersects two monotone path segments.
    ///
    /// Disjoint boxes give no intersection at once. When either segment is a
    /// straight line, the other one is intersected with that line by formula
    /// (see `line_intersections`) and each hit is reported as the line's own
    /// point at that hit, in order along the other segment. Other pairs go to
    /// the bounding-box search.
    pub fn intersect(&self, other: &Monotone<PathSeg>, accuracy: i64, cap: usize) -> (r: Vec<Point>)
        requires
            self.wf(),
            other.wf(),
            0 < accuracy <= COORD_MAX,
        ensures
            r@.len() <= cap,
            !overlaps(self.bbox_spec(), other.bbox_spec()) ==> r@.len() == 0,
            overlaps(self.bbox_spec(), other.bbox_spec()) ==> r@ == monotone_intersections(
                *self,
                *other,
                accuracy as int,
                cap as nat,
            ),
            other.0 matches PathSeg::Line(l) ==> forall|i: int|
                0 <= i < r@.len() ==> on_segment(#[trigger] r@[i], l),
            !(other.0 is Line) ==> (self.0 matches PathSeg::Line(l) ==> forall|i: int|
                0 <= i < r@.len() ==> on_segment(#[trigger] r@[i], l)),
    {
        if !bboxes_overlap(self.bounding_box(), other.bounding_box()) {
            return Vec::new();
        }
        match (self.0, other.0) {
            (seg, PathSeg::Line(line)) => {
                proof {
                    lemma_line_intersections_on_line(seg, line, cap as nat);
                }
                line_intersections(seg, line, cap)
            },
            (PathSeg::Line(line), seg) => {
                proof {
                    lemma_line_intersections_on_line(seg, line, cap as nat);
                }
                line_intersections(seg, line, cap)
            },
            _ => find_intersections_bbox(self, other, accuracy, cap),
        }
    }
}

/// The side of `line` on which the point of `seg` at parameter `t / UNIT`
/// lies: the cross product of the line's direction with the offset of that
/// point from the line's start, zero on the line itself.
pub open spec fn side(seg: PathSeg, line: Line, t: int) -> int {
    let p = seg.point_at(t);
    cross(line.p1.x - line.p0.x, line.p1.y - line.p0.y, p.x - line.p0.x, p.y - line.p0.y)
}

/// Whether `seg` meets `line` at parameter `t / UNIT`: it lies on the line
/// there and did not at the step before, or it crosses to the other side
/// before the next parameter step.
pub open spec fn is_hit(seg: PathSeg, line: Line, t: int) -> bool {
    let d = side(seg, line, t);
    let e = side(seg, line, t + 1);
    (d == 0 && (t == 0 || side(seg, line, t - 1) != 0)) || (t < UNIT && ((d < 0 && e > 0) || (d > 0
        && e < 0)))
}

/// The parameter on `line`, in units of `1 / UNIT` rounded down, of the
/// foot of `p` on the line: `None` when the foot lies outside the segment
/// or the line has no length.
pub open spec fn foot_param(line: Line, p: Point) -> Option<int> {
    let (cdx, cdy) = (line.p1.x - line.p0.x, line.p1.y - line.p0.y);
    let len2 = cdx * cdx + cdy * cdy;
    let dot = (p.x - line.p0.x) * cdx + (p.y - line.p0.y) * cdy;
    if len2 > 0 && 0 <= dot <= len2 {
        Some(dot * UNIT / len2)
    } else {
        None
    }
}

/// The points of `line` at the hits of `seg` with it for the parameters
/// `0 .. n` (in units of `1 / UNIT`), in order, at most `cap` of them.
pub open spec fn line_hits(seg: PathSeg, line: Line, n: int, cap: nat) -> Seq<Point>
    decreases n,
{
    if n <= 0 {
        seq![]
    } else {
        let r = line_hits(seg, line, n - 1, cap);
        let t = n - 1;
        let foot = foot_param(line, seg.point_at(t));
        if r.len() < cap && is_hit(seg, line, t) && foot is Some {
            r.push(plerp(line.p0, line.p1, foot->Some_0))
        } else {
            r
        }
    }
}

/// The points of `line` where `seg` meets it, in order along `seg`, at most
/// `cap` of them: for two lines the one crossing, else the hits of
/// `line_hits` over every parameter step.
pub open spec fn line_intersections_spec(seg: PathSeg, line: Line, cap: nat) -> Seq<Point> {
    match seg {
        PathSeg::Line(s) => if cap > 0 && line_hit_spec(s, line) is Some {
            seq![plerp(line.p0, line.p1, line_hit_spec(s, line)->Some_0)]
        } else {
            seq![]
        },
        _ => line_hits(seg, line, UNIT + 1, cap),
    }
}

/// The points that `Monotone::intersect` reports for overlapping boxes.
pub open spec fn monotone_intersections(
    a: Monotone<PathSeg>,
    b: Monotone<PathSeg>,
    accuracy: int,
    cap: nat,
) -> Seq<Point> {
    match (a.0, b.0) {
        (seg, PathSeg::Line(line)) => line_intersections_spec(seg, line, cap),
        (PathSeg::Line(line), seg) => line_intersections_spec(seg, line, cap),
        _ => intersections(a, b, accuracy, cap, MAX_DEPTH as nat),
    }
}

/// The largest number of parameters that solving for a coordinate reports.
pub const MAX_SOLVE: usize = 3;

/// The x coordinate of `p` when `x_axis` holds, else its y coordinate.
pub open spec fn coord_of(p: Point, x_axis: bool) -> int {
    if x_axis {
        p.x as int
    } else {
        p.y as int
    }
}

/// How far the chosen coordinate of `seg` at `t / UNIT` lies past `v`.
pub open spec fn offset(seg: PathSeg, x_axis: bool, v: int, t: int) -> int {
    coord_of(seg.point_at(t), x_axis) - v
}

/// Whether the chosen coordinate of `seg` reaches `v` at the parameter step
/// `t`: it equals `v` there and did not at the step before, or it passes
/// to the other side of `v` before the next step.
pub open spec fn is_coord_hit(seg: PathSeg, x_axis: bool, v: int, t: int) -> bool {
    let c = offset(seg, x_axis, v, t);
    let e = offset(seg, x_axis, v, t + 1);
    (c == 0 && (t == 0 || offset(seg, x_axis, v, t - 1) != 0)) || (t < UNIT && ((c < 0 && e > 0) || (c
        > 0 && e < 0)))
}

/// The parameter steps among `0 .. n` where the chosen coordinate of `seg`
/// reaches `v`, in order, at most `cap` of them.
pub open spec fn coord_hits(seg: PathSeg, x_axis: bool, v: int, n: int, cap: nat) -> Seq<i64>
    decreases n,
{
    if n <= 0 {
        seq![]
    } else {
        let r = coord_hits(seg, x_axis, v, n - 1, cap);
        if r.len() < cap && is_coord_hit(seg, x_axis, v, n - 1) {
            r.push((n - 1) as i64)
        } else {
            r
        }
    }
}

/// Whether the chosen coordinate of `seg` strictly rises, or strictly falls,
/// from each parameter step to the next.
pub open spec fn strictly_monotone(seg: PathSeg, x_axis: bool) -> bool {
    (forall|s: int, t: int|
        0 <= s < t <= UNIT ==> coord_of(#[trigger] seg.point_at(s), x_axis) < coord_of(
            #[trigger] seg.point_at(t),
            x_axis,
        )) || (forall|s: int, t: int|
        0 <= s < t <= UNIT ==> coord_of(#[trigger] seg.point_at(s), x_axis) > coord_of(
            #[trigger] seg.point_at(t),
            x_axis,
        ))
}

/// The chosen coordinate of the point at parameter step `t`.
fn coord_at(seg: &PathSeg, x_axis: bool, t: i64) -> (r: i64)
    requires
        seg.wf_spec(),
        0 <= t <= UNIT,
    ensures
        r == coord_of(seg.point_at(t as int), x_axis),
        in_range(r as int),
{
    let p = seg.eval(t);
    if x_axis {
        p.x
    } else {
        p.y
    }
}

/// The parameter steps where the chosen coordinate of `seg` reaches `v`.
fn solve_t_for_v(seg: &PathSeg, x_axis: bool, v: i64) -> (r: Vec<i64>)
    requires
        seg.wf_spec(),
        in_range(v as int),
    ensures
        r@ == coord_hits(*seg, x_axis, v as int, UNIT + 1, MAX_SOLVE as nat),
{
    let mut result: Vec<i64> = Vec::new();
    let mut t: i64 = 0;
    let mut prev: i64 = 0;
    let mut cur: i64 = coord_at(seg, x_axis, 0) - v;
    while t <= UNIT
        invariant
            0 <= t <= UNIT + 1,
            seg.wf_spec(),
            in_range(v as int),
            t <= UNIT ==> cur == offset(*seg, x_axis, v as int, t as int),
            1 <= t <= UNIT ==> prev == offset(*seg, x_axis, v as int, t - 1),
            result@ == coord_hits(*seg, x_axis, v as int, t as int, MAX_SOLVE as nat),
        decreases UNIT + 1 - t,
    {
        let next: i64 = if t < UNIT {
            coord_at(seg, x_axis, t + 1) - v
        } else {
            0
        };
        let hit = (cur == 0 && (t == 0 || prev != 0)) || (t < UNIT && ((cur < 0 && next > 0) || (cur
            > 0 && next < 0)));
        if result.len() < MAX_SOLVE && hit {
            result.push(t);
        }
        prev = cur;
        cur = next;
        t = t + 1;
    }
    result
}

proof fn lemma_coord_hits_bounds(seg: PathSeg, x_axis: bool, v: int, n: int, cap: nat)
    requires
        n <= UNIT + 1,
    ensures
        coord_hits(seg, x_axis, v, n, cap).len() <= cap,
        forall|i: int|
            0 <= i < coord_hits(seg, x_axis, v, n, cap).len() ==> 0 <= #[trigger] coord_hits(
                seg,
                x_axis,
                v,
                n,
                cap,
            )[i] < n,
    decreases n,
{
    if n > 0 {
        lemma_coord_hits_bounds(seg, x_axis, v, n - 1, cap);
        let r = coord_hits(seg, x_axis, v, n - 1, cap);
        let q = coord_hits(seg, x_axis, v, n, cap);
        assert forall|i: int| 0 <= i < q.len() implies 0 <= #[trigger] q[i] < n by {
            if i < r.len() {
                assert(q[i] == r[i]);
            }
        }
    }
}

/// A value that the chosen coordinate stays below, or above, at every
/// parameter step is never reached.
pub proof fn lemma_coord_out_of_range(seg: PathSeg, x_axis: bool, v: int, n: int, cap: nat)
    requires
        n <= UNIT + 1,
        (forall|t: int| 0 <= t <= UNIT ==> coord_of(#[trigger] seg.point_at(t), x_axis) < v) || (
        forall|t: int| 0 <= t <= UNIT ==> coord_of(#[trigger] seg.point_at(t), x_axis) > v),
    ensures
        coord_hits(seg, x_axis, v, n, cap).len() == 0,
    decreases n,
{
    if n > 0 {
        lemma_coord_out_of_range(seg, x_axis, v, n - 1, cap);
        let t = n - 1;
        let a = seg.point_at(t);
        let b = seg.point_at(t + 1);
        assert(!is_coord_hit(seg, x_axis, v, t));
    }
}

proof fn lemma_round_trip_steps(seg: PathSeg, x_axis: bool, t: int, n: int)
    requires
        0 <= t <= UNIT,
        n <= UNIT + 1,
        strictly_monotone(seg, x_axis),
    ensures
        coord_hits(seg, x_axis, coord_of(seg.point_at(t), x_axis), n, MAX_SOLVE as nat) == (if n
            <= t {
            Seq::<i64>::empty()
        } else {
            seq![t as i64]
        }),
    decreases n,
{
    let v = coord_of(seg.point_at(t), x_axis);
    if n > 0 {
        lemma_round_trip_steps(seg, x_axis, t, n - 1);
        let s = n - 1;
        let ps = seg.point_at(s);
        let pn = seg.point_at(s + 1);
        let pp = seg.point_at(s - 1);
        let pt = seg.point_at(t);
        if s < t {
            assert(!is_coord_hit(seg, x_axis, v, s));
        } else if s == t {
            assert(is_coord_hit(seg, x_axis, v, s));
            assert(seq![t as i64] =~= Seq::<i64>::empty().push(t as i64));
        } else {
            assert(!is_coord_hit(seg, x_axis, v, s));
        }
    }
}

/// Solving a strictly monotone coordinate for its own value at a parameter
/// step gives back exactly that step.
pub proof fn lemma_solve_round_trip(seg: PathSeg, x_axis: bool, t: int)
    requires
        0 <= t <= UNIT,
        strictly_monotone(seg, x_axis),
    ensures
        coord_hits(seg, x_axis, coord_of(seg.point_at(t), x_axis), UNIT + 1, MAX_SOLVE as nat)
            == seq![t as i64],
{
    lemma_round_trip_steps(seg, x_axis, t, UNIT + 1);
}

impl PathSeg {
    /// The parameters, in units of `1 / UNIT`, where the segment reaches the
    /// x coordinate `x`: each step where x equals it (the first of a run of
    /// such steps) or passes it before the next step, in order, at most
    /// `MAX_SOLVE` of them.
    pub fn solve_t_for_x(&self, x: i64) -> (r: Vec<i64>)
        requires
            self.wf_spec(),
            in_range(x as int),
        ensures
            r@ == coord_hits(*self, true, x as int, UNIT + 1, MAX_SOLVE as nat),
            r@.len() <= MAX_SOLVE,
            forall|i: int| 0 <= i < r@.len() ==> 0 <= #[trigger] r@[i] <= UNIT,
            ((forall|t: int| 0 <= t <= UNIT ==> #[trigger] self.point_at(t).x < x) || (forall|t: int|
                0 <= t <= UNIT ==> #[trigger] self.point_at(t).x > x)) ==> r@.len() == 0,
    {
        proof {
            lemma_coord_hits_bounds(*self, true, x as int, UNIT + 1, MAX_SOLVE as nat);
            if (forall|t: int| 0 <= t <= UNIT ==> #[trigger] self.point_at(t).x < x) || (forall|t: int|
                0 <= t <= UNIT ==> #[trigger] self.point_at(t).x > x) {
                lemma_coord_out_of_range(*self, true, x as int, UNIT + 1, MAX_SOLVE as nat);
            }
        }
        solve_t_for_v(self, true, x)
    }

    /// The parameters, in units of `1 / UNIT`, where the segment reaches the
    /// y coordinate `y`, as `solve_t_for_x` does for x.
    pub fn solve_t_for_y(&self, y: i64) -> (r: Vec<i64>)
        requires
            self.wf_spec(),
            in_range(y as int),
        ensures
            r@ == coord_hits(*self, false, y as int, UNIT + 1, MAX_SOLVE as nat),
            r@.len() <= MAX_SOLVE,
            forall|i: int| 0 <= i < r@.len() ==> 0 <= #[trigger] r@[i] <= UNIT,
            ((forall|t: int| 0 <= t <= UNIT ==> #[trigger] self.point_at(t).y < y) || (forall|t: int|
                0 <= t <= UNIT ==> #[trigger] self.point_at(t).y > y)) ==> r@.len() == 0,
    {
        proof {
            lemma_coord_hits_bounds(*self, false, y as int, UNIT + 1, MAX_SOLVE as nat);
            if (forall|t: int| 0 <= t <= UNIT ==> #[trigger] self.point_at(t).y < y) || (forall|t: int|
                0 <= t <= UNIT ==> #[trigger] self.point_at(t).y > y) {
                lemma_coord_out_of_range(*self, false, y as int, UNIT + 1, MAX_SOLVE as nat);
            }
        }
        solve_t_for_v(self, false, y)
    }

    /// The y coordinates of the segment where it reaches the x coordinate `x`,
    /// one for each parameter that `solve_t_for_x` reports.
    pub fn solve_y_for_x(&self, x: i64) -> (r: Vec<i64>)
        requires
            self.wf_spec(),
            in_range(x as int),
        ensures
            r@.len() == coord_hits(*self, true, x as int, UNIT + 1, MAX_SOLVE as nat).len(),
            forall|i: int|
                0 <= i < r@.len() ==> #[trigger] r@[i] == self.point_at(
                    coord_hits(*self, true, x as int, UNIT + 1, MAX_SOLVE as nat)[i] as int,
                ).y,
    {
        let ts = self.solve_t_for_x(x);
        let mut r: Vec<i64> = Vec::new();
        let mut i: usize = 0;
        while i < ts.len()
            invariant
                self.wf_spec(),
                0 <= i <= ts@.len(),
                r@.len() == i,
                forall|k: int| 0 <= k < ts@.len() ==> 0 <= #[trigger] ts@[k] <= UNIT,
                forall|k: int| 0 <= k < i ==> #[trigger] r@[k] == self.point_at(ts@[k] as int).y,
            decreases ts@.len() - i,
        {
            r.push(self.eval(ts[i]).y);
            i = i + 1;
        }
        r
    }

    /// The x coordinates of the segment where it reaches the y coordinate `y`,
    /// one for each parameter that `solve_t_for_y` reports.
    pub fn solve_x_for_y(&self, y: i64) -> (r: Vec<i64>)
        requires
            self.wf_spec(),
            in_range(y as int),
        ensures
            r@.len() == coord_hits(*self, false, y as int, UNIT + 1, MAX_SOLVE as nat).len(),
            forall|i: int|
                0 <= i < r@.len() ==> #[trigger] r@[i] == self.point_at(
                    coord_hits(*self, false, y as int, UNIT + 1, MAX_SOLVE as nat)[i] as int,
                ).x,
    {
        let ts = self.solve_t_for_y(y);
        let mut r: Vec<i64> = Vec::new();
        let mut i: usize = 0;
        while i < ts.len()
            invariant
                self.wf_spec(),
                0 <= i <= ts@.len(),
                r@.len() == i,
                forall|k: int| 0 <= k < ts@.len() ==> 0 <= #[trigger] ts@[k] <= UNIT,
                forall|k: int| 0 <= k < i ==> #[trigger] r@[k] == self.point_at(ts@[k] as int).x,
            decreases ts@.len() - i,
        {
            r.push(self.eval(ts[i]).x);
            i = i + 1;
        }
        r
    }
}

/// Intersects a segment with a line by formula, reporting the line's points.
pub fn line_intersections(seg: PathSeg, line: Line, cap: usize) -> (r: Vec<Point>)
    requires
        seg.wf_spec(),
        line.p0.wf(),
        line.p1.wf(),
    ensures
        r@ == line_intersections_spec(seg, line, cap as nat),
        r@.len() <= cap,
{
    proof {
        lemma_line_hits_within_capacity(seg, line, UNIT + 1, cap as nat);
    }
    match seg {
        PathSeg::Line(s) => {
            let mut result: Vec<Point> = Vec::new();
            if cap > 0 {
                if let Some(t) = line_hit(s, line) {
                    result.push(point_lerp(line.p0, line.p1, t));
                }
            }
            result
        },
        _ => {
            let mut result: Vec<Point> = Vec::new();
            let mut t: i64 = 0;
            let mut d = side_exec(&seg, line, 0);
            let mut prev: i128 = 0;
            while t <= UNIT
                invariant
                    0 <= t <= UNIT + 1,
                    seg.wf_spec(),
                    line.p0.wf(),
                    line.p1.wf(),
                    t <= UNIT ==> d == side(seg, line, t as int),
                    1 <= t <= UNIT ==> prev == side(seg, line, t - 1),
                    result@ == line_hits(seg, line, t as int, cap as nat),
                decreases UNIT + 1 - t,
            {
                let next: i128 = if t < UNIT {
                    side_exec(&seg, line, t + 1)
                } else {
                    0
                };
                let hit = (d == 0 && (t == 0 || prev != 0)) || (t < UNIT && ((d < 0 && next > 0) || (d
                    > 0 && next < 0)));
                if result.len() < cap && hit {
                    let p = seg.eval(t);
                    if let Some(u) = foot(line, p) {
                        result.push(point_lerp(line.p0, line.p1, u));
                    }
                }
                prev = d;
                d = next;
                t = t + 1;
            }
            result
        },
    }
}

/// The side of `line` on which the point of `seg` at `t / UNIT` lies.
fn side_exec(seg: &PathSeg, line: Line, t: i64) -> (r: i128)
    requires
        seg.wf_spec(),
        line.p0.wf(),
        line.p1.wf(),
        0 <= t <= UNIT,
    ensures
        r == side(*seg, line, t as int),
{
    let p = seg.eval(t);
    let cdx = line.p1.x as i128 - line.p0.x as i128;
    let cdy = line.p1.y as i128 - line.p0.y as i128;
    let wx = p.x as i128 - line.p0.x as i128;
    let wy = p.y as i128 - line.p0.y as i128;
    proof {
        lemma_cross_bound(cdx as int, cdy as int, wx as int, wy as int);
    }
    cdx * wy - cdy * wx
}

/// The parameter on `line` of the foot of `p`, when it lies on the segment.
fn foot(line: Line, p: Point) -> (r: Option<i64>)
    requires
        p.wf(),
        line.p0.wf(),
        line.p1.wf(),
    ensures
        r matches Some(u) ==> 0 <= u <= UNIT && foot_param(line, p) == Some(u as int),
        r is None ==> foot_param(line, p) is None,
{
    let cdx = line.p1.x as i128 - line.p0.x as i128;
    let cdy = line.p1.y as i128 - line.p0.y as i128;
    let wx = p.x as i128 - line.p0.x as i128;
    let wy = p.y as i128 - line.p0.y as i128;
    proof {
        lemma_cross_bound(wx as int, wy as int, cdy as int, cdx as int);
        lemma_cross_bound(cdx as int, cdy as int, cdy as int, cdx as int);
    }
    let len2 = cdx * cdx + cdy * cdy;
    let dot = wx * cdx + wy * cdy;
    if len2 > 0 && 0 <= dot && dot <= len2 {
        proof {
            lemma_fraction_in_unit(dot as int, len2 as int);
        }
        Some(((dot * (UNIT as i128)) / len2) as i64)
    } else {
        None
    }
}

proof fn lemma_line_hits_within_capacity(seg: PathSeg, line: Line, n: int, cap: nat)
    ensures
        line_hits(seg, line, n, cap).len() <= cap,
    decreases n,
{
    if n > 0 {
        lemma_line_hits_within_capacity(seg, line, n - 1, cap);
    }
}

proof fn lemma_fraction_in_unit(u: int, d: int)
    requires
        d > 0,
        0 <= u <= d,
    ensures
        0 <= u * UNIT / d <= UNIT,
{
    assert(0 <= u * 65536 <= d * 65536) by (nonlinear_arith)
        requires
            0 <= u <= d,
    ;
    assert(0 <= (u * 65536) / d <= 65536) by (nonlinear_arith)
        requires
            0 <= u * 65536 <= d * 65536,
            d > 0,
    ;
}

/// Whether `p` is the point of `line` at some parameter from zero to `UNIT`.
pub open spec fn on_segment(p: Point, line: Line) -> bool {
    exists|u: int| 0 <= u <= UNIT && p == #[trigger] plerp(line.p0, line.p1, u)
}

/// Every point reported for a segment against a line is the line's own point
/// at some parameter from zero to `UNIT`.
pub proof fn lemma_line_intersections_on_line(seg: PathSeg, line: Line, cap: nat)
    ensures
        forall|i: int|
            0 <= i < line_intersections_spec(seg, line, cap).len() ==> on_segment(
                #[trigger] line_intersections_spec(seg, line, cap)[i],
                line,
            ),
{
    match seg {
        PathSeg::Line(s) => {
            if cap > 0 && line_hit_spec(s, line) is Some {
                let (abx, aby) = (s.p1.x - s.p0.x, s.p1.y - s.p0.y);
                let (cdx, cdy) = (line.p1.x - line.p0.x, line.p1.y - line.p0.y);
                let (wx, wy) = (s.p0.x - line.p0.x, s.p0.y - line.p0.y);
                let den0 = cross(cdx, cdy, abx, aby);
                let un0 = cross(wx, wy, abx, aby);
                let (den, un) = if den0 < 0 {
                    (-den0, -un0)
                } else {
                    (den0, un0)
                };
                lemma_fraction_in_unit(un, den);
                let w = line_hit_spec(s, line)->Some_0;
                let q = line_intersections_spec(seg, line, cap);
                assert(q[0] == plerp(line.p0, line.p1, w));
                assert(on_segment(q[0], line));
            }
        },
        _ => lemma_line_hits_on_line(seg, line, UNIT + 1, cap),
    }
}

proof fn lemma_line_hits_on_line(seg: PathSeg, line: Line, n: int, cap: nat)
    ensures
        forall|i: int|
            0 <= i < line_hits(seg, line, n, cap).len() ==> on_segment(
                #[trigger] line_hits(seg, line, n, cap)[i],
                line,
            ),
    decreases n,
{
    if n > 0 {
        lemma_line_hits_on_line(seg, line, n - 1, cap);
        let r = line_hits(seg, line, n - 1, cap);
        let q = line_hits(seg, line, n, cap);
        let foot = foot_param(line, seg.point_at(n - 1));
        if r.len() < cap && is_hit(seg, line, n - 1) && foot is Some {
            let (cdx, cdy) = (line.p1.x - line.p0.x, line.p1.y - line.p0.y);
            let p = seg.point_at(n - 1);
            let len2 = cdx * cdx + cdy * cdy;
            let dot = (p.x - line.p0.x) * cdx + (p.y - line.p0.y) * cdy;
            lemma_fraction_in_unit(dot, len2);
            let w = foot->Some_0;
            assert(on_segment(plerp(line.p0, line.p1, w), line));
            assert forall|i: int| 0 <= i < q.len() implies on_segment(#[trigger] q[i], line) by {
                if i < r.len() {
                    assert(q[i] == r[i]);
                } else {
                    assert(q[i] == plerp(line.p0, line.p1, w));
                }
            }
        } else {
            assert(q == r);
        }
    }
}

/// `x1·y2 - y1·x2`.
pub open spec fn cross(x1: int, y1: int, x2: int, y2: int) -> int {
    x1 * y2 - y1 * x2
}

/// Where `seg` crosses `line`, as the parameter on `line` in units of
/// `1 / UNIT`, rounded down: `None` when they are parallel or the crossing
/// lies outside either of them.
pub open spec fn line_hit_spec(seg: Line, line: Line) -> Option<int> {
    let (abx, aby) = (seg.p1.x - seg.p0.x, seg.p1.y - seg.p0.y);
    let (cdx, cdy) = (line.p1.x - line.p0.x, line.p1.y - line.p0.y);
    let (wx, wy) = (seg.p0.x - line.p0.x, seg.p0.y - line.p0.y);
    let den = cross(cdx, cdy, abx, aby);
    let un = cross(wx, wy, abx, aby);
    let sn = cross(wx, wy, cdx, cdy);
    let (den, un, sn) = if den < 0 {
        (-den, -un, -sn)
    } else {
        (den, un, sn)
    };
    if den != 0 && 0 <= un <= den && 0 <= sn <= den {
        Some(un * UNIT / den)
    } else {
        None
    }
}

proof fn lemma_cross_bound(x1: int, y1: int, x2: int, y2: int)
    requires
        -0x2_0000_0000_0000 <= x1 <= 0x2_0000_0000_0000,
        -0x2_0000_0000_0000 <= y1 <= 0x2_0000_0000_0000,
        -0x2_0000_0000_0000 <= x2 <= 0x2_0000_0000_0000,
        -0x2_0000_0000_0000 <= y2 <= 0x2_0000_0000_0000,
    ensures
        -0x4_0000_0000_0000_0000_0000_0000 <= x1 * y2 <= 0x4_0000_0000_0000_0000_0000_0000,
        -0x4_0000_0000_0000_0000_0000_0000 <= y1 * x2 <= 0x4_0000_0000_0000_0000_0000_0000,
        -0x8_0000_0000_0000_0000_0000_0000 <= cross(x1, y1, x2, y2) <= 0x8_0000_0000_0000_0000_0000_0000,
{
    assert(-0x4_0000_0000_0000_0000_0000_0000 <= x1 * y2 <= 0x4_0000_0000_0000_0000_0000_0000)
        by (nonlinear_arith)
        requires
            -0x2_0000_0000_0000 <= x1 <= 0x2_0000_0000_0000,
            -0x2_0000_0000_0000 <= y2 <= 0x2_0000_0000_0000,
    ;
    assert(-0x4_0000_0000_0000_0000_0000_0000 <= y1 * x2 <= 0x4_0000_0000_0000_0000_0000_0000)
        by (nonlinear_arith)
        requires
            -0x2_0000_0000_0000 <= y1 <= 0x2_0000_0000_0000,
            -0x2_0000_0000_0000 <= x2 <= 0x2_0000_0000_0000,
    ;
}

/// Where `seg` crosses `line`, as a parameter on `line`.
fn line_hit(seg: Line, line: Line) -> (r: Option<i64>)
    requires
        seg.p0.wf(),
        seg.p1.wf(),
        line.p0.wf(),
        line.p1.wf(),
    ensures
        r matches Some(t) ==> 0 <= t <= UNIT,
        r matches Some(t) ==> line_hit_spec(seg, line) == Some(t as int),
        r is None ==> line_hit_spec(seg, line) is None,
{
    let abx = seg.p1.x as i128 - seg.p0.x as i128;
    let aby = seg.p1.y as i128 - seg.p0.y as i128;
    let cdx = line.p1.x as i128 - line.p0.x as i128;
    let cdy = line.p1.y as i128 - line.p0.y as i128;
    let wx = seg.p0.x as i128 - line.p0.x as i128;
    let wy = seg.p0.y as i128 - line.p0.y as i128;
    proof {
        lemma_cross_bound(cdx as int, cdy as int, abx as int, aby as int);
        lemma_cross_bound(wx as int, wy as int, abx as int, aby as int);
        lemma_cross_bound(wx as int, wy as int, cdx as int, cdy as int);
    }
    let mut den = cdx * aby - cdy * abx;
    let mut un = wx * aby - wy * abx;
    let mut sn = wx * cdy - wy * cdx;
    if den < 0 {
        den = -den;
        un = -un;
        sn = -sn;
    }
    if den != 0 && 0 <= un && un <= den && 0 <= sn && sn <= den {
        proof {
            assert(0 <= un * 65536 <= den * 65536) by (nonlinear_arith)
                requires
                    0 <= un <= den,
            ;
            let ghost (u, d) = (un as int, den as int);
            assert(0 <= (u * 65536) / d <= 65536) by (nonlinear_arith)
                requires
                    0 <= u * 65536 <= d * 65536,
                    d > 0,
            ;
        }
        let t = (un * (UNIT as i128)) / den;
        Some(t as i64)
    } else {
        None
    }
}

proof fn lemma_merge_within_capacity(acc: Seq<Point>, vals: Seq<Point>, tol: int, cap: nat)
    requires
        acc.len() <= cap,
    ensures
        merge(acc, vals, tol, cap).len() <= cap,
    decreases vals.len(),
{
    if vals.len() > 0 {
        lemma_merge_within_capacity(acc, vals.drop_last(), tol, cap);
    }
}

/// The search never reports more points than the capacity it was given.
pub proof fn lemma_intersections_within_capacity<C: ParamCurve>(
    a: C,
    b: C,
    accuracy: int,
    cap: nat,
    depth: nat,
)
    ensures
        intersections(a, b, accuracy, cap, depth).len() <= cap,
    decreases depth,
{
    if depth > 0 {
        let (a1, a2) = a.halves();
        let (b1, b2) = b.halves();
        let tol = 2 * accuracy;
        let d = (depth - 1) as nat;
        let r1 = merge(seq![], intersections(a1, b1, accuracy, cap, d), tol, cap);
        let r2 = merge(r1, intersections(a1, b2, accuracy, cap, d), tol, cap);
        let r3 = merge(r2, intersections(a2, b1, accuracy, cap, d), tol, cap);
        lemma_merge_within_capacity(seq![], intersections(a1, b1, accuracy, cap, d), tol, cap);
        lemma_merge_within_capacity(r1, intersections(a1, b2, accuracy, cap, d), tol, cap);
        lemma_merge_within_capacity(r2, intersections(a2, b1, accuracy, cap, d), tol, cap);
        lemma_merge_within_capacity(r3, intersections(a2, b2, accuracy, cap, d), tol, cap);
    }
}

/// Two curves whose bounding boxes do not overlap have no intersection.
pub proof fn lemma_disjoint_boxes_no_intersections<C: ParamCurve>(
    a: C,
    b: C,
    accuracy: int,
    cap: nat,
    depth: nat,
)
    requires
        !overlaps(a.bbox_spec(), b.bbox_spec()),
    ensures
        intersections(a, b, accuracy, cap, depth) == Seq::<Point>::empty(),
{
}


/// No two points of `s` are within `tol` of each other.
pub open spec fn separated(s: Seq<Point>, tol: int) -> bool {
    forall|i: int, j: int| 0 <= i < j < s.len() ==> !(#[trigger] s[i]).approx_eq_spec(#[trigger] s[j], tol)
}

proof fn lemma_merge_separated(acc: Seq<Point>, vals: Seq<Point>, tol: int, cap: nat)
    requires
        separated(acc, tol),
    ensures
        separated(merge(acc, vals, tol, cap), tol),
    decreases vals.len(),
{
    if vals.len() > 0 {
        lemma_merge_separated(acc, vals.drop_last(), tol, cap);
        let m = merge(acc, vals.drop_last(), tol, cap);
        let p = vals.last();
        if m.len() < cap && !close_to_any(m, p, tol) {
            let n = m.push(p);
            assert forall|i: int, j: int| 0 <= i < j < n.len() implies !(#[trigger] n[i]).approx_eq_spec(
                #[trigger] n[j],
                tol,
            ) by {
                if j == m.len() {
                    assert(!m[i].approx_eq_spec(p, tol));
                } else {
                    assert(n[i] == m[i] && n[j] == m[j]);
                }
            }
        }
    }
}

/// The reported points lie more than twice the accuracy apart from each other,
/// on at least one axis.
pub proof fn lemma_intersections_separated<C: ParamCurve>(
    a: C,
    b: C,
    accuracy: int,
    cap: nat,
    depth: nat,
)
    ensures
        separated(intersections(a, b, accuracy, cap, depth), 2 * accuracy),
    decreases depth,
{
    if depth > 0 {
        let (a1, a2) = a.halves();
        let (b1, b2) = b.halves();
        let tol = 2 * accuracy;
        let d = (depth - 1) as nat;
        let r1 = merge(seq![], intersections(a1, b1, accuracy, cap, d), tol, cap);
        let r2 = merge(r1, intersections(a1, b2, accuracy, cap, d), tol, cap);
        let r3 = merge(r2, intersections(a2, b1, accuracy, cap, d), tol, cap);
        lemma_merge_separated(seq![], intersections(a1, b1, accuracy, cap, d), tol, cap);
        lemma_merge_separated(r1, intersections(a1, b2, accuracy, cap, d), tol, cap);
        lemma_merge_separated(r2, intersections(a2, b1, accuracy, cap, d), tol, cap);
        lemma_merge_separated(r3, intersections(a2, b2, accuracy, cap, d), tol, cap);
    }
}


/// Additional methods for path segments.
pub trait PathSegExt: Sized {
    /// Every control point stays in range under the affine map.
    spec fn affine_fits(&self, affine: Transform) -> bool;

    /// The segment with each control point mapped by `affine`.
    spec fn affine_image(&self, affine: Transform) -> Self;

    /// Every control point stays in range under the translate-scale map.
    spec fn ts_fits(&self, ts: TranslateScale) -> bool;

    /// The segment with each control point mapped by `ts`.
    spec fn ts_image(&self, ts: TranslateScale) -> Self;

    /// Apply an affine transformation.
    fn apply_affine(self, affine: Transform) -> (r: Self)
        requires
            affine.wf(),
            self.affine_fits(affine),
        ensures
            r == self.affine_image(affine),
    ;

    /// Apply a translate-scale transformation.
    fn apply_translate_scale(self, ts: TranslateScale) -> (r: Self)
        requires
            ts.wf(),
            self.ts_fits(ts),
        ensures
            r == self.ts_image(ts),
    ;
}

impl PathSegExt for PathSeg {
    open spec fn affine_fits(&self, a: Transform) -> bool {
        self.wf_spec() && match *self {
            PathSeg::Line(l) => a.fits(l.p0) && a.fits(l.p1),
            PathSeg::Quad(q) => a.fits(q.p0) && a.fits(q.p1) && a.fits(q.p2),
            PathSeg::Cubic(c) => a.fits(c.p0) && a.fits(c.p1) && a.fits(c.p2) && a.fits(c.p3),
        }
    }

    open spec fn affine_image(&self, a: Transform) -> PathSeg {
        match *self {
            PathSeg::Line(l) => PathSeg::Line(Line { p0: a.map_spec(l.p0), p1: a.map_spec(l.p1) }),
            PathSeg::Quad(q) => PathSeg::Quad(
                QuadBez { p0: a.map_spec(q.p0), p1: a.map_spec(q.p1), p2: a.map_spec(q.p2) },
            ),
            PathSeg::Cubic(c) => PathSeg::Cubic(
                CubicBez {
                    p0: a.map_spec(c.p0),
                    p1: a.map_spec(c.p1),
                    p2: a.map_spec(c.p2),
                    p3: a.map_spec(c.p3),
                },
            ),
        }
    }

    open spec fn ts_fits(&self, t: TranslateScale) -> bool {
        self.wf_spec() && match *self {
            PathSeg::Line(l) => t.fits(l.p0) && t.fits(l.p1),
            PathSeg::Quad(q) => t.fits(q.p0) && t.fits(q.p1) && t.fits(q.p2),
            PathSeg::Cubic(c) => t.fits(c.p0) && t.fits(c.p1) && t.fits(c.p2) && t.fits(c.p3),
        }
    }

    open spec fn ts_image(&self, t: TranslateScale) -> PathSeg {
        match *self {
            PathSeg::Line(l) => PathSeg::Line(Line { p0: t.map_spec(l.p0), p1: t.map_spec(l.p1) }),
            PathSeg::Quad(q) => PathSeg::Quad(
                QuadBez { p0: t.map_spec(q.p0), p1: t.map_spec(q.p1), p2: t.map_spec(q.p2) },
            ),
            PathSeg::Cubic(c) => PathSeg::Cubic(
                CubicBez {
                    p0: t.map_spec(c.p0),
                    p1: t.map_spec(c.p1),
                    p2: t.map_spec(c.p2),
                    p3: t.map_spec(c.p3),
                },
            ),
        }
    }

    fn apply_affine(self, a: Transform) -> (r: PathSeg) {
        match self {
            PathSeg::Line(l) => PathSeg::Line(Line { p0: a.map_point(l.p0), p1: a.map_point(l.p1) }),
            PathSeg::Quad(q) => PathSeg::Quad(
                QuadBez { p0: a.map_point(q.p0), p1: a.map_point(q.p1), p2: a.map_point(q.p2) },
            ),
            PathSeg::Cubic(c) => PathSeg::Cubic(
                CubicBez {
                    p0: a.map_point(c.p0),
                    p1: a.map_point(c.p1),
                    p2: a.map_point(c.p2),
                    p3: a.map_point(c.p3),
                },
            ),
        }
    }

    fn apply_translate_scale(self, t: TranslateScale) -> (r: PathSeg) {
        match self {
            PathSeg::Line(l) => PathSeg::Line(Line { p0: t.map_point(l.p0), p1: t.map_point(l.p1) }),
            PathSeg::Quad(q) => PathSeg::Quad(
                QuadBez { p0: t.map_point(q.p0), p1: t.map_point(q.p1), p2: t.map_point(q.p2) },
            ),
            PathSeg::Cubic(c) => PathSeg::Cubic(
                CubicBez {
                    p0: t.map_point(c.p0),
                    p1: t.map_point(c.p1),
                    p2: t.map_point(c.p2),
                    p3: t.map_point(c.p3),
                },
            ),
        }
    }
}

impl Monotone<PathSeg> {
    /// The curve with a translate-scale map applied to each control point.
    pub fn apply_translate_scale(self, ts: TranslateScale) -> (r: Monotone<PathSeg>)
        requires
            ts.wf(),
            self.0.ts_fits(ts),
        ensures
            r.0 == self.0.ts_image(ts),
    {
        Monotone(self.0.apply_translate_scale(ts))
    }
}

/// The identity transform leaves every segment as it was.
pub proof fn lemma_identity_transform_keeps_segment(seg: PathSeg, t: Transform)
    requires
        seg.wf_spec(),
        t.is_identity(),
    ensures
        seg.affine_fits(t),
        seg.affine_image(t) == seg,
{
    match seg {
        PathSeg::Line(l) => {
            lemma_identity_maps_point(t, l.p0);
            lemma_identity_maps_point(t, l.p1);
        },
        PathSeg::Quad(q) => {
            lemma_identity_maps_point(t, q.p0);
            lemma_identity_maps_point(t, q.p1);
            lemma_identity_maps_point(t, q.p2);
        },
        PathSeg::Cubic(c) => {
            lemma_identity_maps_point(t, c.p0);
            lemma_identity_maps_point(t, c.p1);
            lemma_identity_maps_point(t, c.p2);
            lemma_identity_maps_point(t, c.p3);
        },
    }
}


/// Whether `p` lies within half of `d` of the rectangle `r` on both axes.
pub open spec fn near_box(p: Point, r: Rect, d: int) -> bool {
    2 * (r.x0 - p.x) <= d && 2 * (p.x - r.x1) <= d && 2 * (r.y0 - p.y) <= d && 2 * (p.y - r.y1)
        <= d
}

/// Whether every point of `s` lies within half of `d` of both rectangles.
pub open spec fn all_near(s: Seq<Point>, ra: Rect, rb: Rect, d: int) -> bool {
    forall|i: int| 0 <= i < s.len() ==> near_box(#[trigger] s[i], ra, d) && near_box(s[i], rb, d)
}

/// Whether `r` lies inside `outer`.
pub open spec fn within(r: Rect, outer: Rect) -> bool {
    outer.x0 <= r.x0 && r.x1 <= outer.x1 && outer.y0 <= r.y0 && r.y1 <= outer.y1
}

proof fn lemma_tdiv_between(s: int, d: int, lo: int, hi: int)
    requires
        d > 0,
        d * lo <= s <= d * hi,
    ensures
        lo <= tdiv(s, d) <= hi,
{
    if s >= 0 {
        assert(lo <= s / d <= hi) by (nonlinear_arith)
            requires
                d > 0,
                d * lo <= s <= d * hi,
        ;
    } else {
        assert(-hi <= (-s) / d <= -lo) by (nonlinear_arith)
            requires
                d > 0,
                s < 0,
                d * lo <= s <= d * hi,
        ;
    }
}

/// Whether `p` lies inside `h`.
pub open spec fn in_box(p: Point, h: Rect) -> bool {
    h.x0 <= p.x <= h.x1 && h.y0 <= p.y <= h.y1
}

proof fn lemma_mid2_in(p: Point, q: Point, h: Rect)
    requires
        in_box(p, h),
        in_box(q, h),
    ensures
        in_box(crate::geom::pmid2(p, q), h),
{
    lemma_tdiv_between(p.x + q.x, 2, h.x0 as int, h.x1 as int);
    lemma_tdiv_between(p.y + q.y, 2, h.y0 as int, h.y1 as int);
}

proof fn lemma_mid4_in(p: Point, q: Point, r: Point, h: Rect)
    requires
        in_box(p, h),
        in_box(q, h),
        in_box(r, h),
    ensures
        in_box(crate::geom::pmid4(p, q, r), h),
{
    lemma_tdiv_between(p.x + 2 * q.x + r.x, 4, h.x0 as int, h.x1 as int);
    lemma_tdiv_between(p.y + 2 * q.y + r.y, 4, h.y0 as int, h.y1 as int);
}

proof fn lemma_mid8_in(p: Point, q: Point, r: Point, t: Point, h: Rect)
    requires
        in_box(p, h),
        in_box(q, h),
        in_box(r, h),
        in_box(t, h),
    ensures
        in_box(crate::geom::pmid8(p, q, r, t), h),
{
    lemma_tdiv_between(p.x + 3 * q.x + 3 * r.x + t.x, 8, h.x0 as int, h.x1 as int);
    lemma_tdiv_between(p.y + 3 * q.y + 3 * r.y + t.y, 8, h.y0 as int, h.y1 as int);
}

/// Whether every control point of `seg` lies inside `h`.
pub open spec fn controls_in(seg: PathSeg, h: Rect) -> bool {
    match seg {
        PathSeg::Line(l) => in_box(l.p0, h) && in_box(l.p1, h),
        PathSeg::Quad(q) => in_box(q.p0, h) && in_box(q.p1, h) && in_box(q.p2, h),
        PathSeg::Cubic(c) => in_box(c.p0, h) && in_box(c.p1, h) && in_box(c.p2, h) && in_box(c.p3, h),
    }
}

proof fn lemma_plerp_in(p: Point, q: Point, t: int, h: Rect)
    requires
        in_box(p, h),
        in_box(q, h),
        0 <= t <= UNIT,
    ensures
        in_box(plerp(p, q, t), h),
{
    lemma_lerp_between(p.x as int, q.x as int, t);
    lemma_lerp_between(p.y as int, q.y as int, t);
}

/// For every parameter from zero to `UNIT`, the point of a segment lies in the
/// box of its control points.
pub proof fn lemma_point_in_hull(seg: PathSeg, t: int)
    requires
        seg.wf_spec(),
        0 <= t <= UNIT,
    ensures
        in_box(seg.point_at(t), seg.hull_box()),
{
    let h = seg.hull_box();
    assert(controls_in(seg, h));
    match seg {
        PathSeg::Line(l) => {
            lemma_plerp_in(l.p0, l.p1, t, h);
        },
        PathSeg::Quad(q) => {
            lemma_plerp_in(q.p0, q.p1, t, h);
            lemma_plerp_in(q.p1, q.p2, t, h);
            lemma_plerp_in(plerp(q.p0, q.p1, t), plerp(q.p1, q.p2, t), t, h);
        },
        PathSeg::Cubic(c) => {
            let a = plerp(c.p0, c.p1, t);
            let b = plerp(c.p1, c.p2, t);
            let d = plerp(c.p2, c.p3, t);
            lemma_plerp_in(c.p0, c.p1, t, h);
            lemma_plerp_in(c.p1, c.p2, t, h);
            lemma_plerp_in(c.p2, c.p3, t, h);
            lemma_plerp_in(a, b, t, h);
            lemma_plerp_in(b, d, t, h);
            lemma_plerp_in(plerp(a, b, t), plerp(b, d, t), t, h);
        },
    }
}

proof fn lemma_hull_within(seg: PathSeg, h: Rect)
    requires
        controls_in(seg, h),
        h.wf(),
    ensures
        within(seg.hull_box(), h),
        seg.wf_spec(),
{
}

/// Both halves of a segment lie inside the segment's box.
pub proof fn lemma_halves_within(seg: PathSeg)
    requires
        seg.wf_spec(),
    ensures
        seg.split().0.wf_spec(),
        seg.split().1.wf_spec(),
        within(seg.split().0.hull_box(), seg.hull_box()),
        within(seg.split().1.hull_box(), seg.hull_box()),
{
    let h = seg.hull_box();
    assert(controls_in(seg, h));
    match seg {
        PathSeg::Line(l) => {
            lemma_mid2_in(l.p0, l.p1, h);
        },
        PathSeg::Quad(q) => {
            lemma_mid2_in(q.p0, q.p1, h);
            lemma_mid2_in(q.p1, q.p2, h);
            lemma_mid4_in(q.p0, q.p1, q.p2, h);
        },
        PathSeg::Cubic(c) => {
            lemma_mid2_in(c.p0, c.p1, h);
            lemma_mid2_in(c.p2, c.p3, h);
            lemma_mid4_in(c.p0, c.p1, c.p2, h);
            lemma_mid4_in(c.p1, c.p2, c.p3, h);
            lemma_mid8_in(c.p0, c.p1, c.p2, c.p3, h);
        },
    }
    assert(controls_in(seg.split().0, h));
    assert(controls_in(seg.split().1, h));
    lemma_hull_within(seg.split().0, h);
    lemma_hull_within(seg.split().1, h);
}

proof fn lemma_all_near_widen(s: Seq<Point>, ra: Rect, rb: Rect, oa: Rect, ob: Rect, d: int)
    requires
        all_near(s, ra, rb, d),
        within(ra, oa),
        within(rb, ob),
    ensures
        all_near(s, oa, ob, d),
{
}

proof fn lemma_merge_all_near(acc: Seq<Point>, vals: Seq<Point>, tol: int, cap: nat, ra: Rect, rb: Rect, d: int)
    requires
        all_near(acc, ra, rb, d),
        all_near(vals, ra, rb, d),
    ensures
        all_near(merge(acc, vals, tol, cap), ra, rb, d),
    decreases vals.len(),
{
    if vals.len() > 0 {
        assert(all_near(vals.drop_last(), ra, rb, d));
        lemma_merge_all_near(acc, vals.drop_last(), tol, cap, ra, rb, d);
        assert(near_box(vals[vals.len() - 1], ra, d));
    }
}

/// Whether the box of `c` is well formed and, down to `depth` subdivisions,
/// the boxes of both halves of every piece lie inside the box of that piece.
pub open spec fn nested<C: ParamCurve>(c: C, depth: nat) -> bool
    decreases depth,
{
    &&& c.bbox_spec().wf()
    &&& depth > 0 ==> {
        &&& within(c.halves().0.bbox_spec(), c.bbox_spec())
        &&& within(c.halves().1.bbox_spec(), c.bbox_spec())
        &&& nested(c.halves().0, (depth - 1) as nat)
        &&& nested(c.halves().1, (depth - 1) as nat)
    }
}

/// Path segments always nest: their halves keep inside the box of their
/// control points.
pub proof fn lemma_segment_nested(seg: PathSeg, depth: nat)
    requires
        seg.wf_spec(),
    ensures
        nested(seg, depth),
    decreases depth,
{
    assert(controls_in(seg, seg.hull_box()));
    if depth > 0 {
        lemma_halves_within(seg);
        lemma_segment_nested(seg.split().0, (depth - 1) as nat);
        lemma_segment_nested(seg.split().1, (depth - 1) as nat);
    }
}

proof fn lemma_half_sum(s: int)
    ensures
        s - 1 <= 2 * tdiv(s, 2) <= s + 1,
{
}

proof fn lemma_base_near_boxes<C: ParamCurve>(a: C, b: C, accuracy: int, cap: nat, depth: nat)
    requires
        a.bbox_spec().wf(),
        b.bbox_spec().wf(),
        accuracy > 0,
        !overlaps(a.bbox_spec(), b.bbox_spec()) || cap == 0 || is_small(a.bbox_spec(), accuracy)
            || is_small(b.bbox_spec(), accuracy) || depth == 0,
    ensures
        all_near(intersections(a, b, accuracy, cap, depth), a.bbox_spec(), b.bbox_spec(), accuracy),
{
    let ba = a.bbox_spec();
    let bb = b.bbox_spec();
    let r = intersections(a, b, accuracy, cap, depth);
    lemma_half_sum(ba.x0 + ba.x1);
    lemma_half_sum(ba.y0 + ba.y1);
    lemma_half_sum(bb.x0 + bb.x1);
    lemma_half_sum(bb.y0 + bb.y1);
    if !overlaps(ba, bb) || cap == 0 {
    } else if is_small(ba, accuracy) {
        lemma_tdiv_between(ba.x0 + ba.x1, 2, ba.x0 as int, ba.x1 as int);
        lemma_tdiv_between(ba.y0 + ba.y1, 2, ba.y0 as int, ba.y1 as int);
        assert(r == seq![ba.center_spec()]);
    } else if is_small(bb, accuracy) {
        lemma_tdiv_between(bb.x0 + bb.x1, 2, bb.x0 as int, bb.x1 as int);
        lemma_tdiv_between(bb.y0 + bb.y1, 2, bb.y0 as int, bb.y1 as int);
        assert(r == seq![bb.center_spec()]);
    } else {
        let m = ba.meet_spec(bb);
        lemma_tdiv_between(m.x0 + m.x1, 2, m.x0 as int, m.x1 as int);
        lemma_tdiv_between(m.y0 + m.y1, 2, m.y0 as int, m.y1 as int);
        assert(r == seq![m.center_spec()]);
    }
}

/// For curves whose pieces nest, every point that the search reports lies
/// within half the accuracy of the bounding box of each curve.
pub proof fn lemma_intersections_near_boxes<C: ParamCurve>(
    a: C,
    b: C,
    accuracy: int,
    cap: nat,
    depth: nat,
)
    requires
        nested(a, depth),
        nested(b, depth),
        accuracy > 0,
    ensures
        all_near(intersections(a, b, accuracy, cap, depth), a.bbox_spec(), b.bbox_spec(), accuracy),
    decreases depth,
{
    let ba = a.bbox_spec();
    let bb = b.bbox_spec();
    if !overlaps(ba, bb) || cap == 0 || is_small(ba, accuracy) || is_small(bb, accuracy) || depth
        == 0 {
        lemma_base_near_boxes(a, b, accuracy, cap, depth);
    } else {
        let (a1, a2) = a.halves();
        let (b1, b2) = b.halves();
        let tol = 2 * accuracy;
        let d = (depth - 1) as nat;
        let i11 = intersections(a1, b1, accuracy, cap, d);
        let i12 = intersections(a1, b2, accuracy, cap, d);
        let i21 = intersections(a2, b1, accuracy, cap, d);
        let i22 = intersections(a2, b2, accuracy, cap, d);
        lemma_intersections_near_boxes(a1, b1, accuracy, cap, d);
        lemma_intersections_near_boxes(a1, b2, accuracy, cap, d);
        lemma_intersections_near_boxes(a2, b1, accuracy, cap, d);
        lemma_intersections_near_boxes(a2, b2, accuracy, cap, d);
        lemma_all_near_widen(i11, a1.bbox_spec(), b1.bbox_spec(), ba, bb, accuracy);
        lemma_all_near_widen(i12, a1.bbox_spec(), b2.bbox_spec(), ba, bb, accuracy);
        lemma_all_near_widen(i21, a2.bbox_spec(), b1.bbox_spec(), ba, bb, accuracy);
        lemma_all_near_widen(i22, a2.bbox_spec(), b2.bbox_spec(), ba, bb, accuracy);
        let r1 = merge(seq![], i11, tol, cap);
        let r2 = merge(r1, i12, tol, cap);
        let r3 = merge(r2, i21, tol, cap);
        lemma_merge_all_near(seq![], i11, tol, cap, ba, bb, accuracy);
        lemma_merge_all_near(r1, i12, tol, cap, ba, bb, accuracy);
        lemma_merge_all_near(r2, i21, tol, cap, ba, bb, accuracy);
        lemma_merge_all_near(r3, i22, tol, cap, ba, bb, accuracy);
    }
}

/// Every point that the search reports for two path segments lies within
/// half the accuracy of the bounding box of each of them.
pub proof fn lemma_intersections_near_both(
    a: PathSeg,
    b: PathSeg,
    accuracy: int,
    cap: nat,
    depth: nat,
)
    requires
        a.wf_spec(),
        b.wf_spec(),
        accuracy > 0,
    ensures
        all_near(intersections(a, b, accuracy, cap, depth), a.hull_box(), b.hull_box(), accuracy),
{
    lemma_segment_nested(a, depth);
    lemma_segment_nested(b, depth);
    lemma_intersections_near_boxes(a, b, accuracy, cap, depth);
}

} // verus!
