//! Points, rectangles, sizes and transforms on fixed-point coordinates.
//!
//! A coordinate is an `i64` counting units of `1 / UNIT` of a point, so that
//! `UNIT` stands for one whole point. Every value the kernel handles stays in
//! `[-COORD_MAX, COORD_MAX]`, which leaves room for the sums that subdivision
//! forms.

use vstd::prelude::*;

verus! {

/// The number of coordinate units in one whole point, and the fixed-point
/// representation of the ratio one.
pub const UNIT: i64 = 65536;

/// The largest magnitude of a coordinate.
pub const COORD_MAX: i64 = 0x1_0000_0000_0000;

/// A length in coordinate units.
pub type Length = i64;

/// Division that rounds toward zero, as machine division does.
pub open spec fn tdiv(a: int, d: int) -> int {
    if a >= 0 {
        a / d
    } else {
        -((-a) / d)
    }
}

pub open spec fn in_range(v: int) -> bool {
    -COORD_MAX <= v <= COORD_MAX
}

pub open spec fn abs(v: int) -> int {
    if v < 0 {
        -v
    } else {
        v
    }
}

pub open spec fn min(a: int, b: int) -> int {
    if a <= b {
        a
    } else {
        b
    }
}

pub open spec fn max(a: int, b: int) -> int {
    if a >= b {
        a
    } else {
        b
    }
}

/// A point in the plane.
#[derive(Clone, Copy, Debug, PartialEq, Eq, Structural, Hash)]
pub struct Point {
    pub x: i64,
    pub y: i64,
}

impl Point {
    pub open spec fn wf(&self) -> bool {
        in_range(self.x as int) && in_range(self.y as int)
    }

    /// Create a point from its two coordinates.
    pub fn new(x: i64, y: i64) -> (r: Point)
        ensures
            r.x == x,
            r.y == y,
    {
        Point { x, y }
    }

    /// The origin.
    pub fn zero() -> (r: Point)
        ensures
            r.x == 0,
            r.y == 0,
    {
        Point { x: 0, y: 0 }
    }

    /// Whether both coordinates are zero.
    pub fn is_zero(&self) -> (r: bool)
        ensures
            r == (self.x == 0 && self.y == 0),
    {
        self.x == 0 && self.y == 0
    }

    pub open spec fn approx_eq_spec(&self, other: Point, tolerance: int) -> bool {
        abs(self.x - other.x) < tolerance && abs(self.y - other.y) < tolerance
    }

    /// Whether the two points differ by less than `tolerance` on each axis.
    pub fn approx_eq(&self, other: &Point, tolerance: i64) -> (r: bool)
        requires
            self.wf(),
            other.wf(),
        ensures
            r == self.approx_eq_spec(*other, tolerance as int),
    {
        let dx = self.x - other.x;
        let dy = self.y - other.y;
        let adx = if dx < 0 { -dx } else { dx };
        let ady = if dy < 0 { -dy } else { dy };
        adx < tolerance && ady < tolerance
    }
}

pub open spec fn mid2(a: int, b: int) -> int {
    tdiv(a + b, 2)
}

pub open spec fn mid4(a: int, b: int, c: int) -> int {
    tdiv(a + 2 * b + c, 4)
}

pub open spec fn mid8(a: int, b: int, c: int, d: int) -> int {
    tdiv(a + 3 * b + 3 * c + d, 8)
}

pub open spec fn pmid2(p: Point, q: Point) -> Point {
    Point { x: mid2(p.x as int, q.x as int) as i64, y: mid2(p.y as int, q.y as int) as i64 }
}

pub open spec fn pmid4(p: Point, q: Point, r: Point) -> Point {
    Point {
        x: mid4(p.x as int, q.x as int, r.x as int) as i64,
        y: mid4(p.y as int, q.y as int, r.y as int) as i64,
    }
}

pub open spec fn pmid8(p: Point, q: Point, r: Point, s: Point) -> Point {
    Point {
        x: mid8(p.x as int, q.x as int, r.x as int, s.x as int) as i64,
        y: mid8(p.y as int, q.y as int, r.y as int, s.y as int) as i64,
    }
}

fn mid2_exec(a: i64, b: i64) -> (r: i64)
    requires
        in_range(a as int),
        in_range(b as int),
    ensures
        r == mid2(a as int, b as int),
        in_range(r as int),
{
    (a + b) / 2
}

fn mid4_exec(a: i64, b: i64, c: i64) -> (r: i64)
    requires
        in_range(a as int),
        in_range(b as int),
        in_range(c as int),
    ensures
        r == mid4(a as int, b as int, c as int),
        in_range(r as int),
{
    (a + 2 * b + c) / 4
}

fn mid8_exec(a: i64, b: i64, c: i64, d: i64) -> (r: i64)
    requires
        in_range(a as int),
        in_range(b as int),
        in_range(c as int),
        in_range(d as int),
    ensures
        r == mid8(a as int, b as int, c as int, d as int),
        in_range(r as int),
{
    (a + 3 * b + 3 * c + d) / 8
}

/// The point halfway between `p` and `q`, rounded toward zero.
pub fn point_mid2(p: Point, q: Point) -> (r: Point)
    requires
        p.wf(),
        q.wf(),
    ensures
        r == pmid2(p, q),
        r.wf(),
{
    Point { x: mid2_exec(p.x, q.x), y: mid2_exec(p.y, q.y) }
}

/// The weighted mean `(p + 2q + r) / 4`, rounded toward zero.
pub fn point_mid4(p: Point, q: Point, r: Point) -> (o: Point)
    requires
        p.wf(),
        q.wf(),
        r.wf(),
    ensures
        o == pmid4(p, q, r),
        o.wf(),
{
    Point { x: mid4_exec(p.x, q.x, r.x), y: mid4_exec(p.y, q.y, r.y) }
}

/// The weighted mean `(p + 3q + 3r + s) / 8`, rounded toward zero.
pub fn point_mid8(p: Point, q: Point, r: Point, s: Point) -> (o: Point)
    requires
        p.wf(),
        q.wf(),
        r.wf(),
        s.wf(),
    ensures
        o == pmid8(p, q, r, s),
        o.wf(),
{
    Point { x: mid8_exec(p.x, q.x, r.x, s.x), y: mid8_exec(p.y, q.y, r.y, s.y) }
}

/// The value a fraction `t / UNIT` of the way from `a` to `b`, with the
/// fraction of the difference rounded toward zero.
pub open spec fn lerp(a: int, b: int, t: int) -> int {
    a + tdiv((b - a) * t, UNIT as int)
}

pub open spec fn plerp(p: Point, q: Point, t: int) -> Point {
    Point { x: lerp(p.x as int, q.x as int, t) as i64, y: lerp(p.y as int, q.y as int, t) as i64 }
}

/// A step part of the way from `a` to `b` stays between them.
pub proof fn lemma_lerp_between(a: int, b: int, t: int)
    requires
        0 <= t <= UNIT,
    ensures
        min(a, b) <= lerp(a, b, t) <= max(a, b),
{
    let d = b - a;
    if d >= 0 {
        assert(0 <= d * t <= d * UNIT) by (nonlinear_arith)
            requires
                d >= 0,
                0 <= t <= UNIT,
        ;
        assert(tdiv(d * t, UNIT as int) <= d) by (nonlinear_arith)
            requires
                0 <= d * t <= d * UNIT,
                UNIT == 65536,
        ;
    } else {
        assert(d * UNIT <= d * t <= 0) by (nonlinear_arith)
            requires
                d < 0,
                0 <= t <= UNIT,
        ;
        assert(tdiv(d * t, UNIT as int) >= d) by (nonlinear_arith)
            requires
                d * UNIT <= d * t <= 0,
                UNIT == 65536,
        ;
    }
}

fn lerp_exec(a: i64, b: i64, t: i64) -> (r: i64)
    requires
        in_range(a as int),
        in_range(b as int),
        0 <= t <= UNIT,
    ensures
        r == lerp(a as int, b as int, t as int),
        in_range(r as int),
{
    proof {
        lemma_lerp_between(a as int, b as int, t as int);
        assert(-0x4_0000_0000_0000_0000 <= (b - a) * t <= 0x4_0000_0000_0000_0000) by (nonlinear_arith)
            requires
                -0x2_0000_0000_0000 <= b - a <= 0x2_0000_0000_0000,
                0 <= t <= 65536,
        ;
    }
    let d = (b as i128 - a as i128) * t as i128;
    (a as i128 + d / (UNIT as i128)) as i64
}

/// The point a fraction `t / UNIT` of the way from `p` to `q`.
pub fn point_lerp(p: Point, q: Point, t: i64) -> (r: Point)
    requires
        p.wf(),
        q.wf(),
        0 <= t <= UNIT,
    ensures
        r == plerp(p, q, t as int),
        r.wf(),
{
    Point { x: lerp_exec(p.x, q.x, t), y: lerp_exec(p.y, q.y, t) }
}

/// An axis-aligned rectangle from `(x0, y0)` to `(x1, y1)`.
#[derive(Clone, Copy, Debug, PartialEq, Eq, Structural)]
pub struct Rect {
    pub x0: i64,
    pub y0: i64,
    pub x1: i64,
    pub y1: i64,
}

impl Rect {
    pub open spec fn wf(&self) -> bool {
        in_range(self.x0 as int) && in_range(self.y0 as int) && in_range(self.x1 as int)
            && in_range(self.y1 as int) && self.x0 <= self.x1 && self.y0 <= self.y1
    }

    pub open spec fn spanned(p: Point, q: Point) -> Rect {
        Rect {
            x0: min(p.x as int, q.x as int) as i64,
            y0: min(p.y as int, q.y as int) as i64,
            x1: max(p.x as int, q.x as int) as i64,
            y1: max(p.y as int, q.y as int) as i64,
        }
    }

    /// The smallest rectangle that holds both points.
    pub fn from_points(p: Point, q: Point) -> (r: Rect)
        requires
            p.wf(),
            q.wf(),
        ensures
            r == Rect::spanned(p, q),
            r.wf(),
    {
        Rect {
            x0: if p.x <= q.x { p.x } else { q.x },
            y0: if p.y <= q.y { p.y } else { q.y },
            x1: if p.x >= q.x { p.x } else { q.x },
            y1: if p.y >= q.y { p.y } else { q.y },
        }
    }

    pub open spec fn union_spec(&self, o: Rect) -> Rect {
        Rect {
            x0: min(self.x0 as int, o.x0 as int) as i64,
            y0: min(self.y0 as int, o.y0 as int) as i64,
            x1: max(self.x1 as int, o.x1 as int) as i64,
            y1: max(self.y1 as int, o.y1 as int) as i64,
        }
    }

    /// The smallest rectangle that holds both rectangles.
    pub fn union(&self, o: &Rect) -> (r: Rect)
        requires
            self.wf(),
            o.wf(),
        ensures
            r == self.union_spec(*o),
            r.wf(),
    {
        Rect {
            x0: if self.x0 <= o.x0 { self.x0 } else { o.x0 },
            y0: if self.y0 <= o.y0 { self.y0 } else { o.y0 },
            x1: if self.x1 >= o.x1 { self.x1 } else { o.x1 },
            y1: if self.y1 >= o.y1 { self.y1 } else { o.y1 },
        }
    }

    pub open spec fn meet_spec(&self, o: Rect) -> Rect {
        Rect {
            x0: max(self.x0 as int, o.x0 as int) as i64,
            y0: max(self.y0 as int, o.y0 as int) as i64,
            x1: min(self.x1 as int, o.x1 as int) as i64,
            y1: min(self.y1 as int, o.y1 as int) as i64,
        }
    }

    /// The rectangle where two overlapping rectangles overlap.
    pub fn meet(&self, o: &Rect) -> (r: Rect)
        requires
            self.wf(),
            o.wf(),
            self.x0 <= o.x1 && o.x0 <= self.x1 && self.y0 <= o.y1 && o.y0 <= self.y1,
        ensures
            r == self.meet_spec(*o),
            r.wf(),
    {
        Rect {
            x0: if self.x0 >= o.x0 { self.x0 } else { o.x0 },
            y0: if self.y0 >= o.y0 { self.y0 } else { o.y0 },
            x1: if self.x1 <= o.x1 { self.x1 } else { o.x1 },
            y1: if self.y1 <= o.y1 { self.y1 } else { o.y1 },
        }
    }

    pub open spec fn width_spec(&self) -> int {
        self.x1 - self.x0
    }

    pub open spec fn height_spec(&self) -> int {
        self.y1 - self.y0
    }

    /// The extent along the x axis.
    pub fn width(&self) -> (r: i64)
        requires
            self.wf(),
        ensures
            r == self.width_spec(),
    {
        self.x1 - self.x0
    }

    /// The extent along the y axis.
    pub fn height(&self) -> (r: i64)
        requires
            self.wf(),
        ensures
            r == self.height_spec(),
    {
        self.y1 - self.y0
    }

    pub open spec fn center_spec(&self) -> Point {
        Point { x: mid2(self.x0 as int, self.x1 as int) as i64, y: mid2(self.y0 as int, self.y1 as int) as i64 }
    }

    /// The point in the middle of the rectangle, rounded toward zero.
    pub fn center(&self) -> (r: Point)
        requires
            self.wf(),
        ensures
            r == self.center_spec(),
            r.wf(),
    {
        Point { x: mid2_exec(self.x0, self.x1), y: mid2_exec(self.y0, self.y1) }
    }
}


proof fn lemma_mul_bound(a: int, b: int)
    requires
        -COORD_MAX <= a <= COORD_MAX,
        -COORD_MAX <= b <= COORD_MAX,
    ensures
        -COORD_MAX * COORD_MAX <= a * b <= COORD_MAX * COORD_MAX,
{
    assert(-COORD_MAX * COORD_MAX <= a * b <= COORD_MAX * COORD_MAX) by (nonlinear_arith)
        requires
            -COORD_MAX <= a <= COORD_MAX,
            -COORD_MAX <= b <= COORD_MAX,
    ;
}

/// An affine map: `x' = sx·x + kx·y + tx` and `y' = ky·x + sy·y + ty`, where
/// the four factors are ratios with `UNIT` standing for one.
#[derive(Clone, Copy, Debug, PartialEq, Eq, Structural)]
pub struct Transform {
    pub sx: i64,
    pub ky: i64,
    pub kx: i64,
    pub sy: i64,
    pub tx: Length,
    pub ty: Length,
}

impl Transform {
    pub open spec fn wf(&self) -> bool {
        in_range(self.sx as int) && in_range(self.ky as int) && in_range(self.kx as int)
            && in_range(self.sy as int) && in_range(self.tx as int) && in_range(self.ty as int)
    }

    pub open spec fn map_x(&self, p: Point) -> int {
        tdiv(self.sx * p.x + self.kx * p.y, UNIT as int) + self.tx
    }

    pub open spec fn map_y(&self, p: Point) -> int {
        tdiv(self.ky * p.x + self.sy * p.y, UNIT as int) + self.ty
    }

    /// The image of `p` stays in the coordinate range.
    pub open spec fn fits(&self, p: Point) -> bool {
        in_range(self.map_x(p)) && in_range(self.map_y(p))
    }

    pub open spec fn map_spec(&self, p: Point) -> Point {
        Point { x: self.map_x(p) as i64, y: self.map_y(p) as i64 }
    }

    pub open spec fn identity_spec() -> Transform {
        Transform { sx: UNIT, ky: 0, kx: 0, sy: UNIT, tx: 0, ty: 0 }
    }

    pub open spec fn is_identity(&self) -> bool {
        self.sx == UNIT && self.sy == UNIT && self.kx == 0 && self.ky == 0 && self.tx == 0
            && self.ty == 0
    }

    /// The map that leaves every point where it is.
    pub fn identity() -> (r: Transform)
        ensures
            r == Transform::identity_spec(),
            r.is_identity(),
            r.wf(),
    {
        Transform { sx: UNIT, ky: 0, kx: 0, sy: UNIT, tx: 0, ty: 0 }
    }

    /// The image of a point, with the scaled part rounded toward zero.
    pub fn map_point(&self, p: Point) -> (r: Point)
        requires
            self.wf(),
            p.wf(),
            self.fits(p),
        ensures
            r == self.map_spec(p),
            r.wf(),
    {
        proof {
            lemma_mul_bound(self.sx as int, p.x as int);
            lemma_mul_bound(self.kx as int, p.y as int);
            lemma_mul_bound(self.ky as int, p.x as int);
            lemma_mul_bound(self.sy as int, p.y as int);
        }
        let x = (self.sx as i128 * p.x as i128 + self.kx as i128 * p.y as i128) / (UNIT as i128)
            + self.tx as i128;
        let y = (self.ky as i128 * p.x as i128 + self.sy as i128 * p.y as i128) / (UNIT as i128)
            + self.ty as i128;
        Point { x: x as i64, y: y as i64 }
    }
}

/// A scale about the origin followed by a translation: `p' = scale·p + t`,
/// where `scale` is a ratio with `UNIT` standing for one.
#[derive(Clone, Copy, Debug, PartialEq, Eq, Structural)]
pub struct TranslateScale {
    pub translation: Point,
    pub scale: i64,
}

impl TranslateScale {
    pub open spec fn wf(&self) -> bool {
        self.translation.wf() && in_range(self.scale as int)
    }

    pub open spec fn map_x(&self, p: Point) -> int {
        tdiv(self.scale * p.x, UNIT as int) + self.translation.x
    }

    pub open spec fn map_y(&self, p: Point) -> int {
        tdiv(self.scale * p.y, UNIT as int) + self.translation.y
    }

    /// The image of `p` stays in the coordinate range.
    pub open spec fn fits(&self, p: Point) -> bool {
        in_range(self.map_x(p)) && in_range(self.map_y(p))
    }

    pub open spec fn map_spec(&self, p: Point) -> Point {
        Point { x: self.map_x(p) as i64, y: self.map_y(p) as i64 }
    }

    /// Create a translate-scale map.
    pub fn new(translation: Point, scale: i64) -> (r: TranslateScale)
        ensures
            r.translation == translation,
            r.scale == scale,
    {
        TranslateScale { translation, scale }
    }

    /// The image of a point, with the scaled part rounded toward zero.
    pub fn map_point(&self, p: Point) -> (r: Point)
        requires
            self.wf(),
            p.wf(),
            self.fits(p),
        ensures
            r == self.map_spec(p),
            r.wf(),
    {
        proof {
            lemma_mul_bound(self.scale as int, p.x as int);
            lemma_mul_bound(self.scale as int, p.y as int);
        }
        let x = (self.scale as i128 * p.x as i128) / (UNIT as i128) + self.translation.x as i128;
        let y = (self.scale as i128 * p.y as i128) / (UNIT as i128) + self.translation.y as i128;
        Point { x: x as i64, y: y as i64 }
    }
}

/// The identity map sends every point in range to itself.
pub proof fn lemma_identity_maps_point(t: Transform, p: Point)
    requires
        t.is_identity(),
        p.wf(),
    ensures
        t.fits(p),
        t.map_spec(p) == p,
{
    assert(tdiv(UNIT * p.x, UNIT as int) == p.x) by (nonlinear_arith)
        requires
            UNIT == 65536,
    ;
    assert(tdiv(UNIT * p.y, UNIT as int) == p.y) by (nonlinear_arith)
        requires
            UNIT == 65536,
    ;
}


/// A size in two dimensions.
#[derive(Clone, Copy, Debug, PartialEq, Eq, Structural, Hash)]
pub struct Size {
    pub x: Length,
    pub y: Length,
}

impl Size {
    pub open spec fn wf(&self) -> bool {
        in_range(self.x as int) && in_range(self.y as int)
    }

    /// Create a size from its width and height.
    pub fn new(x: Length, y: Length) -> (r: Size)
        ensures
            r.x == x,
            r.y == y,
    {
        Size { x, y }
    }
}

/// A value for each of the two axes.
#[derive(Clone, Copy, Debug, PartialEq, Eq, Structural, Hash)]
pub struct Spec<T> {
    pub x: T,
    pub y: T,
}

/// Where to place something along an axis.
#[derive(Clone, Copy, Debug, PartialEq, Eq, Structural, Hash)]
pub enum Align {
    Left,
    Center,
    Right,
    Top,
    Horizon,
    Bottom,
}

impl Align {
    pub open spec fn position_spec(&self, length: int) -> int {
        match *self {
            Align::Left | Align::Top => 0,
            Align::Center | Align::Horizon => tdiv(length, 2),
            Align::Right | Align::Bottom => length,
        }
    }

    /// The offset at which something lands when `length` of free space is
    /// distributed according to this alignment.
    pub fn position(self, length: Length) -> (r: Length)
        ensures
            r == self.position_spec(length as int),
    {
        match self {
            Align::Left | Align::Top => 0,
            Align::Center | Align::Horizon => length / 2,
            Align::Right | Align::Bottom => length,
        }
    }
}

} // verus!
