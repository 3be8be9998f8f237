//! Pixel-space points and axis-aligned regions.
//!
//! Coordinates are whole pixels. Ratios are kept as exact fractions so that
//! every comparison the detector makes (overlap against a threshold, one
//! overlap against another) is decided without rounding.
use vstd::prelude::*;

verus! {

/// Largest magnitude of a point coordinate for which squared distances fit
/// the machine integers used to compare them.
pub const COORD_LIMIT: i64 = 1152921504606846976;

/// Confidence of a region that was manufactured rather than detected;
/// confidences are expressed in millionths.
pub const FULL_CONFIDENCE: u32 = 1000000;

/// A non-negative fraction `num / den`.
#[derive(Clone, Copy, Debug, PartialEq, Eq, Structural)]
pub struct Ratio {
    pub num: u32,
    pub den: u32,
}

impl Ratio {
    pub open spec fn wf(self) -> bool {
        self.den > 0
    }

    pub fn new(num: u32, den: u32) -> (r: Ratio)
        requires
            den > 0,
        ensures
            r.num == num,
            r.den == den,
            r.wf(),
    {
        Ratio { num, den }
    }
}

/// A point in pixel space.
#[derive(Clone, Copy, Debug, PartialEq, Eq, Structural)]
pub struct Point2f {
    pub x: i64,
    pub y: i64,
}

/// `v` clamped into the range of `u32`.
pub open spec fn saturate_u32(v: int) -> u32 {
    if v < 0 {
        0
    } else if v > u32::MAX {
        u32::MAX
    } else {
        v as u32
    }
}

fn saturate_u32_exec(v: i64) -> (r: u32)
    ensures
        r == saturate_u32(v as int),
{
    if v < 0 {
        0
    } else if v > u32::MAX as i64 {
        u32::MAX
    } else {
        v as u32
    }
}

pub open spec fn sq(v: int) -> int {
    v * v
}

impl Point2f {
    /// Both coordinates lie within `COORD_LIMIT`.
    pub open spec fn in_range(self) -> bool {
        -COORD_LIMIT <= self.x <= COORD_LIMIT && -COORD_LIMIT <= self.y <= COORD_LIMIT
    }

    pub open spec fn dist2(self, p: Point2f) -> int {
        sq(self.x - p.x) + sq(self.y - p.y)
    }

    pub fn new(x: i64, y: i64) -> (r: Point2f)
        ensures
            r.x == x,
            r.y == y,
    {
        Point2f { x, y }
    }

    pub fn x(&self) -> (r: i64)
        ensures
            r == self.x,
    {
        self.x
    }

    pub fn y(&self) -> (r: i64)
        ensures
            r == self.y,
    {
        self.y
    }

    /// `[x, y]` as pixel indices: negative coordinates become 0 and those
    /// beyond `u32::MAX` become `u32::MAX`.
    pub fn to_vec_u32(&self) -> (r: Vec<u32>)
        ensures
            r@.len() == 2,
            r@[0] == saturate_u32(self.x as int),
            r@[1] == saturate_u32(self.y as int),
    {
        let mut v: Vec<u32> = Vec::new();
        v.push(saturate_u32_exec(self.x));
        v.push(saturate_u32_exec(self.y));
        v
    }

    /// Squared Euclidean distance to `point`.
    pub fn l2_distance(&self, point: &Point2f) -> (r: i128)
        requires
            self.in_range(),
            point.in_range(),
        ensures
            r == self.dist2(*point),
            0 <= r,
    {
        let dx = self.x as i128 - point.x as i128;
        let dy = self.y as i128 - point.y as i128;
        proof {
            lemma_square_bound(dx as int, 2 * COORD_LIMIT);
            lemma_square_bound(dy as int, 2 * COORD_LIMIT);
        }
        dx * dx + dy * dy
    }
}

pub proof fn lemma_square_bound(v: int, b: int)
    requires
        0 <= b,
        -b <= v <= b,
    ensures
        0 <= v * v <= b * b,
{
    assert(0 <= v * v <= b * b) by (nonlinear_arith)
        requires
            0 <= b,
            -b <= v <= b,
    ;
}


pub proof fn lemma_mul_bound(a: int, b: int, ba: int, bb: int)
    requires
        0 <= a <= ba,
        0 <= b <= bb,
    ensures
        0 <= a * b <= ba * bb,
{
    assert(0 <= a * b <= ba * bb) by (nonlinear_arith)
        requires
            0 <= a <= ba,
            0 <= b <= bb,
    ;
}

pub open spec fn max_int(a: int, b: int) -> int {
    if a >= b {
        a
    } else {
        b
    }
}

pub open spec fn min_int(a: int, b: int) -> int {
    if a <= b {
        a
    } else {
        b
    }
}

/// Number of whole pixels shared by `[lo_a, hi_a]` and `[lo_b, hi_b]`, edges
/// counted inclusively.
pub open spec fn span(lo_a: int, hi_a: int, lo_b: int, hi_b: int) -> int {
    max_int(0, min_int(hi_a, hi_b) - max_int(lo_a, lo_b) + 1)
}

/// `v` clamped into `[0, hi]`.
pub open spec fn clamp(v: int, hi: int) -> int {
    if v < 0 {
        0
    } else if v > hi {
        hi
    } else {
        v
    }
}

/// An axis-aligned region with a detection score and a class tag.
#[derive(Clone, Copy, Debug, PartialEq, Eq, Structural)]
pub struct Bbox {
    pub xmin: i32,
    pub ymin: i32,
    pub width: u16,
    pub height: u16,
    /// Score in millionths.
    pub confidence: u32,
    pub class: u8,
}

impl Bbox {
    pub open spec fn right(self) -> int {
        self.xmin + self.width
    }

    pub open spec fn bottom(self) -> int {
        self.ymin + self.height
    }

    pub open spec fn area_spec(self) -> int {
        self.width * self.height
    }

    pub open spec fn inter_spec(self, b: Bbox) -> int {
        span(self.xmin as int, self.right(), b.xmin as int, b.right()) * span(
            self.ymin as int,
            self.bottom(),
            b.ymin as int,
            b.bottom(),
        )
    }

    pub open spec fn union_spec(self, b: Bbox) -> int {
        self.area_spec() + b.area_spec() - self.inter_spec(b)
    }

    /// The overlap ratio is defined (its denominator is positive) and exceeds `t`.
    pub open spec fn iou_above(self, b: Bbox, t: Ratio) -> bool {
        self.union_spec(b) > 0 && self.inter_spec(b) * t.den > t.num * self.union_spec(b)
    }

    /// The overlap ratio is defined and reaches at least `t`.
    pub open spec fn iou_at_least(self, b: Bbox, t: Ratio) -> bool {
        self.union_spec(b) > 0 && self.inter_spec(b) * t.den >= t.num * self.union_spec(b)
    }

    /// The region lies inside `[0, w] x [0, h]`.
    pub open spec fn within(self, w: int, h: int) -> bool {
        0 <= self.xmin && self.right() <= w && 0 <= self.ymin && self.bottom() <= h
    }

    pub open spec fn bound_spec(self, w: int, h: int) -> Bbox {
        let x = clamp(self.xmin as int, w);
        let y = clamp(self.ymin as int, h);
        Bbox {
            xmin: x as i32,
            ymin: y as i32,
            width: (min_int(self.width + x, w) - x) as u16,
            height: (min_int(self.height + y, h) - y) as u16,
            confidence: self.confidence,
            class: self.class,
        }
    }

    /// `v * s` halved, rounded down: the offset of a scaled centre.
    pub open spec fn half_scaled(v: int, s: Ratio) -> int {
        (v * s.num) / (2 * s.den as int)
    }

    pub open spec fn center_spec(self, sx: Ratio, sy: Ratio) -> Point2f {
        Point2f {
            x: (self.xmin + Self::half_scaled(self.width as int, sx)) as i64,
            y: (self.ymin + Self::half_scaled(self.height as int, sy)) as i64,
        }
    }

    pub fn new_from_xywh(xmin: i32, ymin: i32, width: u16, height: u16) -> (r: Bbox)
        ensures
            r == (Bbox { xmin, ymin, width, height, confidence: 0, class: 0 }),
    {
        Bbox { xmin, ymin, width, height, confidence: 0, class: 0 }
    }

    pub fn new(xmin: i32, ymin: i32, width: u16, height: u16, confidence: u32, class: u8) -> (r:
        Bbox)
        ensures
            r == (Bbox { xmin, ymin, width, height, confidence, class }),
    {
        Bbox { xmin, ymin, width, height, confidence, class }
    }

    /// `[xmin, ymin, width, height]`.
    pub fn to_vec_i32(&self) -> (r: Vec<i32>)
        ensures
            r@ == seq![self.xmin, self.ymin, self.width as i32, self.height as i32],
    {
        let mut v: Vec<i32> = Vec::new();
        v.push(self.xmin);
        v.push(self.ymin);
        v.push(self.width as i32);
        v.push(self.height as i32);
        assert(v@ =~= seq![self.xmin, self.ymin, self.width as i32, self.height as i32]);
        v
    }

    pub fn width(&self) -> (r: u16)
        ensures
            r == self.width,
    {
        self.width
    }

    pub fn height(&self) -> (r: u16)
        ensures
            r == self.height,
    {
        self.height
    }

    pub fn xmin(&self) -> (r: i32)
        ensures
            r == self.xmin,
    {
        self.xmin
    }

    pub fn ymin(&self) -> (r: i32)
        ensures
            r == self.ymin,
    {
        self.ymin
    }

    pub fn xmax(&self) -> (r: i64)
        ensures
            r == self.right(),
    {
        self.xmin as i64 + self.width as i64
    }

    pub fn ymax(&self) -> (r: i64)
        ensures
            r == self.bottom(),
    {
        self.ymin as i64 + self.height as i64
    }

    pub fn tl(&self) -> (r: Point2f)
        ensures
            r.x == self.xmin,
            r.y == self.ymin,
    {
        Point2f::new(self.xmin as i64, self.ymin as i64)
    }

    pub fn br(&self) -> (r: Point2f)
        ensures
            r.x == self.right(),
            r.y == self.bottom(),
    {
        Point2f::new(self.xmax(), self.ymax())
    }

    /// The point at `scale_x` of the half-width and `scale_y` of the
    /// half-height from the top-left corner; an absent scale counts as one.
    pub fn cxcy_scale(&self, scale_x: Option<Ratio>, scale_y: Option<Ratio>) -> (r: Point2f)
        requires
            scale_x matches Some(s) ==> s.wf(),
            scale_y matches Some(s) ==> s.wf(),
            ({
                let sx = match scale_x {
                    Some(s) => s,
                    None => Ratio { num: 1, den: 1 },
                };
                let sy = match scale_y {
                    Some(s) => s,
                    None => Ratio { num: 1, den: 1 },
                };
                self.xmin + Self::half_scaled(self.width as int, sx) <= i64::MAX
                    && self.ymin + Self::half_scaled(self.height as int, sy) <= i64::MAX
            }),
        ensures
            r == self.center_spec(
                match scale_x {
                    Some(s) => s,
                    None => Ratio { num: 1, den: 1 },
                },
                match scale_y {
                    Some(s) => s,
                    None => Ratio { num: 1, den: 1 },
                },
            ),
    {
        let sx = match scale_x {
            Some(s) => s,
            None => Ratio { num: 1, den: 1 },
        };
        let sy = match scale_y {
            Some(s) => s,
            None => Ratio { num: 1, den: 1 },
        };
        let ox = half_scaled_exec(self.width, sx);
        let oy = half_scaled_exec(self.height, sy);
        Point2f::new(self.xmin as i64 + ox, self.ymin as i64 + oy)
    }

    pub fn cxcy(&self) -> (r: Point2f)
        ensures
            r == self.center_spec(Ratio { num: 1, den: 1 }, Ratio { num: 1, den: 1 }),
            r.x == self.xmin + self.width / 2,
            r.y == self.ymin + self.height / 2,
    {
        self.cxcy_scale(None, None)
    }

    pub fn confidence(&self) -> (r: u32)
        ensures
            r == self.confidence,
    {
        self.confidence
    }

    pub fn class(&self) -> (r: u8)
        ensures
            r == self.class,
    {
        self.class
    }

    pub fn area(&self) -> (r: u64)
        ensures
            r == self.area_spec(),
            r <= 0xfffe_0001,
    {
        proof {
            lemma_mul_bound(self.width as int, self.height as int, 0xffff, 0xffff);
        }
        self.width as u64 * self.height as u64
    }

    /// Pixels shared with `another`, edges counted inclusively.
    pub fn intersection_area(&self, another: &Bbox) -> (r: i128)
        ensures
            r == self.inter_spec(*another),
            0 <= r <= 0x100000000,
    {
        let w = span_exec(self.xmin as i64, self.xmax(), another.xmin as i64, another.xmax());
        let h = span_exec(self.ymin as i64, self.ymax(), another.ymin as i64, another.ymax());
        proof {
            lemma_mul_bound(w as int, h as int, 0x10000, 0x10000);
        }
        w as i128 * h as i128
    }

    pub fn union(&self, another: &Bbox) -> (r: i128)
        ensures
            r == self.union_spec(*another),
            -0x100000000 <= r <= 0x200000000,
    {
        let i = self.intersection_area(another);
        self.area() as i128 + another.area() as i128 - i
    }

    /// The overlap ratio as the pair (intersection, union).
    pub fn iou(&self, another: &Bbox) -> (r: (i128, i128))
        ensures
            r.0 == self.inter_spec(*another),
            r.1 == self.union_spec(*another),
            0 <= r.0 <= 0x100000000,
            -0x100000000 <= r.1 <= 0x200000000,
    {
        (self.intersection_area(another), self.union(another))
    }

    /// Whether the overlap ratio with `another` is defined and exceeds `t`.
    pub fn iou_exceeds(&self, another: &Bbox, t: Ratio) -> (r: bool)
        ensures
            r == self.iou_above(*another, t),
    {
        let (i, u) = self.iou(another);
        if u <= 0 {
            return false;
        }
        proof {
            lemma_mul_bound(i as int, t.den as int, 0x200000000, u32::MAX as int);
            lemma_mul_bound(t.num as int, u as int, u32::MAX as int, 0x200000000);
        }
        i * (t.den as i128) > (t.num as i128) * u
    }

    /// Whether the overlap ratio with `another` is defined and at least `t`.
    pub fn iou_reaches(&self, another: &Bbox, t: Ratio) -> (r: bool)
        ensures
            r == self.iou_at_least(*another, t),
    {
        let (i, u) = self.iou(another);
        if u <= 0 {
            return false;
        }
        proof {
            lemma_mul_bound(i as int, t.den as int, 0x200000000, u32::MAX as int);
            lemma_mul_bound(t.num as int, u as int, u32::MAX as int, 0x200000000);
        }
        i * (t.den as i128) >= (t.num as i128) * u
    }

    /// Clip to `[0, bound_width] x [0, bound_height]`: the top-left corner is
    /// clamped first, then the extent is cut so that the bottom-right corner
    /// stays inside.
    pub fn bound(&self, bound_width: u32, bound_height: u32) -> (r: Bbox)
        ensures
            r == self.bound_spec(bound_width as int, bound_height as int),
    {
        let x = clamp_exec(self.xmin, bound_width);
        let y = clamp_exec(self.ymin, bound_height);
        let right = min_i64(self.width as i64 + x as i64, bound_width as i64);
        let bottom = min_i64(self.height as i64 + y as i64, bound_height as i64);
        Bbox {
            xmin: x,
            ymin: y,
            width: (right - x as i64) as u16,
            height: (bottom - y as i64) as u16,
            confidence: self.confidence,
            class: self.class,
        }
    }
}

/// Clipping to a frame leaves the region inside that frame.
pub proof fn lemma_bound_within(b: Bbox, bound_width: u32, bound_height: u32)
    ensures
        b.bound_spec(bound_width as int, bound_height as int).within(
            bound_width as int,
            bound_height as int,
        ),
{
}

/// The overlap ratio does not depend on the order of its two regions.
pub proof fn lemma_iou_symmetric(a: Bbox, b: Bbox, t: Ratio)
    ensures
        a.inter_spec(b) == b.inter_spec(a),
        a.union_spec(b) == b.union_spec(a),
        a.iou_above(b, t) == b.iou_above(a, t),
        a.iou_at_least(b, t) == b.iou_at_least(a, t),
{
}

fn min_i64(a: i64, b: i64) -> (r: i64)
    ensures
        r == min_int(a as int, b as int),
{
    if a <= b {
        a
    } else {
        b
    }
}

fn clamp_exec(v: i32, hi: u32) -> (r: i32)
    ensures
        r == clamp(v as int, hi as int),
{
    if v < 0 {
        0
    } else if v as i64 > hi as i64 {
        hi as i32
    } else {
        v
    }
}

fn span_exec(lo_a: i64, hi_a: i64, lo_b: i64, hi_b: i64) -> (r: i64)
    requires
        -0x80000000 <= lo_a <= 0x80000000,
        -0x80000000 <= lo_b <= 0x80000000,
        0 <= hi_a - lo_a <= 0xffff,
        0 <= hi_b - lo_b <= 0xffff,
    ensures
        r == span(lo_a as int, hi_a as int, lo_b as int, hi_b as int),
        0 <= r <= 0x10000,
{
    let lo = if lo_a >= lo_b {
        lo_a
    } else {
        lo_b
    };
    let hi = if hi_a <= hi_b {
        hi_a
    } else {
        hi_b
    };
    let d = hi - lo + 1;
    if d > 0 {
        d
    } else {
        0
    }
}

fn half_scaled_exec(v: u16, s: Ratio) -> (r: i64)
    requires
        s.wf(),
    ensures
        r == Bbox::half_scaled(v as int, s),
        0 <= r <= v as int * s.num,
        r <= 0x7fff_ffff_ffff_ffff,
{
    proof {
        lemma_mul_bound(v as int, s.num as int, 0xffff, u32::MAX as int);
    }
    let p: u64 = v as u64 * s.num as u64;
    let q: u64 = 2 * (s.den as u64);
    let d: u64 = p / q;
    proof {
        assert(p as int == v as int * s.num);
        assert(q as int == 2 * s.den as int);
        assert(d as int == (v as int * s.num) / (2 * s.den as int));
        assert(d <= p / 2) by (nonlinear_arith)
            requires
                q >= 2,
                d == p / q,
        ;
    }
    d as i64
}

} // verus!
