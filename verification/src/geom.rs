//! Two-dimensional fixed-point geometry: vectors, rectangles, transforms,
//! and the scaled arithmetic the simulation is built on.
//!
//! Every coordinate is an `i64` holding thousandths of a world unit, and
//! every coefficient (friction, bounciness, time factor) is an `i64` holding
//! thousandths of the fraction one. Contracts speak about the unbounded
//! mathematical views [`SpecVec2`] and [`SpecRect`].

use vstd::prelude::*;

verus! {

/// Fixed-point scale: this many sub-units make one world unit, and a
/// coefficient of this value is the fraction one.
pub const FP_ONE: i64 = 1000;

/// Largest coordinate magnitude the simulation accepts.
pub const MAX_COORD: i64 = 1_000_000_000_000;

/// Largest velocity-component magnitude the simulation accepts.
pub const MAX_VEL: i64 = 1_000_000_000;

/// Largest shape dimension (width, height, radius) the simulation accepts.
pub const MAX_DIM: i64 = 1_000_000;

/// Largest coefficient magnitude `scale_by_frac` accepts.
pub const MAX_FRAC: i64 = 1_000_000;

/// Largest single-move distance the world accepts, in thousandths of a unit.
pub const MAX_MOVE: i64 = 16_000_000_000;

/// Scaling a value by a fixed-point fraction: the product divided by
/// [`FP_ONE`], rounded toward zero.
pub open spec fn spec_scale(v: int, f: int) -> int {
    if v * f >= 0 {
        (v * f) / (FP_ONE as int)
    } else {
        -((-(v * f)) / (FP_ONE as int))
    }
}

/// Scale `v` by the fixed-point fraction `f` (thousandths), rounding toward
/// zero.
pub fn scale_by_frac(v: i64, f: i64) -> (r: i64)
    requires
        -MAX_COORD <= v <= MAX_COORD,
        -MAX_FRAC <= f <= MAX_FRAC,
    ensures
        r == spec_scale(v as int, f as int),
{
    let vm: u64 = if v >= 0 {
        v as u64
    } else {
        (-v) as u64
    };
    let fm: u64 = if f >= 0 {
        f as u64
    } else {
        (-f) as u64
    };
    proof {
        assert(vm * fm <= MAX_COORD * MAX_FRAC) by (nonlinear_arith)
            requires
                vm <= MAX_COORD,
                fm <= MAX_FRAC,
        ;
        assert(vm * fm == if v * f >= 0 { v * f } else { -(v * f) }) by (nonlinear_arith)
            requires
                vm == (if v >= 0 { v as int } else { -(v as int) }),
                fm == (if f >= 0 { f as int } else { -(f as int) }),
        ;
    }
    let q: u64 = (vm * fm) / (FP_ONE as u64);
    proof {
        vstd::arithmetic::div_mod::lemma_div_is_ordered(
            (vm * fm) as int,
            MAX_COORD * MAX_FRAC,
            FP_ONE as int,
        );
    }
    let neg: bool = (v < 0) != (f < 0);
    proof {
        if (v < 0) == (f < 0) {
            assert(v * f >= 0) by (nonlinear_arith)
                requires
                    (v < 0) == (f < 0),
            ;
        } else {
            assert(v * f <= 0) by (nonlinear_arith)
                requires
                    (v < 0) != (f < 0),
            ;
        }
    }
    if neg && q != 0 {
        -(q as i64)
    } else {
        q as i64
    }
}

/// Scaling by the fraction zero, or scaling the value zero, gives zero, and
/// scaling by the fraction one gives the value back.
pub proof fn lemma_scale_trivial(v: int, f: int)
    ensures
        spec_scale(v, 0) == 0,
        spec_scale(0, f) == 0,
        spec_scale(v, FP_ONE as int) == v,
{
    assert(spec_scale(v, 0) == 0) by (nonlinear_arith);
    assert(spec_scale(0, f) == 0) by (nonlinear_arith);
    assert(spec_scale(v, FP_ONE as int) == v) by (nonlinear_arith);
}

/// Scaling a value by a fraction of at most one does not grow its magnitude.
pub proof fn lemma_scale_bounded(v: int, f: int)
    requires
        0 <= f <= FP_ONE as int,
    ensures
        v >= 0 ==> 0 <= spec_scale(v, f) <= v,
        v < 0 ==> v <= spec_scale(v, f) <= 0,
{
    assert(v >= 0 ==> 0 <= spec_scale(v, f) <= v) by (nonlinear_arith)
        requires
            0 <= f <= 1000,
    ;
    assert(v < 0 ==> v <= spec_scale(v, f) <= 0) by (nonlinear_arith)
        requires
            0 <= f <= 1000,
    ;
}

/// Divide rounding toward negative infinity (matching the mathematical
/// integer division for a positive divisor).
pub fn floor_div(a: i64, b: i64) -> (r: i64)
    requires
        0 < b,
        -4 * MAX_COORD <= a <= 4 * MAX_COORD,
    ensures
        r == a as int / b as int,
{
    if a >= 0 {
        ((a as u64) / (b as u64)) as i64
    } else {
        let m: u64 = (-a) as u64;
        let bu: u64 = b as u64;
        let q: u64 = m / bu;
        let rem: u64 = m % bu;
        proof {
            vstd::arithmetic::div_mod::lemma_fundamental_div_mod(m as int, bu as int);
            vstd::arithmetic::div_mod::lemma_div_nonincreasing(m as int, bu as int);
        }
        if rem == 0 {
            proof {
                assert(a as int == (-(q as int)) * (b as int) + 0) by (nonlinear_arith)
                    requires
                        m == bu * q,
                        a as int == -(m as int),
                        b == bu,
                ;
                vstd::arithmetic::div_mod::lemma_fundamental_div_mod_converse(
                    a as int,
                    b as int,
                    -(q as int),
                    0,
                );
            }
            -(q as i64)
        } else {
            proof {
                assert(a as int == (-(q as int) - 1) * (b as int) + (b as int - rem as int))
                    by (nonlinear_arith)
                    requires
                        m == bu * q + rem,
                        a as int == -(m as int),
                        b == bu,
                ;
                vstd::arithmetic::div_mod::lemma_fundamental_div_mod_converse(
                    a as int,
                    b as int,
                    -(q as int) - 1,
                    b - rem,
                );
            }
            -(q as i64) - 1
        }
    }
}

/// The non-negative remainder of `a` modulo the positive divisor `b`.
pub fn mod_euclid(a: i64, b: i64) -> (r: i64)
    requires
        0 < b <= MAX_COORD,
        -4 * MAX_COORD <= a <= 4 * MAX_COORD,
    ensures
        r == a as int % b as int,
        0 <= r < b,
{
    let q: i64 = floor_div(a, b);
    proof {
        vstd::arithmetic::div_mod::lemma_fundamental_div_mod(a as int, b as int);
        vstd::arithmetic::div_mod::lemma_mod_division_less_than_divisor(a as int, b as int);
        assert(q * b == (a as int / b as int) * (b as int)) by (nonlinear_arith)
            requires
                q == a as int / b as int,
        ;
        assert((a as int / b as int) * (b as int) == (b as int) * (a as int / b as int))
            by (nonlinear_arith);
    }
    a - q * b
}

/// Scaling an in-range velocity by any in-range coefficient stays within the
/// coordinate range.
pub proof fn lemma_scale_magnitude(v: int, f: int)
    requires
        -MAX_VEL <= v <= MAX_VEL,
        -MAX_FRAC <= f <= MAX_FRAC,
    ensures
        -MAX_COORD <= spec_scale(v, f) <= MAX_COORD,
{
    let p = v * f;
    assert(-1_000_000_000_000_000 <= v * f <= 1_000_000_000_000_000) by (nonlinear_arith)
        requires
            -1_000_000_000 <= v <= 1_000_000_000,
            -1_000_000 <= f <= 1_000_000,
    ;
    if p >= 0 {
        vstd::arithmetic::div_mod::lemma_div_pos_is_pos(p, FP_ONE as int);
        vstd::arithmetic::div_mod::lemma_div_is_ordered(p, 1_000_000_000_000_000, FP_ONE as int);
    } else {
        vstd::arithmetic::div_mod::lemma_div_pos_is_pos(-p, FP_ONE as int);
        vstd::arithmetic::div_mod::lemma_div_is_ordered(-p, 1_000_000_000_000_000, FP_ONE as int);
    }
}

/// The mathematical value of a [`Vec2`]: a pair of unbounded integers.
pub struct SpecVec2 {
    pub x: int,
    pub y: int,
}

impl SpecVec2 {
    pub open spec fn in_coord_range(self) -> bool {
        &&& -MAX_COORD <= self.x <= MAX_COORD
        &&& -MAX_COORD <= self.y <= MAX_COORD
    }

    /// The looser range positions may reach during one tick: the base
    /// coordinate range plus the slack of a de-penetration pass and up to
    /// three maximal moves.
    pub open spec fn in_move_range(self) -> bool {
        &&& -(MAX_COORD as int) - 3 * (MAX_MOVE as int) <= self.x <= MAX_COORD as int + 3 * (
        MAX_MOVE as int)
        &&& -(MAX_COORD as int) - 3 * (MAX_MOVE as int) <= self.y <= MAX_COORD as int + 3 * (
        MAX_MOVE as int)
    }

    pub open spec fn in_vel_range(self) -> bool {
        &&& -MAX_VEL <= self.x <= MAX_VEL
        &&& -MAX_VEL <= self.y <= MAX_VEL
    }
}

/// A two-dimensional fixed-point vector.
#[derive(Clone, Copy, Debug, PartialEq, Eq, Structural)]
pub struct Vec2 {
    pub x: i64,
    pub y: i64,
}

impl View for Vec2 {
    type V = SpecVec2;

    open spec fn view(&self) -> SpecVec2 {
        SpecVec2 { x: self.x as int, y: self.y as int }
    }
}

impl Vec2 {
    pub fn new(x: i64, y: i64) -> (r: Vec2)
        ensures
            r == (Vec2 { x, y }),
    {
        Vec2 { x, y }
    }

    /// The zero vector.
    pub fn zero() -> (r: Vec2)
        ensures
            r == (Vec2 { x: 0, y: 0 }),
    {
        Vec2 { x: 0, y: 0 }
    }
}

/// The mathematical value of a [`Rect`].
pub struct SpecRect {
    pub min: SpecVec2,
    pub max: SpecVec2,
}

impl SpecRect {
    /// Two rectangles overlap when their closed extents intersect on both
    /// axes; rectangles that merely touch along an edge count as overlapping.
    pub open spec fn overlaps(self, other: SpecRect) -> bool {
        &&& self.min.x <= other.max.x
        &&& self.max.x >= other.min.x
        &&& self.min.y <= other.max.y
        &&& self.max.y >= other.min.y
    }
}

/// An axis-aligned rectangle given by its lower-left and upper-right corners.
#[derive(Clone, Copy, Debug, PartialEq, Eq, Structural)]
pub struct Rect {
    pub min: Vec2,
    pub max: Vec2,
}

impl View for Rect {
    type V = SpecRect;

    open spec fn view(&self) -> SpecRect {
        SpecRect { min: self.min@, max: self.max@ }
    }
}

impl Rect {
    /// The rectangle of the given width and height centred at `(x, y)`
    /// (the centre is rounded down to the fixed-point grid).
    pub fn new(x: i64, y: i64, width: i64, height: i64) -> (r: Rect)
        requires
            -MAX_COORD <= x <= MAX_COORD,
            -MAX_COORD <= y <= MAX_COORD,
            0 <= width <= MAX_DIM,
            0 <= height <= MAX_DIM,
        ensures
            r@.min.x == x - width / 2,
            r@.min.y == y - height / 2,
            r@.max.x == r@.min.x + width,
            r@.max.y == r@.min.y + height,
    {
        let half_w: i64 = width / 2;
        let half_h: i64 = height / 2;
        let min = Vec2 { x: x - half_w, y: y - half_h };
        Rect { min, max: Vec2 { x: min.x + width, y: min.y + height } }
    }

    /// Report whether this rectangle overlaps `other`.
    pub fn overlaps(&self, other: &Rect) -> (r: bool)
        ensures
            r == self@.overlaps(other@),
    {
        self.min.x <= other.max.x && self.max.x >= other.min.x && self.min.y <= other.max.y
            && self.max.y >= other.min.y
    }
}

/// A body's placement: position and rotation. The rotation is an angle in
/// thousandths of a degree, kept in `[0, 360000)`.
#[derive(Clone, Copy, Debug, PartialEq, Eq, Structural)]
pub struct Transform {
    pub position: Vec2,
    pub rotation: i64,
}

impl Transform {
    pub open spec fn wf(self) -> bool {
        &&& self.position@.in_coord_range()
        &&& 0 <= self.rotation < 360_000
    }

    pub fn from_position(position: Vec2) -> (r: Transform)
        ensures
            r.position == position,
            r.rotation == 0,
    {
        Transform { position, rotation: 0 }
    }
}

} // verus!
