//! Axis-aligned bounding boxes: box union and the slab test's interval logic.
//!
//! The caller evaluates the per-axis entry and exit parameters of a ray with
//! floating-point division and hands them over as coordinate codes; the box
//! union and the interval narrowing themselves use only comparisons, which
//! the code order preserves.

use vstd::prelude::*;

use crate::ray::Coord;
use crate::ray::Vec3;

verus! {

/// The smaller of two coordinate codes.
pub open spec fn coord_min(a: Coord, b: Coord) -> Coord {
    if a <= b {
        a
    } else {
        b
    }
}

/// The larger of two coordinate codes.
pub open spec fn coord_max(a: Coord, b: Coord) -> Coord {
    if a >= b {
        a
    } else {
        b
    }
}

/// An axis-aligned bounding box, given by its two corners.
#[derive(Clone, Copy, PartialEq, Eq, Structural, Debug)]
pub struct Aabb {
    pub min: Vec3,
    pub max: Vec3,
}

/// The box with the componentwise smallest corners of the two minima and the
/// componentwise largest corners of the two maxima.
pub open spec fn surround_spec(a: Aabb, b: Aabb) -> Aabb {
    Aabb {
        min: Vec3 {
            x: coord_min(a.min.x, b.min.x),
            y: coord_min(a.min.y, b.min.y),
            z: coord_min(a.min.z, b.min.z),
        },
        max: Vec3 {
            x: coord_max(a.max.x, b.max.x),
            y: coord_max(a.max.y, b.max.y),
            z: coord_max(a.max.z, b.max.z),
        },
    }
}

impl Aabb {
    /// The corners are ordered: no axis has its minimum above its maximum.
    pub open spec fn valid(self) -> bool {
        self.min.x <= self.max.x && self.min.y <= self.max.y && self.min.z <= self.max.z
    }

    /// `other` lies inside `self`, componentwise.
    pub open spec fn contains_box(self, other: Aabb) -> bool {
        &&& self.min.x <= other.min.x
        &&& self.min.y <= other.min.y
        &&& self.min.z <= other.min.z
        &&& other.max.x <= self.max.x
        &&& other.max.y <= self.max.y
        &&& other.max.z <= self.max.z
    }

    /// The zero-corner placeholder box.
    pub open spec fn blank_spec() -> Aabb {
        Aabb {
            min: Vec3 { x: 0, y: 0, z: 0 },
            max: Vec3 { x: 0, y: 0, z: 0 },
        }
    }

    pub fn new(min: Vec3, max: Vec3) -> (b: Aabb)
        ensures
            b == (Aabb { min, max }),
    {
        Aabb { min, max }
    }

    /// The zero-corner placeholder box.
    pub fn blank() -> (b: Aabb)
        ensures
            b == Aabb::blank_spec(),
    {
        Aabb { min: Vec3 { x: 0, y: 0, z: 0 }, max: Vec3 { x: 0, y: 0, z: 0 } }
    }

    /// The union step of the hierarchy: componentwise minimum of the minima,
    /// componentwise maximum of the maxima.
    pub fn surrounding_box(box0: Aabb, box1: Aabb) -> (b: Aabb)
        ensures
            b == surround_spec(box0, box1),
    {
        Aabb {
            min: Vec3 {
                x: if box0.min.x <= box1.min.x { box0.min.x } else { box1.min.x },
                y: if box0.min.y <= box1.min.y { box0.min.y } else { box1.min.y },
                z: if box0.min.z <= box1.min.z { box0.min.z } else { box1.min.z },
            },
            max: Vec3 {
                x: if box0.max.x >= box1.max.x { box0.max.x } else { box1.max.x },
                y: if box0.max.y >= box1.max.y { box0.max.y } else { box1.max.y },
                z: if box0.max.z >= box1.max.z { box0.max.z } else { box1.max.z },
            },
        }
    }
}

/// Law: the surrounding box has the true componentwise extrema of its two
/// arguments — it contains both, and any box containing both contains it.
pub proof fn lemma_surrounding_box_extrema(a: Aabb, b: Aabb)
    ensures
        surround_spec(a, b).contains_box(a),
        surround_spec(a, b).contains_box(b),
        forall|c: Aabb| c.contains_box(a) && c.contains_box(b) ==> c.contains_box(
            surround_spec(a, b),
        ),
        a.valid() && b.valid() ==> surround_spec(a, b).valid(),
{
}

/// One axis of the slab test, entry and exit already oriented by the caller:
/// narrow the working interval to `[max(tmin, t0), min(tmax, t1)]` and report
/// it, or report nothing when it has emptied.
pub open spec fn narrow_spec(tmin: Coord, tmax: Coord, t0: Coord, t1: Coord) -> Option<
    (Coord, Coord),
> {
    let lo = coord_max(tmin, t0);
    let hi = coord_min(tmax, t1);
    if hi <= lo {
        None
    } else {
        Some((lo, hi))
    }
}

/// The whole slab test over the three axes: the ray's parameter interval,
/// narrowed axis by axis, stays non-empty. `t0` and `t1` hold the per-axis
/// entry and exit parameters as the caller computed them from the ray;
/// `neg_x`, `neg_y`, `neg_z` say on which axes the ray runs backwards, where
/// entry and exit trade places.
pub open spec fn slab_hit_spec(
    tmin: Coord,
    tmax: Coord,
    t0: Vec3,
    t1: Vec3,
    neg_x: bool,
    neg_y: bool,
    neg_z: bool,
) -> bool {
    let x0 = if neg_x { t1.x } else { t0.x };
    let x1 = if neg_x { t0.x } else { t1.x };
    match narrow_spec(tmin, tmax, x0, x1) {
        None => false,
        Some((lo_x, hi_x)) => {
            let y0 = if neg_y { t1.y } else { t0.y };
            let y1 = if neg_y { t0.y } else { t1.y };
            match narrow_spec(lo_x, hi_x, y0, y1) {
                None => false,
                Some((lo_y, hi_y)) => {
                    let z0 = if neg_z { t1.z } else { t0.z };
                    let z1 = if neg_z { t0.z } else { t1.z };
                    narrow_spec(lo_y, hi_y, z0, z1) is Some
                },
            }
        },
    }
}

/// One axis of the slab test.
pub fn slab_narrow(tmin: Coord, tmax: Coord, t0: Coord, t1: Coord, neg: bool) -> (r: Option<
    (Coord, Coord),
>)
    ensures
        r == narrow_spec(tmin, tmax, if neg { t1 } else { t0 }, if neg { t0 } else { t1 }),
{
    let entry: Coord = if neg { t1 } else { t0 };
    let exit: Coord = if neg { t0 } else { t1 };
    let lo: Coord = if entry > tmin { entry } else { tmin };
    let hi: Coord = if exit < tmax { exit } else { tmax };
    if hi <= lo {
        None
    } else {
        Some((lo, hi))
    }
}

/// The slab test of a box against a ray, on the caller's per-axis entry and
/// exit parameters.
pub fn slab_hit(
    tmin: Coord,
    tmax: Coord,
    t0: Vec3,
    t1: Vec3,
    neg_x: bool,
    neg_y: bool,
    neg_z: bool,
) -> (r: bool)
    ensures
        r == slab_hit_spec(tmin, tmax, t0, t1, neg_x, neg_y, neg_z),
{
    match slab_narrow(tmin, tmax, t0.x, t1.x, neg_x) {
        None => false,
        Some((lo_x, hi_x)) => match slab_narrow(lo_x, hi_x, t0.y, t1.y, neg_y) {
            None => false,
            Some((lo_y, hi_y)) => match slab_narrow(lo_y, hi_y, t0.z, t1.z, neg_z) {
                None => false,
                Some(_) => true,
            },
        },
    }
}

/// Whether `a`'s minimum corner lies strictly below `b`'s along `axis` — the
/// comparator the hierarchy sorts by.
pub fn box_compare(a: &Aabb, b: &Aabb, axis: usize) -> (r: bool)
    requires
        axis < 3,
    ensures
        r == (a.min.axis_spec(axis as int) < b.min.axis_spec(axis as int)),
{
    a.min.axis(axis) < b.min.axis(axis)
}

} // verus!
