//! The accept/reject logic of the primitive intersections.
//!
//! The quadratic for the sphere and the plane solve for the rectangle are
//! floating-point work and stay with the caller; what is decided here is
//! which of the candidate parameters, as coordinate codes, counts as a hit.

use vstd::prelude::*;

use crate::ray::Coord;

verus! {

/// Root selection of the sphere intersection: of the two quadratic roots the
/// smaller is taken when it lies strictly inside the query interval, else
/// the larger under the same test, else there is no hit.
pub open spec fn sphere_root_spec(
    t_small: Coord,
    t_large: Coord,
    t_min: Coord,
    t_max: Coord,
) -> Option<Coord> {
    if t_min < t_small && t_small < t_max {
        Some(t_small)
    } else if t_min < t_large && t_large < t_max {
        Some(t_large)
    } else {
        None
    }
}

/// Pick the sphere root that counts as the hit, if any.
pub fn sphere_root_in_range(t_small: Coord, t_large: Coord, t_min: Coord, t_max: Coord) -> (r:
    Option<Coord>)
    ensures
        r == sphere_root_spec(t_small, t_large, t_min, t_max),
        r matches Some(t) ==> t_min < t < t_max,
{
    if t_small < t_max && t_small > t_min {
        Some(t_small)
    } else if t_large < t_max && t_large > t_min {
        Some(t_large)
    } else {
        None
    }
}

/// The rectangle intersection's test: the plane parameter must lie in the
/// query interval, and the two in-plane coordinates inside the rectangle's
/// ranges; rejection is strict, so the rectangle's edges still count as hits.
pub fn rect_hit(
    t: Coord,
    t_min: Coord,
    t_max: Coord,
    a: Coord,
    a0: Coord,
    a1: Coord,
    b: Coord,
    b0: Coord,
    b1: Coord,
) -> (r: bool)
    ensures
        r == (t_min <= t <= t_max && a0 <= a <= a1 && b0 <= b <= b1),
{
    if t < t_min || t > t_max {
        return false;
    }
    if a < a0 || a > a1 || b < b0 || b > b1 {
        return false;
    }
    true
}

} // verus!
