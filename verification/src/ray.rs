//! Rays and the coordinate codes they are made of.

use vstd::prelude::*;

verus! {

/// One real coordinate, as the caller's order-preserving `u64` code.
///
/// The caller fixes a strictly monotone encoding of the coordinates it works
/// with; the crate relies only on the order of the codes.
pub type Coord = u64;

/// A 3-component value, one coordinate code per axis.
#[derive(Clone, Copy, PartialEq, Eq, Structural, Debug)]
pub struct Vec3 {
    pub x: Coord,
    pub y: Coord,
    pub z: Coord,
}

impl Vec3 {
    /// The component along `axis`, with the axes numbered x, y, z.
    pub open spec fn axis_spec(self, axis: int) -> Coord {
        if axis == 0 {
            self.x
        } else if axis == 1 {
            self.y
        } else {
            self.z
        }
    }

    pub fn new(x: Coord, y: Coord, z: Coord) -> (v: Vec3)
        ensures
            v == (Vec3 { x, y, z }),
    {
        Vec3 { x, y, z }
    }

    /// The component along `axis`, with the axes numbered x, y, z.
    pub fn axis(&self, axis: usize) -> (c: Coord)
        requires
            axis < 3,
        ensures
            c == self.axis_spec(axis as int),
    {
        if axis == 0 {
            self.x
        } else if axis == 1 {
            self.y
        } else {
            self.z
        }
    }
}

/// A ray: an origin and a direction. Evaluating the ray at a parameter is
/// floating-point work and stays with the caller; the crate keeps the pair.
#[derive(Clone, Copy, PartialEq, Eq, Structural, Debug)]
pub struct Ray {
    orig: Vec3,
    dir: Vec3,
}

impl Ray {
    pub closed spec fn origin_spec(self) -> Vec3 {
        self.orig
    }

    pub closed spec fn direction_spec(self) -> Vec3 {
        self.dir
    }

    pub fn new(origin: Vec3, direction: Vec3) -> (r: Ray)
        ensures
            r.origin_spec() == origin,
            r.direction_spec() == direction,
    {
        Ray { orig: origin, dir: direction }
    }

    pub fn origin(&self) -> (v: Vec3)
        ensures
            v == self.origin_spec(),
    {
        self.orig
    }

    pub fn direction(&self) -> (v: Vec3)
        ensures
            v == self.direction_spec(),
    {
        self.dir
    }
}

} // verus!
