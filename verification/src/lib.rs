//! The discrete core of a Monte Carlo ray tracer.
//!
//! Scene geometry is sampled with floating-point arithmetic by the caller;
//! everything this crate verifies is the discrete machinery around that
//! sampling: axis-aligned bounding boxes and their interval logic over
//! order-encoded coordinates, the bounding-volume-hierarchy construction,
//! nearest-hit selection, the material scatter protocol, the integrator's
//! case analysis, and the column-splitting, delivery-tracking and gap-fill
//! bookkeeping of the parallel renderer.
//!
//! Coordinates enter the crate as `u64` codes. The caller encodes each real
//! coordinate with a strictly monotone map, so that comparing two codes
//! compares the coordinates they stand for; the crate never does arithmetic
//! on a code, only comparisons, minima and maxima, which the encoding
//! preserves.

pub mod aabb;
pub mod buffer;
pub mod bvh;
pub mod color;
pub mod geometry;
pub mod hittable_list;
pub mod integrator;
pub mod materials;
pub mod ray;
pub mod rng;
pub mod scheduler;
pub mod texture;
