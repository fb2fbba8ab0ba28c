//! The case analysis of the recursive radiance estimator.
//!
//! The estimator itself recurses with the caller, who owns the sampling;
//! each level resolves to one of four cases, fixed here.

use vstd::prelude::*;

verus! {

/// What one level of the estimator contributes.
#[derive(Clone, Copy, PartialEq, Eq, Structural, Debug)]
pub enum RadianceStep {
    /// The recursion budget is spent: black.
    Cutoff,
    /// Nothing was hit: the background color.
    Miss,
    /// A hit whose material declined to scatter: the emitted color alone.
    EmitOnly,
    /// A hit that scattered: the emitted color plus the attenuated radiance
    /// of the scattered ray, one level deeper.
    Bounce,
}

/// The integrator's case for a level: cutoff at exhausted depth, the
/// background on a miss, emission alone when the material declines, and a
/// bounce otherwise.
pub open spec fn radiance_step_spec(depth: i32, hit: bool, scattered: bool) -> RadianceStep {
    if depth <= 0 {
        RadianceStep::Cutoff
    } else if !hit {
        RadianceStep::Miss
    } else if !scattered {
        RadianceStep::EmitOnly
    } else {
        RadianceStep::Bounce
    }
}

/// Resolve one level of the estimator.
pub fn radiance_step(depth: i32, hit: bool, scattered: bool) -> (s: RadianceStep)
    ensures
        s == radiance_step_spec(depth, hit, scattered),
{
    if depth <= 0 {
        RadianceStep::Cutoff
    } else if !hit {
        RadianceStep::Miss
    } else if !scattered {
        RadianceStep::EmitOnly
    } else {
        RadianceStep::Bounce
    }
}

} // verus!
