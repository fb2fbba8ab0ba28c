//! The scatter protocol of the four materials.
//!
//! Directions, attenuations and the Schlick reflectance are floating-point
//! work and stay with the caller; what is fixed here is the decision each
//! material makes with the outcome of that work in hand.

use vstd::prelude::*;

verus! {

/// The four kinds of material the integrator meets.
#[derive(Clone, Copy, PartialEq, Eq, Structural, Debug)]
pub enum MaterialKind {
    Lambertian,
    Metal,
    Dielectric,
    DiffuseLight,
}

/// Whether a material of kind `m` scatters at a hit.
/// `reflection_leaves_surface` is the metal's test: whether the
/// fuzz-perturbed reflected direction has positive dot product with the
/// surface normal. The diffuse material always scatters, the dielectric
/// always scatters (it reflects or refracts, never absorbs), and the light
/// never scatters.
pub open spec fn scatters_spec(m: MaterialKind, reflection_leaves_surface: bool) -> bool {
    match m {
        MaterialKind::Lambertian => true,
        MaterialKind::Metal => reflection_leaves_surface,
        MaterialKind::Dielectric => true,
        MaterialKind::DiffuseLight => false,
    }
}

/// The scatter decision of the material protocol.
pub fn scatters(m: MaterialKind, reflection_leaves_surface: bool) -> (r: bool)
    ensures
        r == scatters_spec(m, reflection_leaves_surface),
{
    match m {
        MaterialKind::Lambertian => true,
        MaterialKind::Metal => reflection_leaves_surface,
        MaterialKind::Dielectric => true,
        MaterialKind::DiffuseLight => false,
    }
}

/// Law: the metal reports a scatter exactly when the perturbed reflection
/// leaves the surface; a grazing reflection turned inward is absorbed.
pub proof fn lemma_metal_absorbs_grazing(reflection_leaves_surface: bool)
    ensures
        scatters_spec(MaterialKind::Metal, reflection_leaves_surface)
            == reflection_leaves_surface,
{
}

/// Law: the dielectric always scatters, whatever the incidence angle or the
/// refractive index ratio led to.
pub proof fn lemma_dielectric_always_scatters(reflection_leaves_surface: bool)
    ensures
        scatters_spec(MaterialKind::Dielectric, reflection_leaves_surface),
{
}

/// What the dielectric does with the ray it scatters.
#[derive(Clone, Copy, PartialEq, Eq, Structural, Debug)]
pub enum DielectricChoice {
    Reflect,
    Refract,
}

/// The dielectric's branch: reflect when Snell's law admits no refraction
/// (total internal reflection) or the uniform sample fell under the Schlick
/// reflectance, refract otherwise. Both branches scatter.
pub fn dielectric_choice(total_internal_reflection: bool, sample_under_reflectance: bool) -> (c:
    DielectricChoice)
    ensures
        c == (if total_internal_reflection || sample_under_reflectance {
            DielectricChoice::Reflect
        } else {
            DielectricChoice::Refract
        }),
{
    if total_internal_reflection || sample_under_reflectance {
        DielectricChoice::Reflect
    } else {
        DielectricChoice::Refract
    }
}

} // verus!
