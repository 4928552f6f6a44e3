use vstd::prelude::*;

verus! {

/// The five surface behaviours a material can have.
#[derive(PartialEq, Eq, Structural, Clone, Copy, Debug)]
pub enum MaterialKind {
    /// Lambertian surface that also emits light of its own.
    Emission,
    /// Lambertian surface with a two-exponent specular highlight.
    Diffuse,
    /// Mirror-like reflector, blurred by a fuzz factor.
    Metal,
    /// Dielectric that refracts or reflects.
    Glass,
    /// Sphere that teleports rays passing through it, with an opaque rim.
    Portal,
}

impl MaterialKind {
    /// Point lights shine directly on Diffuse and Emission surfaces only; the
    /// specular-only kinds receive light by scattering alone.
    pub open spec fn receives_direct_light_spec(self) -> bool {
        self is Diffuse || self is Emission
    }

    /// Only Emission surfaces add light of their own.
    pub open spec fn emits_spec(self) -> bool {
        self is Emission
    }

    pub fn receives_direct_light(&self) -> (r: bool)
        ensures
            r == self.receives_direct_light_spec(),
    {
        match self {
            MaterialKind::Diffuse | MaterialKind::Emission => true,
            MaterialKind::Metal | MaterialKind::Glass | MaterialKind::Portal => false,
        }
    }

    pub fn emits(&self) -> (r: bool)
        ensures
            r == self.emits_spec(),
    {
        match self {
            MaterialKind::Emission => true,
            _ => false,
        }
    }
}

/// Which terms make up the radiance returned from one ray hit.
#[derive(PartialEq, Eq, Structural, Clone, Copy, Debug)]
pub struct ShadingPlan {
    /// Sum the unoccluded point lights' contributions at the hit.
    pub direct: bool,
    /// Ask the material to scatter, and if it does, trace the new ray with
    /// `next_depth` bounces left; the indirect light is that ray's radiance
    /// times the material's attenuation, and nothing else (a specular
    /// highlight belongs to direct light only).
    pub scatter: bool,
    /// Bounces left for the scattered ray.
    pub next_depth: u8,
    /// Add the material's emission, whether or not a ray was scattered.
    pub emission: bool,
}

/// The terms of the radiance at a hit on a surface of kind `kind` when
/// `depth` bounces remain: direct light for the kinds that receive it, a
/// scattered ray only while bounces remain (so every path ends after at
/// most `depth` more bounces), and emission for emitting surfaces even at
/// depth zero.
pub fn plan_shading(kind: MaterialKind, depth: u8) -> (r: ShadingPlan)
    ensures
        r.direct == kind.receives_direct_light_spec(),
        r.scatter == (depth > 0),
        r.scatter ==> r.next_depth == depth - 1,
        !r.scatter ==> r.next_depth == 0,
        r.emission == kind.emits_spec(),
{
    let scatter = depth > 0;
    let next_depth: u8 = if scatter { depth - 1 } else { 0 };
    ShadingPlan {
        direct: kind.receives_direct_light(),
        scatter,
        next_depth,
        emission: kind.emits(),
    }
}

} // verus!
