//! The closed set of surface materials, and which of them send light on.

use vstd::prelude::*;

verus! {

/// What a surface is made of. The numbers that go with a material (its
/// colour, a metal's fuzz, a dielectric's refractive index) are no part of its
/// kind.
#[derive(Debug, Clone, Copy, PartialEq, Eq, Structural)]
pub enum MaterialKind {
    /// A matte surface.
    Lambertian,
    /// A mirror, blurred by its fuzz.
    Metal,
    /// A transparent medium such as glass.
    Dielectric,
    /// A surface that gives off light.
    DiffuseLight,
}

impl MaterialKind {
    /// Tells whether surfaces of this kind give off light of their own.
    pub open spec fn is_emissive(self) -> bool {
        self == MaterialKind::DiffuseLight
    }

    /// Tells whether a surface of this kind sends a ray on. Matte and
    /// transparent surfaces always do and lights never do. A metal does if
    /// the ray it reflects leaves the surface, which is what `outward` says;
    /// the other kinds do not look at it.
    pub open spec fn scatters_when(self, outward: bool) -> bool {
        match self {
            MaterialKind::Lambertian => true,
            MaterialKind::Metal => outward,
            MaterialKind::Dielectric => true,
            MaterialKind::DiffuseLight => false,
        }
    }

    /// Tells whether the kind emits light.
    pub fn emits(&self) -> (b: bool)
        ensures
            b == self.is_emissive(),
    {
        match self {
            MaterialKind::DiffuseLight => true,
            _ => false,
        }
    }

    /// Decides whether a surface of this kind sends a ray on, given whether
    /// the ray it would send leaves the surface.
    pub fn scatters(&self, outward: bool) -> (b: bool)
        ensures
            b == self.scatters_when(outward),
    {
        match self {
            MaterialKind::Lambertian => true,
            MaterialKind::Metal => outward,
            MaterialKind::Dielectric => true,
            MaterialKind::DiffuseLight => false,
        }
    }
}

/// Emitting and scattering exclude each other: what gives off light sends
/// no ray on, and every other kind sends one on whenever it leaves the
/// surface.
pub proof fn lemma_lights_end_paths(kind: MaterialKind, outward: bool)
    ensures
        kind.is_emissive() ==> !kind.scatters_when(outward),
        !kind.is_emissive() ==> kind.scatters_when(true),
{
}

} // verus!
