//! Material kinds referenced by leaf payloads. The GPU shading pass looks a
//! material up by the integer code stored in the material table.

use vstd::prelude::*;

verus! {

/// The kinds of surface a leaf voxel can be shaded as.
#[derive(Clone, Copy, PartialEq, Eq, Structural, Debug)]
pub enum Material {
    Lambertian,
    Metal,
    Dielectric,
}

impl Material {
    /// The integer code this material is stored as in the GPU material table.
    pub fn code(&self) -> (r: u32)
        ensures
            r == match self {
                Material::Lambertian => 0u32,
                Material::Metal => 1u32,
                Material::Dielectric => 2u32,
            },
    {
        match self {
            Material::Lambertian => 0,
            Material::Metal => 1,
            Material::Dielectric => 2,
        }
    }
}

} // verus!
