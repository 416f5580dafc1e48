//! Texture categories and the directory each one lives in.

use vstd::prelude::*;

verus! {

/// The category of a texture, which decides the directory it is looked up in.
#[derive(Clone, Copy, Debug, PartialEq, Eq, Hash, Structural)]
pub enum TextureType {
    Diffuse,
    Emissive,
    WorldStencil,
    Mask,
    Metalness,
    Normal,
    Roughness,
    Shape,
    Specular,
    Stencil,
}

/// The directory name of a category. Diffuse and emissive textures share one
/// directory, and so do masks and world stencils.
pub open spec fn stem_of(typ: TextureType) -> Seq<char> {
    match typ {
        TextureType::Diffuse | TextureType::Emissive => "Colour"@,
        TextureType::WorldStencil | TextureType::Mask => "Mask"@,
        TextureType::Metalness => "Metal"@,
        TextureType::Normal => "Normal"@,
        TextureType::Roughness => "Roughness"@,
        TextureType::Shape => "Particle stencil"@,
        TextureType::Specular => "Specular"@,
        TextureType::Stencil => "Pulse stencil"@,
    }
}

impl TextureType {
    /// The name of the directory that holds textures of this category.
    pub fn path_name(&self) -> (stem: &'static str)
        ensures
            stem@ == stem_of(*self),
    {
        match *self {
            TextureType::Diffuse | TextureType::Emissive => "Colour",
            TextureType::WorldStencil | TextureType::Mask => "Mask",
            TextureType::Metalness => "Metal",
            TextureType::Normal => "Normal",
            TextureType::Roughness => "Roughness",
            TextureType::Shape => "Particle stencil",
            TextureType::Specular => "Specular",
            TextureType::Stencil => "Pulse stencil",
        }
    }
}

} // verus!
