//! How much detail a conversion is asked for.

use vstd::prelude::*;

verus! {

/// How text is carried over.
#[derive(Clone, Copy, Debug, PartialEq, Eq, Structural)]
pub enum TextMode {
    /// As text, set in the fonts that the viewer has.
    Native,
    /// As meshes of the glyphs, which is costly.
    Meshed {
        /// Whether invisible text that can be selected goes along.
        copyable: bool,
    },
}

/// How meshes are carried over.
#[derive(Clone, Copy, Debug, PartialEq, Eq, Structural)]
pub enum MeshMode {
    /// Opaque meshes without texture, approximately.
    Basic,
    /// With their textures embedded.
    Textures,
}

/// The detail that a conversion is asked for.
#[derive(Clone, Copy, Debug, PartialEq, Eq, Structural)]
pub struct ConversionOptions {
    pub text: TextMode,
    pub mesh: MeshMode,
}

impl ConversionOptions {
    /// The least detail: the smallest document, made the fastest.
    pub fn minimal() -> (out: Self)
        ensures
            out == (ConversionOptions { text: TextMode::Native, mesh: MeshMode::Basic }),
    {
        Self { text: TextMode::Native, mesh: MeshMode::Basic }
    }

    /// The most detail: the largest document, made the slowest.
    pub fn full() -> (out: Self)
        ensures
            out == (ConversionOptions {
                text: TextMode::Meshed { copyable: true },
                mesh: MeshMode::Textures,
            }),
    {
        Self { text: TextMode::Meshed { copyable: true }, mesh: MeshMode::Textures }
    }
}

} // verus!
