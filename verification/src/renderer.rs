//! Small renderer types: camera projections, material alpha modes, per-mesh
//! primitive data and the error for a missing model file.

use vstd::prelude::*;

verus! {

/// The projection of a camera.
#[derive(Clone, Copy, PartialEq, Eq, Structural)]
pub enum CameraType {
    Perspective,
    Orthographic,
}

/// How a material's alpha is used: ignored, as a cut-off mask, or blended.
#[derive(Clone, Copy, PartialEq, Eq, Structural)]
pub enum AlphaBlendMode {
    Opaque,
    Mask,
    Blend,
}

/// Data the shaders read per primitive: its vertex count.
#[derive(Clone, Copy, PartialEq, Eq, Structural)]
pub struct PrimitiveInfo {
    pub num_vertices: u32,
}

/// A model file could not be found.
#[derive(Clone, Copy, PartialEq, Eq, Structural)]
pub struct PathNotFoundError;

impl PathNotFoundError {
    /// The error's message.
    pub fn to_string(&self) -> (r: String)
        ensures
            r@ == "unable to find file at path"@,
    {
        String::from_str("unable to find file at path")
    }
}

/// Whether the renderer runs on WebGPU rather than WebGL; it does unless
/// wgpu's `webgl` feature is on, which this build never turns on.
pub fn is_webgpu_enabled() -> (r: bool)
    ensures
        r,
{
    true
}

} // verus!
