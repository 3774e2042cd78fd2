use vstd::prelude::*;

verus! {

/// The kinds of 3D scene component that the notation can describe.
#[derive(Debug, Clone, Copy, PartialEq, Eq, Structural)]
pub enum ThreeDComponentType {
    World3D,
    Camera,
    Renderer,
    Light,
    Mesh,
    Texture,
    Material,
    Shader,
    Scene,
    Skybox,
}

/// A 3D scene component with its parameters as (key, value) pairs.
#[derive(Debug, Clone)]
pub struct ThreeDComponentNode {
    pub component_type: ThreeDComponentType,
    pub params: Vec<(String, String)>,
}

/// An asset referenced by a scene: its path and its kind.
#[derive(Debug, Clone)]
pub struct AssetNode {
    pub path: String,
    pub asset_type: String,
}

} // verus!
