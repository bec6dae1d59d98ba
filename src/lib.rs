//! Recovers source-level names for the uniform-buffer members and texture
//! bindings of a compiled shader from its reflected type graph.
use vstd::prelude::*;

pub mod binary;
pub mod error;
pub mod flatten;
pub mod search;
pub mod mapping;
pub mod reflect;
pub mod text;
pub mod types;

pub use crate::error::Error;

verus! {

/// The pipeline stage a shader is compiled for.
#[derive(Copy, Clone, Hash, PartialEq, Eq, Structural, Debug)]
pub enum Stage {
    Fragment,
    Vertex,
}

/// The result of converting one shader.
#[derive(Clone, Debug)]
pub struct ConvertedShader {
    /// Converted shader source code.
    pub shader: String,
    /// Compiled uniform names, mapped to variable names.
    /// May be missing uniforms that were removed as unused.
    pub uniforms: std::collections::HashMap<String, String>,
}

} // verus!
