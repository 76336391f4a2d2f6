use vstd::prelude::*;

use crate::bindings::gl;
use crate::error::FogleError;

verus! {

/// The shader kinds that the GLSL-to-SPIR-V compiler distinguishes.
#[derive(Debug, PartialEq, Eq, Structural, Clone, Copy)]
pub enum ShaderKind {
    Vertex,
    Fragment,
    Compute,
    Geometry,
    TessControl,
    TessEvaluation,
}

/// The compiler's shader kind for a GL shader-type enum, if it has one.
pub open spec fn spec_shader_kind(shader_type: u32) -> Option<ShaderKind> {
    if shader_type == gl::VERTEX_SHADER {
        Some(ShaderKind::Vertex)
    } else if shader_type == gl::FRAGMENT_SHADER {
        Some(ShaderKind::Fragment)
    } else if shader_type == gl::COMPUTE_SHADER {
        Some(ShaderKind::Compute)
    } else if shader_type == gl::GEOMETRY_SHADER {
        Some(ShaderKind::Geometry)
    } else if shader_type == gl::TESS_CONTROL_SHADER {
        Some(ShaderKind::TessControl)
    } else if shader_type == gl::TESS_EVALUATION_SHADER {
        Some(ShaderKind::TessEvaluation)
    } else {
        None
    }
}

/// Builds a compiler shader kind from a GL shader-type enum.
pub trait FromShaderType: Sized {
    fn from_shader_type(shader_type: u32) -> Result<Self, FogleError>;
}

/// Turns a GL shader-type enum into a compiler shader kind.
pub trait ToShaderType {
    fn to_shader_type(&self) -> Result<ShaderKind, FogleError>;
}

impl FromShaderType for ShaderKind {
    fn from_shader_type(shader_type: u32) -> (r: Result<ShaderKind, FogleError>)
        ensures
            r == (match spec_shader_kind(shader_type) {
                Some(k) => Ok::<ShaderKind, FogleError>(k),
                None => Err(FogleError::UnsupportedShaderType(shader_type)),
            }),
    {
        if shader_type == gl::VERTEX_SHADER {
            Ok(ShaderKind::Vertex)
        } else if shader_type == gl::FRAGMENT_SHADER {
            Ok(ShaderKind::Fragment)
        } else if shader_type == gl::COMPUTE_SHADER {
            Ok(ShaderKind::Compute)
        } else if shader_type == gl::GEOMETRY_SHADER {
            Ok(ShaderKind::Geometry)
        } else if shader_type == gl::TESS_CONTROL_SHADER {
            Ok(ShaderKind::TessControl)
        } else if shader_type == gl::TESS_EVALUATION_SHADER {
            Ok(ShaderKind::TessEvaluation)
        } else {
            Err(FogleError::UnsupportedShaderType(shader_type))
        }
    }
}

impl ToShaderType for u32 {
    fn to_shader_type(&self) -> (r: Result<ShaderKind, FogleError>)
        ensures
            r == (match spec_shader_kind(*self) {
                Some(k) => Ok::<ShaderKind, FogleError>(k),
                None => Err(FogleError::UnsupportedShaderType(*self)),
            }),
    {
        ShaderKind::from_shader_type(*self)
    }
}

} // verus!
