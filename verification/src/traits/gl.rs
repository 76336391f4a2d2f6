use vstd::prelude::*;

use crate::bindings::gl;
use crate::error::FogleError;

verus! {

/// The stage slot (`0..6`) that a shader-type enum occupies in a program,
/// or `None` for an enum that names no shader stage.
pub open spec fn spec_stage_key(e: u32) -> Option<usize> {
    if e == gl::VERTEX_SHADER {
        Some(0usize)
    } else if e == gl::FRAGMENT_SHADER {
        Some(1usize)
    } else if e == gl::GEOMETRY_SHADER {
        Some(2usize)
    } else if e == gl::TESS_CONTROL_SHADER {
        Some(3usize)
    } else if e == gl::TESS_EVALUATION_SHADER {
        Some(4usize)
    } else if e == gl::COMPUTE_SHADER {
        Some(5usize)
    } else {
        None
    }
}

/// The shader-type enum of a stage slot, or `None` past the last slot.
pub open spec fn spec_stage_enum(i: usize) -> Option<u32> {
    if i == 0 {
        Some(gl::VERTEX_SHADER)
    } else if i == 1 {
        Some(gl::FRAGMENT_SHADER)
    } else if i == 2 {
        Some(gl::GEOMETRY_SHADER)
    } else if i == 3 {
        Some(gl::TESS_CONTROL_SHADER)
    } else if i == 4 {
        Some(gl::TESS_EVALUATION_SHADER)
    } else if i == 5 {
        Some(gl::COMPUTE_SHADER)
    } else {
        None
    }
}

/// What a GL boolean byte means: `GL_TRUE`, `GL_FALSE`, or nothing.
pub open spec fn spec_from_gl_bool(b: u8) -> Option<bool> {
    if b == gl::TRUE {
        Some(true)
    } else if b == gl::FALSE {
        Some(false)
    } else {
        None
    }
}

/// A shader-type enum maps to the slot of its stage.
pub trait AsStageKey {
    fn as_stage_key(&self) -> Result<usize, FogleError>;
}

/// A stage slot maps back to its shader-type enum.
pub trait FromStageKey {
    fn from_stage_key(&self) -> Option<u32>;
}

/// A Rust boolean as a GL boolean byte.
pub trait AsGLBool {
    fn as_gl_bool(&self) -> u8;
}

/// A GL boolean (byte or integer query result) as a Rust boolean.
pub trait FromGLBool {
    fn from_gl_bool(&self) -> Option<bool>;
}

impl AsStageKey for u32 {
    fn as_stage_key(&self) -> (r: Result<usize, FogleError>)
        ensures
            r == (match spec_stage_key(*self) {
                Some(i) => Ok::<usize, FogleError>(i),
                None => Err(FogleError::UnsupportedShaderStage(*self)),
            }),
    {
        let e = *self;
        if e == gl::VERTEX_SHADER {
            Ok(0)
        } else if e == gl::FRAGMENT_SHADER {
            Ok(1)
        } else if e == gl::GEOMETRY_SHADER {
            Ok(2)
        } else if e == gl::TESS_CONTROL_SHADER {
            Ok(3)
        } else if e == gl::TESS_EVALUATION_SHADER {
            Ok(4)
        } else if e == gl::COMPUTE_SHADER {
            Ok(5)
        } else {
            Err(FogleError::UnsupportedShaderStage(e))
        }
    }
}

impl FromStageKey for usize {
    fn from_stage_key(&self) -> (r: Option<u32>)
        ensures
            r == spec_stage_enum(*self),
    {
        let i = *self;
        if i == 0 {
            Some(gl::VERTEX_SHADER)
        } else if i == 1 {
            Some(gl::FRAGMENT_SHADER)
        } else if i == 2 {
            Some(gl::GEOMETRY_SHADER)
        } else if i == 3 {
            Some(gl::TESS_CONTROL_SHADER)
        } else if i == 4 {
            Some(gl::TESS_EVALUATION_SHADER)
        } else if i == 5 {
            Some(gl::COMPUTE_SHADER)
        } else {
            None
        }
    }
}

impl AsGLBool for bool {
    fn as_gl_bool(&self) -> (r: u8)
        ensures
            r == (if *self { gl::TRUE } else { gl::FALSE }),
    {
        if *self {
            gl::TRUE
        } else {
            gl::FALSE
        }
    }
}

impl FromGLBool for u8 {
    fn from_gl_bool(&self) -> (r: Option<bool>)
        ensures
            r == spec_from_gl_bool(*self),
    {
        let b = *self;
        if b == gl::TRUE {
            Some(true)
        } else if b == gl::FALSE {
            Some(false)
        } else {
            None
        }
    }
}

impl FromGLBool for i32 {
    /// The integer is read as a GL boolean byte: only its low byte counts.
    fn from_gl_bool(&self) -> (r: Option<bool>)
        ensures
            r == spec_from_gl_bool(*self as u8),
    {
        let b = *self as u8;
        if b == gl::TRUE {
            Some(true)
        } else if b == gl::FALSE {
            Some(false)
        } else {
            None
        }
    }
}

/// Stage slots and shader-type enums are inverse to each other: every
/// supported shader type maps to a slot that maps back to it, and every slot
/// below six maps to a shader type whose slot it is.
pub proof fn lemma_stage_key_roundtrip(e: u32, i: usize)
    ensures
        spec_stage_key(e) matches Some(k) ==> spec_stage_enum(k) == Some(e),
        spec_stage_enum(i) matches Some(t) ==> spec_stage_key(t) == Some(i),
        spec_stage_enum(i) is Some <==> i < 6,
        spec_stage_key(e) matches Some(k) ==> k < 6,
{
}

/// Writing a boolean as a GL boolean and reading it back gives the boolean.
pub proof fn lemma_gl_bool_roundtrip(b: bool)
    ensures
        spec_from_gl_bool(if b { gl::TRUE } else { gl::FALSE }) == Some(b),
{
}

} // verus!
