use vstd::prelude::*;

verus! {

pub type GLenum = u32;

pub type GLboolean = u8;

pub type GLbitfield = u32;

pub type GLint = i32;

pub type GLuint = u32;

pub type GLsizei = i32;

pub const NO_ERROR: u32 = 0;

pub const INVALID_ENUM: u32 = 0x0500;

pub const INVALID_VALUE: u32 = 0x0501;

pub const INVALID_OPERATION: u32 = 0x0502;

pub const STACK_OVERFLOW: u32 = 0x0503;

pub const STACK_UNDERFLOW: u32 = 0x0504;

pub const OUT_OF_MEMORY: u32 = 0x0505;

pub const INVALID_FRAMEBUFFER_OPERATION: u32 = 0x0506;

pub const FRAGMENT_SHADER: u32 = 0x8B30;

pub const VERTEX_SHADER: u32 = 0x8B31;

pub const GEOMETRY_SHADER: u32 = 0x8DD9;

pub const TESS_EVALUATION_SHADER: u32 = 0x8E87;

pub const TESS_CONTROL_SHADER: u32 = 0x8E88;

pub const COMPUTE_SHADER: u32 = 0x91B9;

pub const FALSE: u8 = 0;

pub const TRUE: u8 = 1;

pub const DEPTH_COMPONENT32: u32 = 0x81A7;

pub const DEPTH_COMPONENT32F: u32 = 0x8CAC;

pub const NONE: u32 = 0;

pub const VENDOR: u32 = 0x1F00;

pub const RENDERER: u32 = 0x1F01;

pub const VERSION: u32 = 0x1F02;

pub const SHADING_LANGUAGE_VERSION: u32 = 0x8B8C;

pub const MAJOR_VERSION: u32 = 0x821B;

pub const MINOR_VERSION: u32 = 0x821C;

pub const NUM_EXTENSIONS: u32 = 0x821D;

pub const CONTEXT_FLAGS: u32 = 0x821E;

pub const CONTEXT_PROFILE_MASK: u32 = 0x9126;

pub const CONTEXT_FLAG_FORWARD_COMPATIBLE_BIT: u32 = 0x1;

pub const CONTEXT_CORE_PROFILE_BIT: u32 = 0x1;

pub const CONTEXT_COMPATIBILITY_PROFILE_BIT: u32 = 0x2;

} // verus!
