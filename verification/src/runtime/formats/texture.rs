use vstd::prelude::*;

use crate::bindings::gl;

verus! {

/// Rewrites the formats of a `glTexImage2D` call into ones that GLES takes:
/// a 32-bit integer depth format becomes the 32-bit float one; every other
/// format, and the pixel format and type, stay as they are.
pub fn fix_tex_image_2d(internalformat: &mut u32, format: &mut u32, type_: &mut u32)
    ensures
        *final(internalformat) == (if *old(internalformat) == gl::DEPTH_COMPONENT32 {
            gl::DEPTH_COMPONENT32F
        } else {
            *old(internalformat)
        }),
        *final(format) == *old(format),
        *final(type_) == *old(type_),
{
    if *internalformat == gl::DEPTH_COMPONENT32 {
        *internalformat = gl::DEPTH_COMPONENT32F;
    }
}

} // verus!
