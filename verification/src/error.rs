use vstd::prelude::*;

verus! {

/// Errors that the translation logic reports to its callers.
#[derive(Debug, PartialEq, Eq, Structural, Clone, Copy)]
pub enum FogleError {
    /// The GL enum names no shader stage that the layer supports.
    UnsupportedShaderStage(u32),
    /// The GL enum names no shader type that the GLSL compiler supports.
    UnsupportedShaderType(u32),
    /// A stage index outside `0..6`.
    StageOutOfBounds(usize),
    /// A shader id that no shader object carries.
    ShaderNotFound(u32),
    /// The shader cache is switched off.
    CacheDisabled,
    /// The SPIR-V cross compiler refused the module.
    SpirvCross,
    /// Every uniform-buffer binding number has been handed out.
    BindingsExhausted,
}

} // verus!
