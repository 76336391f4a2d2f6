pub mod gl;
pub mod shaderc;
