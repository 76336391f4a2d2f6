//! Numeric values of the GL enums that the translation logic inspects.

pub mod gl;
