pub mod ffi;
pub mod chars;
pub mod strset;
pub mod text;
pub mod path;
pub mod bytes;
