//! Verified core of a desktop-GL-on-GLES translation layer: the state machines,
//! lookups, parsers and encodings that the C entry points of the layer drive.

pub mod api;
pub mod bindings;
pub mod runtime;
pub mod error;
pub mod generator;

pub mod requirements;
pub mod traits;
pub mod utils;
