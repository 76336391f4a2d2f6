pub mod context;
pub mod contexts;
pub mod formats;
pub mod shader;
pub mod queries;
