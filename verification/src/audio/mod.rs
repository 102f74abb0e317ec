pub mod analyzer;
pub mod buffer;
