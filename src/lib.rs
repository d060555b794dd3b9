pub mod buffer;
pub mod color;
pub mod writer;
pub mod laws;
