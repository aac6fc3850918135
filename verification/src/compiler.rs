//! The compiler's passes over instructions.

pub mod fuse;
pub mod slots;
