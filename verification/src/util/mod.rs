//! Helpers that several tools share.

pub mod binary;
pub mod filesystem;
pub mod path;
