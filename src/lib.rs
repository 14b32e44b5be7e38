//! Estimates directory entry counts from raw directory sizes, so that very
//! large directories can be found in big filesystem trees without listing
//! every directory.

pub mod args;
pub mod calibrate;
pub mod pathset;
pub mod tree;
pub mod walk;
