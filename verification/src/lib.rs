//! Bundles selected files and directories into one compressed archive.

pub mod builder;
pub mod naming;
pub mod path_set;
pub mod plan;
pub mod sink;
pub mod traversal;
pub mod writer;
