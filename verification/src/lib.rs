//! Locates directories with a fixed marker name (`node_modules`) inside a
//! file-system subtree, computes each match's total on-disk size, and maps
//! the outcomes of a bulk best-effort removal.
//!
//! The library works on a value-level picture of the subtree ([`tree::FsTree`]):
//! the caller walks the real file system, hands the resulting tree in, and
//! performs the actual removals; every decision (root validation, pruning,
//! matching, sizing, report assembly, per-path outcome accounting) is made
//! and verified here.

pub mod delete;
pub mod paths;
pub mod scan;
pub mod tree;
