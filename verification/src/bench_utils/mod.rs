//! Inputs of benchmarks.

pub mod create_empty_tree;
