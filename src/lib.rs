//! Flattens a tree of Rust modules, declared with `mod name;` lines, into one
//! document in which every declaration is replaced by the braced contents of
//! the file that defines it.
pub mod path;
pub mod tree;
pub mod resolve;
pub mod lines;
pub mod decl;
pub mod inline;
pub mod laws;
