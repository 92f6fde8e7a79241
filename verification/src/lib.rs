//! A directory-tree inspection library.
//!
//! The library builds an immutable in-memory tree of directory and file
//! nodes out of a plain-value snapshot of a directory listing, and renders
//! that tree as ordered lines of text, either as a colorized branch-glyph
//! tree or as an indented listing with per-file metadata.  Reading the
//! filesystem itself, argument handling and printing are left to the
//! surrounding program; the library works on plain values only.

pub mod builder;
pub mod render;
pub mod snapshot;
pub mod text;
pub mod tree;
