//! Detection and safety analysis of cleanable development-project artifacts.
//!
//! The library walks directory trees, classifies project roots by marker
//! files, aggregates the sizes of their cleanable artifact directories, and
//! computes a safety verdict before anything is deleted.  All traversal
//! decisions, classification rules and size arithmetic are verified; the
//! filesystem itself is reached only through a handful of trusted probes.

pub mod cleaners;
pub mod git;
pub mod kind;
pub mod marker;
pub mod paths;
pub mod probe;
pub mod project;
pub mod registry;
pub mod scanner;
pub mod text;
pub mod tui;
