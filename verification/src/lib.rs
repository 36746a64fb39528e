//! A command-line helper for a collection of numbered problem solutions.
//!
//! The library holds the logic: parsing the invocation, expanding a
//! solution template, composing the file and index entries a scaffold
//! must write, and reading the most recent problem id back out of the
//! index. All filesystem and process work is left to the caller, which
//! hands the library plain values and carries out the plans it returns.

pub mod commands;
pub mod context;
pub mod decimal;
pub mod errors;
pub mod latest;
pub mod template;
