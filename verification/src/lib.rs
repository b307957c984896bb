//! Translates a resolved package dependency graph into Bazel-style build
//! configuration files with equivalent per-platform conditionality.
//!
//! The crate has two halves: a platform resolver, which decides which subset
//! of a fixed catalog of target triples a platform-conditional expression
//! matches, and a build plan renderer, which deterministically compiles a
//! planned build into a list of (path, contents) file outputs.

pub mod context;
pub mod errors;
pub mod expr;
pub mod platform;
pub mod rendering;
pub mod text;

pub use text::lex_leq;
pub use text::is_substring;
