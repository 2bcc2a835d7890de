//! Core of a semantic-version bumping tool.
//!
//! The library computes a new semantic version from a current one and a
//! requested change, expands `{current_version}` / `{new_version}`
//! placeholders into literal version text, rewrites file contents through
//! user-supplied search patterns, and stages a whole set of file rewrites
//! before anything is written. File and repository I/O stay outside; the
//! library works on plain values.

pub mod text;
pub mod version;
pub mod bump;
pub mod render;
pub mod rewrite;
pub mod orchestrate;
pub mod laws;
