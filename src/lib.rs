//! Modal review of unified diffs: a permissive diff parser, a comment
//! store keyed by file and new-side line, and the state machine that turns
//! key presses into navigation, comment authoring, search and commands.

pub mod text;
pub mod diff;
pub mod comment;
pub mod app;
pub mod vim;
pub mod vcs;
