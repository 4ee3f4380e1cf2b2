//! Core logic of a terminal-UI front end for a version-control tool.
//!
//! The crate centres on an embedded interactive shell session: a
//! pseudo-terminal driving a child shell, a pure key-to-bytes encoder,
//! and a copy mode for selecting, searching and yanking rendered text.
//! Around that sit the pure pieces of the surrounding application:
//! unified-diff parsing, repository status parsing, settings, and the
//! text layout helpers of the interface.

pub mod app_types;
pub mod copymode;
pub mod diff;
pub mod git;
pub mod keymap;
pub mod keys;
pub mod settings;
pub mod shell;
pub mod terminal;
pub mod ui;
pub mod util;
