//! Packs a directory tree of loose assets into one archive: classifies each
//! file by its path, validates and minifies JSON on the way, assembles the
//! archive entries and decides when a change to the tree starts a new compile.
//!
//! Everything here works on plain values. Reading the tree, writing the
//! archive file and listening for filesystem events are the caller's part.

pub mod archive;
pub mod classify;
pub mod cmd;
pub mod comp;
pub mod output;
pub mod text;
pub mod validate;
pub mod watching;

pub use cmd::{CompileCmd, WatchCmd};
