//! The workspace model of a small text editor: a tree of folders and `.txt`
//! files mirrored from disk, the current selection, the edit buffer with its
//! dirty flag, and the pending create / rename prompts.
//!
//! The library does no I/O. Its caller reads directories and files, writes,
//! renames and trashes, and hands the outcomes back as plain values.

pub mod names;
pub mod path;
pub mod scanner;
pub mod editor;
pub mod laws;
