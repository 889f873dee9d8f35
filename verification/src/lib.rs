//! Core engine of a modal, vim-style terminal hex editor.
//!
//! The crate verifies the parts of the editor with real invariants: the
//! nibble-precision cursor over a flat byte buffer, the multi-buffer tab
//! state machine, the `:`-command interpreter, the hex/ASCII view text, and
//! the byte-to-primitive type inspector. Terminal rendering and file system
//! access sit outside, in the binary that drives this library.

pub mod app;
pub mod command;
pub mod cursor;
pub mod file;
pub mod hexfmt;
pub mod inspector;
pub mod keys;
pub mod modes;
pub mod numparse;
pub mod tabs;
pub mod text;
pub mod tilde;
