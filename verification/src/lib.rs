//! Core of a terminal line editor: Unicode-aware lines of grapheme-cluster
//! fragments, a buffer of such lines, and a viewport/cursor controller that
//! tracks a logical cursor, keeps it scrolled into view, and computes the
//! visible rows of text.
//!
//! The library consumes decoded text and produces rows of text and cursor
//! coordinates; reading files, decoding key events and driving the terminal
//! belong to the surrounding program. The editor is deliberately
//! view/edit-in-memory only: writing a buffer back to storage is not part of
//! this crate.

pub mod buffer;
pub mod clamp;
pub mod editor;
pub mod editorcommand;
pub mod geometry;
pub mod location;
pub mod view;
pub mod line;
pub mod unicode;
