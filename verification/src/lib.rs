//! Core of a terminal-resident line editor: a buffer of text lines, the
//! mapping between logical character columns and rendered screen columns
//! (tabs expand to stops), a scrolling viewport that keeps the cursor
//! visible, and an incremental search over the rendered lines.
//!
//! The terminal shell around this crate decodes raw input into the commands
//! these modules accept and paints the viewport they expose; everything in
//! here is pure logic over in-memory state.

pub mod buffer;
pub mod editor;
pub mod render;
pub mod search;
pub mod viewport;
