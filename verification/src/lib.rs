//! Core logic of a plain-text notes editor.
//!
//! The centerpiece is [`buffer::TextBuffer`], a rope-backed character buffer
//! with cursor and selection tracking, word-aware movement, and an undo/redo
//! action log. Around it stand the pure pieces of the editor: keyboard
//! shortcut resolution, list-widget state, scroll bookkeeping, and
//! visual-column arithmetic for tab-expanded rendering.

pub mod actions;
pub mod buffer;
pub mod buffer_model;
pub mod classify;
pub mod input_result;
pub mod keybindings;
pub mod laws;
pub mod list_widget;
pub mod rope_store;
pub mod scroll;
pub mod text_spec;
pub mod ui_types;
pub mod visual;

