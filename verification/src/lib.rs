//! Core of a dictation client: text buffers, corrections, overlays, key plans
//! and the decisions of a dictation session.

pub mod buffer_laws;
pub mod client_laws;
pub mod clipboard;
pub mod correction_buffer;
pub mod correction_laws;
pub mod dictation;
pub mod event_laws;
pub mod gtk_overlay;
pub mod hotkey_laws;
pub mod hotkeys;
pub mod keyboard_laws;
pub mod llm_correct;
pub mod overlay_laws;
pub mod overlay_view;
pub mod paste_laws;
pub mod preview_buffer;
pub mod preview_laws;
pub mod preview_overlay;
pub mod protocol;
pub mod screen;
pub mod session;
pub mod session_laws;
pub mod similarity;
pub mod similarity_laws;
pub mod text;
pub mod text_laws;
pub mod virtual_keyboard;
pub mod window_laws;
