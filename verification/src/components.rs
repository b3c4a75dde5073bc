//! Page components.
pub mod auth_dialog;
pub mod arc_preview;
