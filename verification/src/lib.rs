//! Verified core of a screenshot tool: hotkey parsing, configuration,
//! capture geometry, GIF palette quantisation and the text the tool shows.

pub mod text;
pub mod window;
pub mod shortcut;
pub mod capture;
pub mod clipboard;
pub mod config;
pub mod encode;
pub mod error;
pub mod ocr;
