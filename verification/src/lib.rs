//! Trigger-word detection for a keyboard-driven jingle player.
//!
//! The library holds the decisions of the application: which virtual keys
//! are letters, word boundaries or wiping keys, the fixed-size word buffer,
//! the reaction of the keyboard hook to one key press, the settings-file
//! format, the window-title blacklist and the audio and icon helpers.
//! Everything that touches the operating system lives outside of it.

pub mod keys;
pub mod text;
pub mod word_buffer;
pub mod vk_names;
pub mod config;
pub mod hook;
pub mod monitor;
pub mod audio;
pub mod icon;
pub mod tray;
