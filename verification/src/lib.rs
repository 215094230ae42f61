//! Speech-to-text dictation for Linux: the rules behind the daemon and its
//! tools.

pub mod audio;
pub mod cli;
pub mod clipboard;
pub mod config;
pub mod dedup;
pub mod ieee;
pub mod keyboard;
pub mod service;
pub mod text;
pub mod text_laws;
