//! Typing text: the keymap of the virtual keyboard and the key events.

pub mod keymap;
pub mod laws;
pub mod typing;
pub mod typing_laws;
