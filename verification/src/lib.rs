//! Background Bangla phonetic input: the decisions behind the keyboard hook,
//! the on-screen rewrite, and the installer's file formats.

pub mod unicode;
pub mod bengali;
pub mod phonetic;
pub mod input;
pub mod keyboard;
pub mod state;
pub mod tray;
pub mod autostart;
pub mod winevent;
pub mod setup;
pub mod window;
