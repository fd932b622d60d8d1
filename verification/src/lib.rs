//! A terminal's configuration, input and screen logic.

pub mod config;
pub mod decscusr;
pub mod dropfiles;
pub mod engine;
pub mod handoff;
pub mod hotkey;
pub mod icon;
pub mod iconart;
pub mod ime;
pub mod indicators;
pub mod inspector;
pub mod ipc;
pub mod jumplist;
pub mod keybind;
pub mod text;
