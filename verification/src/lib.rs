//! Omni-KVM: the shared keyboard-and-mouse focus of two computers, and the
//! messages their daemons and boards exchange.

pub mod focus;

pub mod protocol;
pub mod hotkey;
pub mod input;
pub mod input_windows;
pub mod input_macos;
pub mod hub;
pub mod keymap;
pub mod keymap_macos;
pub mod board;
pub mod peer;
pub mod daemon;
