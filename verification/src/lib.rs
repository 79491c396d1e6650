//! A Win95-style terminal multiplexer core: input decoding, the off-screen
//! canvas and its diff renderer, selection, taskbar layout, start menu and
//! the multiplexer state machine.

pub mod clipboard;
pub mod numparse;
pub mod input;
pub mod text;
pub mod menu;
pub mod grid;
pub mod selection;
pub mod fmt;
pub mod screen;
pub mod taskbar;
pub mod keys;
pub mod app;
pub mod battery;
pub mod laws;
pub mod emulator;
pub mod console;
pub mod display;
pub mod keylaws;
