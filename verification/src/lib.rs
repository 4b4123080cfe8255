//! Core logic of the Whisplay launcher: the app registry, the RGB565
//! framebuffer and its blitter, the button edge detector, the status bar
//! readings, the menu layout and the launcher's event loop decisions.
//!
//! Everything here is plain computation on plain values; the hardware
//! (SPI display, GPIO button and LEDs), the file system and the process
//! table are driven by the program around this library.

pub mod apps;
pub mod button;
pub mod color;
pub mod display;
pub mod framebuffer;
pub mod launcher;
pub mod menu;
pub mod status;
pub mod text;
