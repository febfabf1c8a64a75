//! A block-breaking ball-and-paddle game that renders into an 80x25
//! character-cell display, with a scrolling text console on the same surface.

pub mod screen;
pub mod arkanoid;
pub mod console;
