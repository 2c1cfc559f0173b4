//! A prompt for starting programs under Wayland: the line editor, the colour arithmetic and the
//! drawing decisions, verified.

pub mod app;
pub mod gui;
