//! The pieces of the user interface that compute on plain values.

pub mod color;
pub mod keyboard;
pub mod text_renderer;
pub mod wayline;
pub mod wayland;
