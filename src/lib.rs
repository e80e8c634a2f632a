//! A fixed-size grid of characters that can be drawn on with straight runs
//! and square borders, and rendered as newline-terminated text.

mod canvas;
mod text;
pub mod grid;

pub use canvas::{Canvas, DrawError};
