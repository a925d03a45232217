//! Software rendering on the 1-bit frame buffer: shapes, fonts and text.

pub mod canvas;
pub mod font;
pub mod text;
