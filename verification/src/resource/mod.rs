//! Resources read from disk: custom fonts.

pub mod font_loader;
