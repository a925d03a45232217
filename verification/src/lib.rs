//! Monochrome OLED desktop companion: frame buffer, drawing, text, the
//! display controller's protocol, bounded metric formatting, screen
//! composition, and the parsing and event logic behind the system monitors,
//! the notifications and the settings.

pub mod app;
pub mod config;
pub mod display;
pub mod monitor;
pub mod notify;
pub mod renderer;
pub mod resource;
pub mod ui;
pub mod utils;
