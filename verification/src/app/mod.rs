//! Program-level logic: the boot and shutdown sequences, the main loop's
//! decisions, screen composition and settings reload decisions.

pub mod boot;
pub mod config_reload;
pub mod main_loop;
pub mod render;
pub mod shutdown;
