//! Display layer: the 1-bit frame buffer, the SSD1309 controller protocol
//! and the framing of I2C writes.

pub mod framebuffer;
pub mod i2c_bus;
pub mod ssd1309;

pub use framebuffer::Framebuffer;
