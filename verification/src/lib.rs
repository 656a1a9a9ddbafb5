//! A driver for a 9-bit three-wire SPI display panel, bit-banged over
//! port-expander pins, with the panel's power-on register sequence.

pub mod wire;
pub mod expander_spi;
pub mod laws;
pub mod display_init;
pub mod tach;
pub mod timing;
pub mod power_on;

pub use wire::{BusOp, Line, Levels};
pub use expander_spi::ExpanderSpi;
pub use display_init::init_display;
