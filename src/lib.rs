//! Brightness control: a fixed-size binary frame codec for brightness
//! commands and the command executor of the privileged daemon that applies
//! them to a backlight device.

pub mod cli;
pub mod codec;
pub mod error;
pub mod executor;
pub mod groups;
pub mod text;
