//! Stylus capture and MPE performance: the verified core.
pub mod cli;
pub mod consumer;
pub mod device;
pub mod double;
pub mod hud;
pub mod midi;
pub mod process;
pub mod rawinput;
pub mod stream;
pub mod text;
