//! Decisions of the performance display.
pub mod actions;
pub mod app;
pub mod bindings;
pub mod cli;
pub mod control;
pub mod laws;
pub mod midi_out;
pub mod panels;
pub mod pen_guide;
pub mod settings;
