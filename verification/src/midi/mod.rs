//! Mapping pen performance onto MPE (MIDI Polyphonic Expression) events.
pub mod engine;
pub mod event;
pub mod expression;
pub mod laws;
pub mod mapping;
pub mod pads;
pub mod scale;
pub mod surface;
pub mod vibrato;
