//! Platform-independent descriptions of tablets and pens.
pub mod backend;
pub mod capabilities;
pub mod error;
pub mod normalize;
pub mod sample;
