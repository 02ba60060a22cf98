//! Cleaning up pen input with a calibration profile.
pub mod activation;
pub mod fit;
pub mod laws;
pub mod pipeline;
pub mod pressure;
pub mod profile;
pub mod validate;
