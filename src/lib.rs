//! Data pipeline of a two-galaxy gravity simulation: the byte layout shared
//! with the compute and render stages, the double-buffered particle store,
//! the initial-condition generator and the camera input reducer.

pub mod wire;
pub mod generator;
pub mod controls;
pub mod store;
