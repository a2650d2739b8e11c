//! The configuration and the state that the tool keeps, as values.

pub mod config;
pub mod state;
pub mod tracking;
