//! Versioned Release Convention: commit messages of the form
//! `TYPE: PROJECT - vX.Y.Z`, semantic version bumps, and the state kept
//! about tracked repositories.

pub mod cli;
pub mod commands;
pub mod convention;
pub mod json;
pub mod storage;
pub mod text;
