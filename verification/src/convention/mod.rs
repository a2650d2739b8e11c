//! The Versioned Release Convention: message format, type detection and
//! semantic versions.

pub mod detect;
pub mod parser;
pub mod roundtrip;
pub mod version;

pub use detect::{detect_commit_type, infer_from_files};
pub use parser::{
    CommitMessage, CommitTypeLocal, generate_message, parse_message, validate_message,
};
pub use version::{Version, VersionSuggestions, parse_version};
pub use crate::cli::CommitType;
