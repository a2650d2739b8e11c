//! The decisions that the command-line commands take, as functions from the
//! values that the commands read to the values that they write.

pub mod amend;
pub mod commit;
pub mod init;
pub mod release;
pub mod settings;
