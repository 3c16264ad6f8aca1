//! Verified core of an uploader that sends files and directories to an
//! S3-compatible object store.

pub mod cli;
pub mod clock;
pub mod config;
pub mod content_type;
pub mod error;
pub mod laws;
pub mod paths;
pub mod report;
pub mod text;
pub mod upload;
