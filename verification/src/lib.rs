//! A resumable tail-and-transcode library: the verified core of a process
//! that follows a growing file, converts newly appended bytes from a
//! configured source encoding to UTF-8, appends the text to an output, and
//! persists its progress as a byte offset so that a restart resumes exactly
//! where the last successful append left off.

pub mod config;
pub mod encoding;
pub mod engine;
pub mod position;
pub mod startup;
