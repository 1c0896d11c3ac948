//! Batch decryption of a directory of encrypted files.
//!
//! The library classifies each file by its container format, builds the
//! decryption job list, selects the credential each job needs, constructs the
//! exact invocation of the matching external decryption engine, and turns the
//! engine's report into a per-job outcome. Everything here is pure logic over
//! plain values; the surrounding binary performs the file-system scan, spawns
//! the engine processes, and fans jobs out over a worker pool.

pub mod config;
pub mod engine;
pub mod file_type;
pub mod orchestrator;
pub mod outcome;
pub mod paths;

pub use file_type::FileType;
