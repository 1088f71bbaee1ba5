//! A line-counting engine for directory trees.
//!
//! The engine counts line feeds in the files of a subtree, optionally in
//! batches that independent workers process. Everything here is pure: the
//! caller performs the directory listings, the file reads, the threads and the
//! channel, and hands the engine what came back.

pub mod aggregate;
pub mod engine;
pub mod extension;
pub mod file;
pub mod input;
pub mod lines;
pub mod partition;
pub mod plan;
pub mod report;
pub mod total;
pub mod tree;
pub mod walk;
pub mod worker;
