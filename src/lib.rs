//! A multi-tenant object store over a local filesystem, as verified logic.
//!
//! Each tenant has a directory of its own below the root it registered with;
//! containers are directories below it and objects are files. The store
//! decides every request (which path, whether a chunk of an upload is in
//! order, what a read returns, what a bulk removal reports) and hands back
//! the file operations to carry out, so that the disk work stays with the
//! caller. Uploads arrive as chunks; a stream must deliver them at strictly
//! contiguous offsets, and its session closes with the last chunk.

pub mod error;
pub mod laws;
pub mod listing;
pub mod paths;
pub mod range;
pub mod service;
pub mod table;
pub mod upload;
