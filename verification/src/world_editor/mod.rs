//! Chunk data of a Java world and its merging for append-mode saves.

pub mod chunk_merge;
pub mod common;
pub mod packing;
