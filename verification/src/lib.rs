//! Verified core of a document manager service: naming of stored files,
//! document records, storage planning and document lookup.

pub mod config;
pub mod encoding;
pub mod endpoints;
pub mod error;
pub mod hyphen_file_layout;
pub mod ids;
pub mod laws;
pub mod models;
pub mod names;
pub mod operations;
pub mod storage;
