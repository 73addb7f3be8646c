//! Verified core of a document ingestion pipeline: text extraction results,
//! chunking, an embedding work queue, the record write path and the
//! classification of broker messages.
pub mod chunking;
pub mod consumer;
pub mod metadata;
pub mod models;
pub mod pdf;
pub mod queue;
pub mod write_path;
