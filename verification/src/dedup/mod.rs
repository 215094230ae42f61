//! Deduplication of text that overlapping windows of audio transcribe more
//! than once.

pub mod laws;
pub mod text_dedup;
pub mod timestamp_dedup;
