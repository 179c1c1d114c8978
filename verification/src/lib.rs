//! Merge engine for a bulk photo export: classification of media files, date
//! buckets derived from file and folder names, content digests, and
//! collision-safe destination naming with bounded retry.

pub mod classify;
pub mod dates;
pub mod engine;
pub mod hasher;
pub mod model;
pub mod mover;
pub mod naming;
pub mod text;
