//! Semantic keyframe extraction: sample frames from a video, embed each frame
//! into a unit feature vector, group consecutive frames into segments whose
//! embeddings stay within a similarity tolerance, and pick one representative
//! frame per segment.
//!
//! This crate holds the verified core: the policy tables, the segmentation
//! engine, the pipeline stage bookkeeping, and the pure parts of the frame,
//! output and model-cache handling. Decoding, inference and file output are
//! driven by a thin unverified front end that feeds plain values into the
//! functions here.

pub mod config;
pub mod embeddings;
pub mod error;
pub mod model;
pub mod numfmt;
pub mod output;
pub mod processor;
pub mod segmentation;
pub mod video;
