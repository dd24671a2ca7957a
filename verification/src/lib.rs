//! Streaming core of a per-scene quality-targeted video transcoder.
//!
//! The crate holds the pieces of the pipeline that decide and compute:
//! the YUV4MPEG-2 header and frame codec, the bounded frame buffer, the
//! first-pass statistics record, the keyframe event sequencer, the scene
//! slicer and the constant-quality search. Each item carries a contract
//! over a mathematical model of its data, checked by Verus.

pub mod aom_firstpass;
pub mod audio;
pub mod av1_encoder;
pub mod binary64;
pub mod commands;
pub mod cq_search;
pub mod decimal;
pub mod encoder;
pub mod feeder;
pub mod frame;
pub mod frame_buffer;
pub mod macroblocks;
pub mod scan;
pub mod slicer;
pub mod stats_processor;
pub mod video_header;
pub mod vmaf;
pub mod vp9_encoder;
