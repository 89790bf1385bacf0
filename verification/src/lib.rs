//! Verified decision logic of a voice recorder: configuration choice, device
//! lookup, chunking of captured samples, speech segmentation and session state.
pub mod config;
pub mod chunker;
pub mod segmenter;
pub mod device;
pub mod vad;
pub mod session;
pub mod naming;
