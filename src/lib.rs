//! Streaming audio acquisition and windowing for a speech-to-text decoder.
//!
//! The library holds the logic of the pipeline: the bounded sample buffer
//! shared by the capture and decode loops, the integer sample transforms of
//! the capture step, window extraction, the shape of a window's feature
//! tensor, and the order of calls made into the decoder for each window.
pub mod capture;
pub mod ring_buffer;
pub mod session;
pub mod window;
