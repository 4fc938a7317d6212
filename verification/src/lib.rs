//! Transcodes a multi-frame raster animation into an animated-cursor
//! resource container.
//!
//! The verified core is the frame reconstruction and container-assembly
//! pipeline: a canvas compositor that replays positioned frame deltas with
//! their disposal semantics, a frame encoder that wraps each reconstructed
//! raster as a cursor directory entry, an assembler that serializes the
//! entries into the binary container, and a hotspot validator.

pub mod encoder;
pub mod error;
pub mod assembler;
pub mod compositor;
pub mod hotspot;
pub mod pipeline;
