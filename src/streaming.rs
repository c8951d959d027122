//! Streaming settings and errors.

use vstd::prelude::*;

verus! {

/// Errors of the streaming pipeline.
#[derive(Debug)]
pub enum StreamingError {
    CaptureError(String),
    EncoderError(String),
    DecoderError(String),
    NetworkError(String),
    NotStreaming,
}

/// Quality setting of a stream.
#[derive(Debug, Clone, Copy, PartialEq, Eq, Structural)]
pub enum Quality {
    Auto,
    High,
    Medium,
    Low,
}

/// Bitrate of a quality setting: 8 Mbps for automatic and high, 4 for
/// medium, 2 for low.
pub open spec fn quality_bitrate(q: Quality) -> u32 {
    match q {
        Quality::Auto | Quality::High => 8_000_000,
        Quality::Medium => 4_000_000,
        Quality::Low => 2_000_000,
    }
}

impl Quality {
    /// Target bitrate in bits per second.
    pub fn bitrate(&self) -> (r: u32)
        ensures
            r == quality_bitrate(*self),
    {
        match self {
            Quality::Auto | Quality::High => 8_000_000,
            Quality::Medium => 4_000_000,
            Quality::Low => 2_000_000,
        }
    }
}

/// Settings of a stream.
#[derive(Debug, Clone, Copy, PartialEq, Eq, Structural)]
pub struct StreamingConfig {
    pub fps: u32,
    pub quality: Quality,
    pub display_id: u32,
}

impl Default for StreamingConfig {
    fn default() -> (r: Self)
        ensures
            r == (StreamingConfig { fps: 30, quality: Quality::Auto, display_id: 0 }),
    {
        StreamingConfig { fps: 30, quality: Quality::Auto, display_id: 0 }
    }
}

} // verus!
