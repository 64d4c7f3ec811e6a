use vstd::prelude::*;

verus! {

/// Encoder settings: frame size and audio sample rate.
#[derive(Debug, Clone, Copy, PartialEq, Eq)]
pub struct EncoderSettings {
    pub width: usize,
    pub height: usize,
    pub sample_rate: i32,
}

impl EncoderSettings {
    /// The H.264 / YUV 4:2:0 preset: the given frame size and 48 kHz audio.
    pub fn preset_h264_yuv420p(w: usize, h: usize, _realtime: bool) -> (r: Self)
        ensures
            r.width == w,
            r.height == h,
            r.sample_rate == 48000,
    {
        EncoderSettings { width: w, height: h, sample_rate: 48000 }
    }
}

/// A video decoder without a media backend: opening and seeking always succeed.
#[derive(Debug)]
pub struct Decoder {}

impl Decoder {
    /// Opens a video file.
    pub fn new(_path: &str) -> (r: Result<Self, String>)
        ensures
            r is Ok,
    {
        Ok(Decoder {  })
    }

    /// Seeks to a position in milliseconds.
    pub fn seek(&mut self, _ms: i64) -> (r: Result<(), String>)
        ensures
            r is Ok,
    {
        Ok(())
    }
}

/// Where an encoded video is written.
#[derive(Debug, Clone, Copy)]
pub struct Locator {}

impl Locator {
    pub fn new() -> (r: Self) {
        Locator {  }
    }
}

/// A presentation timestamp without a media backend behind it.
#[derive(Clone, Copy, Debug, PartialEq, Eq, Structural)]
pub struct Time {}

impl Time {
    /// The time of frame `n` at `fps` frames per second.
    pub fn from_nth_of_second(_n: usize, _fps: u32) -> (r: Self)
        ensures
            r == (Time {  }),
    {
        Time {  }
    }
}

/// A decoded video frame without a media backend behind it.
#[derive(Debug, Clone, Copy)]
pub struct Frame {}

} // verus!
