use vstd::prelude::*;

verus! {

/// A frame as the source decoded it: interleaved RGB bytes, row by row.
pub struct DecodedFrame {
    pub data: Vec<u8>,
    pub width: u32,
    pub height: u32,
}

/// A decoded frame with the sequence number it was given when it left the
/// source.
pub struct RawFrame {
    pub data: Vec<u8>,
    pub width: u32,
    pub height: u32,
    pub number: usize,
}

/// A converted frame: one grayscale byte per pixel, row by row, at the
/// target size, with the sequence number of the frame it came from.
pub struct Image {
    pub data: Vec<u8>,
    pub width: u32,
    pub height: u32,
    pub number: usize,
}

/// A fully converted clip, ready to be played.
pub struct Video {
    /// Frames per second.
    pub fps: usize,
    /// Duration in seconds.
    pub duration: usize,
    pub images: Vec<Image>,
}

impl DecodedFrame {
    /// The buffer holds at least three bytes for each pixel.
    pub open spec fn wf(&self) -> bool {
        self.data@.len() >= 3 * self.width * self.height
    }
}

impl RawFrame {
    /// The buffer holds at least three bytes for each pixel.
    pub open spec fn wf(&self) -> bool {
        self.data@.len() >= 3 * self.width * self.height
    }
}

impl Image {
    /// The buffer holds exactly one byte for each pixel.
    pub open spec fn wf(&self) -> bool {
        self.data@.len() == self.width * self.height
    }
}

impl Video {
    /// Milliseconds to wait after showing each frame to keep the clip's
    /// frame rate.
    pub fn frame_delay_ms(&self) -> (ms: u64)
        requires
            self.fps > 0,
        ensures
            ms == 1000int / (self.fps as int),
    {
        1000 / (self.fps as u64)
    }
}

} // verus!
