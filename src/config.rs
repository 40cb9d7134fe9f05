use vstd::prelude::*;

verus! {

/// The wire contract negotiated with the remote converter.
#[derive(Clone, Copy, Debug, PartialEq, Eq, Structural)]
pub struct AudioConfig {
    /// Samples per second per channel.
    pub sample_rate: u32,
    /// Channels on the wire; 1 or more.
    pub channels: u16,
    /// Samples per channel in one frame.
    pub frame_size: u32,
}

/// Capacity of each frame queue.
pub const QUEUE_CAPACITY: usize = 64;

impl AudioConfig {
    /// Samples in one frame: `frame_size * channels`.
    pub open spec fn spec_samples_per_frame(&self) -> int {
        self.frame_size as int * self.channels as int
    }

    /// Bytes in one frame: two per sample.
    pub open spec fn spec_frame_bytes(&self) -> int {
        2 * self.spec_samples_per_frame()
    }

    /// At least one channel and one sample per frame, and a frame's byte
    /// count fits in memory.
    pub open spec fn wf(&self) -> bool {
        &&& self.channels >= 1
        &&& self.frame_size >= 1
        &&& self.spec_frame_bytes() <= usize::MAX
    }

    pub fn new(sample_rate: u32, channels: u16, frame_size: u32) -> (r: AudioConfig)
        ensures
            r.sample_rate == sample_rate,
            r.channels == channels,
            r.frame_size == frame_size,
    {
        AudioConfig { sample_rate, channels, frame_size }
    }

    pub fn samples_per_frame(&self) -> (r: usize)
        requires
            self.wf(),
        ensures
            r == self.spec_samples_per_frame(),
    {
        proof {
            assert(self.spec_samples_per_frame() <= self.spec_frame_bytes());
        }
        (self.frame_size as usize) * (self.channels as usize)
    }

    pub fn frame_bytes(&self) -> (r: usize)
        requires
            self.wf(),
        ensures
            r == self.spec_frame_bytes(),
    {
        2 * self.samples_per_frame()
    }

    /// Whether the configuration can be streamed on this machine.
    pub fn is_valid(&self) -> (r: bool)
        ensures
            r == self.wf(),
    {
        let f: u64 = self.frame_size as u64;
        let c: u64 = self.channels as u64;
        proof {
            assert(f * c <= 0xffff_ffff * 0xffff) by (nonlinear_arith)
                requires
                    f <= 0xffff_ffff,
                    c <= 0xffff,
            ;
        }
        let bytes: u64 = 2 * (f * c);
        self.channels >= 1 && self.frame_size >= 1 && bytes <= usize::MAX as u64
    }
}

impl Default for AudioConfig {
    /// 48 kHz mono with 10 ms frames.
    fn default() -> (r: AudioConfig)
        ensures
            r.sample_rate == 48000,
            r.channels == 1,
            r.frame_size == 480,
    {
        AudioConfig { sample_rate: 48000, channels: 1, frame_size: 480 }
    }
}

} // verus!
