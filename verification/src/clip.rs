//! Raw mono audio data.
//!
//! A clip holds an ordered sequence of samples together with the rate, in Hz,
//! at which they were taken. Samples are signed 32-bit fixed-point
//! amplitudes: the device layer maps them to and from the device's native
//! sample formats, and every sample of a nominal full-scale signal stays
//! within the `i32` range, so all arithmetic on them is exact.

use vstd::prelude::*;

verus! {

/// Upper bound on the number of samples a clip may hold, so that sample
/// counts scaled by a sample rate stay well inside `u64` arithmetic.
pub const MAX_SAMPLES: usize = 0x7fff_ffff;

/// Raw mono audio data: an identifier assigned on first save, a display
/// name, a creation timestamp in seconds since the Unix epoch, the samples,
/// and the rate they were taken at.
pub struct AudioClip {
    pub id: Option<usize>,
    pub name: String,
    pub date: i64,
    pub samples: Vec<i32>,
    pub sample_rate: u32,
}

impl AudioClip {
    /// A clip is well formed when its sample rate is positive (a rate of
    /// zero would give it no duration) and its length is within bounds.
    pub open spec fn wf(self) -> bool {
        &&& self.sample_rate > 0
        &&& self.samples@.len() <= MAX_SAMPLES
    }

    /// An empty clip at the given rate, not yet saved.
    pub fn new(name: String, date: i64, sample_rate: u32) -> (c: AudioClip)
        requires
            sample_rate > 0,
        ensures
            c.wf(),
            c.id is None,
            c.name@ == name@,
            c.date == date,
            c.samples@ == Seq::<i32>::empty(),
            c.sample_rate == sample_rate,
    {
        AudioClip { id: None, name, date, samples: Vec::new(), sample_rate }
    }
}

} // verus!
