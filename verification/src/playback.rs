//! Playback-side session state.
//!
//! A playback session is created once per playback from a clip resampled to
//! the output device's native rate. The driver's callback asks it to fill
//! each output buffer: the sample under the cursor is written to every
//! channel of its frame, the cursor advances one frame at a time, and every
//! frame past the end of the clip is silence. The fill also reports whether
//! the cursor has moved past the end, which the caller forwards as the
//! one-shot completion signal; repeats of that report after later calls are
//! expected and are for the caller to ignore. As on the capture side, the
//! caller guards the session with a try-lock and skips a contended buffer,
//! leaving whatever the device buffer already held.

use vstd::prelude::*;
use vstd::arithmetic::div_mod::lemma_div_multiples_vanish_fancy;
use vstd::arithmetic::mul::{lemma_mul_inequality, lemma_mul_is_distributive_add_other_way};
use crate::clip::{AudioClip, MAX_SAMPLES};
use crate::resample::{out_len, resampled};

verus! {

/// The value played for source position `pos`: the sample there, or
/// silence once the cursor has left the clip.
pub open spec fn held(s: Seq<i32>, pos: int) -> i32 {
    if 0 <= pos < s.len() {
        s[pos]
    } else {
        0i32
    }
}

/// One playback in progress: the resampled samples and the index of the
/// next frame to play. The cursor only ever moves forward.
pub struct PlaybackSession {
    pub samples: Vec<i32>,
    pub cursor: usize,
}

impl PlaybackSession {
    /// A session over `clip` resampled to the output device's rate, with
    /// the cursor at the start.
    pub fn start(clip: &AudioClip, device_rate: u32) -> (p: PlaybackSession)
        requires
            clip.wf(),
            device_rate > 0,
            out_len(clip.samples@.len() as int, clip.sample_rate as int, device_rate as int)
                <= MAX_SAMPLES,
        ensures
            p.cursor == 0,
            p.samples@ == resampled(clip.samples@, clip.sample_rate as int, device_rate as int),
            p.samples@.len() <= MAX_SAMPLES,
    {
        let resampled_clip = clip.resample(device_rate);
        PlaybackSession { samples: resampled_clip.samples, cursor: 0 }
    }

    /// Fills one output buffer of `frames` frames with `channels` samples
    /// each: frame `f` carries the sample at `cursor + f` on every channel,
    /// or silence past the end of the clip. Advances the cursor by `frames`
    /// and reports whether it has now moved past the last sample - the cue
    /// for the completion signal, raised only once at least as many frames
    /// as there are samples have been requested.
    #[verifier::loop_isolation(false)]
    pub fn fill(&mut self, frames: usize, channels: usize) -> (r: (Vec<i32>, bool))
        requires
            0 < channels,
            frames * channels <= usize::MAX,
            old(self).cursor + frames <= usize::MAX,
        ensures
            final(self).samples@ == old(self).samples@,
            final(self).cursor == old(self).cursor + frames,
            r.0@.len() == frames * channels,
            forall|k: int|
                0 <= k < r.0@.len() ==> r.0@[k] == held(
                    old(self).samples@,
                    old(self).cursor + k / (channels as int),
                ),
            r.1 == (old(self).cursor + frames > old(self).samples@.len()),
            r.1 ==> old(self).cursor + frames >= old(self).samples@.len(),
    {
        let mut out: Vec<i32> = Vec::new();
        let mut f: usize = 0;
        while f < frames
            invariant
                0 <= f <= frames,
                out@.len() == f * channels,
                forall|k: int|
                    0 <= k < out@.len() ==> out@[k] == held(
                        self.samples@,
                        self.cursor + k / (channels as int),
                    ),
                self == old(self),
            decreases frames - f,
        {
            proof {
                lemma_mul_is_distributive_add_other_way(channels as int, f as int, 1);
                lemma_mul_inequality(f as int + 1, frames as int, channels as int);
            }
            let v: i32 = if self.cursor + f < self.samples.len() {
                self.samples[self.cursor + f]
            } else {
                0i32
            };
            let mut c: usize = 0;
            while c < channels
                invariant
                    0 <= c <= channels,
                    out@.len() == f * channels + c,
                    forall|k: int|
                        0 <= k < out@.len() ==> out@[k] == held(
                            self.samples@,
                            self.cursor + k / (channels as int),
                        ),
                    v == held(self.samples@, self.cursor + f as int),
                    f < frames,
                    self == old(self),
                decreases channels - c,
            {
                out.push(v);
                proof {
                    lemma_div_multiples_vanish_fancy(f as int, c as int, channels as int);
                    assert(channels as int * f as int == f as int * channels as int);
                    assert((f as int * channels as int + c as int) / channels as int == f as int);
                }
                c = c + 1;
            }
            f = f + 1;
        }
        let finished: bool = self.cursor + frames > self.samples.len();
        self.cursor = self.cursor + frames;
        (out, finished)
    }
}

} // verus!
