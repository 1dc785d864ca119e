//! Capture-side session state.
//!
//! One recording is one pass through an explicit three-stage lifecycle:
//! `Idle` before the stream starts, `Active` while the driver's callback
//! appends samples, `Drained` once the control thread has taken the clip
//! out. The control thread owns the session before `begin` and after
//! `take`; during the active window the callback context alone may append.
//! The caller guards the session with a non-blocking try-lock and simply
//! skips `append` for a frame batch when the guard is contended, so a
//! dropped batch loses its frames silently - the documented lossy policy
//! that keeps the callback free of unbounded waits.

use vstd::prelude::*;
use vstd::arithmetic::div_mod::{lemma_fundamental_div_mod, lemma_mod_bound};
use vstd::arithmetic::mul::{lemma_mul_inequality, lemma_mul_is_commutative};
use crate::clip::{AudioClip, MAX_SAMPLES};

verus! {

/// One sample per frame: channel zero of each frame of an interleaved
/// buffer, in delivery order. A trailing partial frame is ignored.
pub open spec fn first_channel(input: Seq<i32>, channels: int) -> Seq<i32>
    recommends
        0 < channels,
{
    Seq::new((input.len() as int / channels) as nat, |f: int| input[f * channels])
}

/// The lifecycle of one recording.
pub enum CaptureSession {
    Idle,
    Active(AudioClip),
    Drained,
}

impl CaptureSession {
    /// The clip being accumulated, meaningful while the session is active.
    pub open spec fn clip(self) -> AudioClip
        recommends
            self is Active,
    {
        self->Active_0
    }

    /// A session that has not started yet.
    pub fn idle() -> (s: Self)
        ensures
            s is Idle,
    {
        CaptureSession::Idle
    }

    /// Starts the session with an empty clip at the negotiated device rate.
    pub fn begin(&mut self, name: String, date: i64, sample_rate: u32)
        requires
            *old(self) is Idle,
            sample_rate > 0,
        ensures
            *final(self) is Active,
            final(self).clip().wf(),
            final(self).clip().id is None,
            final(self).clip().name@ == name@,
            final(self).clip().date == date,
            final(self).clip().samples@ == Seq::<i32>::empty(),
            final(self).clip().sample_rate == sample_rate,
    {
        *self = CaptureSession::Active(AudioClip::new(name, date, sample_rate));
    }

    /// Appends channel zero of every frame of one delivered batch, in
    /// delivery order, leaving the rest of the clip untouched. The caller
    /// invokes this from the callback context only, and only when its
    /// try-lock on the session succeeded; a contended batch is dropped
    /// whole, never partially.
    #[verifier::loop_isolation(false)]
    pub fn append(&mut self, input: &Vec<i32>, channels: usize)
        requires
            *old(self) is Active,
            old(self).clip().wf(),
            0 < channels,
            old(self).clip().samples@.len() + input@.len() as int / channels as int
                <= MAX_SAMPLES,
        ensures
            *final(self) is Active,
            final(self).clip().wf(),
            final(self).clip().samples@ == old(self).clip().samples@ + first_channel(
                input@,
                channels as int,
            ),
            final(self).clip().samples@.len() == old(self).clip().samples@.len()
                + input@.len() as int / channels as int,
            final(self).clip().id == old(self).clip().id,
            final(self).clip().name@ == old(self).clip().name@,
            final(self).clip().date == old(self).clip().date,
            final(self).clip().sample_rate == old(self).clip().sample_rate,
    {
        let ghost start = old(self).clip().samples@;
        let ghost arriving = first_channel(input@, channels as int);
        match self {
            CaptureSession::Active(clip) => {
                let n: usize = input.len() / channels;
                proof {
                    lemma_fundamental_div_mod(input@.len() as int, channels as int);
                    lemma_mod_bound(input@.len() as int, channels as int);
                }
                let mut f: usize = 0;
                while f < n
                    invariant
                        0 <= f <= n,
                        clip.samples@.len() == start.len() + f,
                        forall|k: int| 0 <= k < start.len() ==> clip.samples@[k] == start[k],
                        forall|k: int|
                            0 <= k < f ==> clip.samples@[start.len() + k] == arriving[k],
                        clip.id == old(self).clip().id,
                        clip.name@ == old(self).clip().name@,
                        clip.date == old(self).clip().date,
                        clip.sample_rate == old(self).clip().sample_rate,
                    decreases n - f,
                {
                    proof {
                        lemma_mul_inequality(f as int, n as int - 1, channels as int);
                        assert((n as int - 1) * channels as int
                            == channels as int * n as int - channels as int) by (nonlinear_arith);
                        lemma_mul_is_commutative(f as int, channels as int);
                    }
                    let sample: i32 = input[f * channels];
                    clip.samples.push(sample);
                    f = f + 1;
                }
                proof {
                    assert(clip.samples@ =~= start + arriving);
                }
            }
            _ => {},
        }
    }

    /// Extracts the accumulated clip, leaving the session drained. The
    /// control thread calls this exactly once, after the stream has been
    /// destroyed, so no further append can race with it.
    pub fn take(&mut self) -> (clip: AudioClip)
        requires
            *old(self) is Active,
        ensures
            *final(self) is Drained,
            clip == old(self).clip(),
    {
        let mut slot = CaptureSession::Drained;
        core::mem::swap(self, &mut slot);
        match slot {
            CaptureSession::Active(clip) => clip,
            _ => vstd::pervasive::unreached(),
        }
    }
}

} // verus!
