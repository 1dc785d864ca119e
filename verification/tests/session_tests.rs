use voijix::capture::CaptureSession;
use voijix::clip::AudioClip;
use voijix::playback::PlaybackSession;

fn clip(samples: Vec<i32>, sample_rate: u32) -> AudioClip {
    AudioClip { id: None, name: String::from("take"), date: 0, samples, sample_rate }
}

#[test]
fn capture_lifecycle_accumulates_first_channel() {
    let mut s = CaptureSession::idle();
    s.begin(String::from("take-1"), 1700000000, 44100);
    // two-channel interleaved batches: only channel zero is kept
    s.append(&vec![1, 100, 2, 200], 2);
    s.append(&vec![3, 300, 4, 400], 2);
    let clip = s.take();
    assert_eq!(clip.samples, vec![1, 2, 3, 4]);
    assert_eq!(clip.sample_rate, 44100);
    assert_eq!(clip.name, "take-1");
    assert_eq!(clip.date, 1700000000);
    assert!(clip.id.is_none());
}

#[test]
fn capture_mono_delivery_count_matches_frames() {
    // a fixed run of delivered mono frames: the clip holds exactly as many
    // samples as frames were delivered, at the negotiated rate
    let mut s = CaptureSession::idle();
    s.begin(String::from("mono"), 0, 44100);
    let mut expected = Vec::new();
    let mut total = 0usize;
    for batch in [37usize, 13, 50] {
        let mut data = Vec::new();
        for f in 0..batch {
            data.push((total + f) as i32);
            expected.push((total + f) as i32);
        }
        s.append(&data, 1);
        total += batch;
    }
    let clip = s.take();
    assert_eq!(total, 100);
    assert_eq!(clip.samples.len(), total);
    assert_eq!(clip.samples, expected);
    assert_eq!(clip.sample_rate, 44100);
}

#[test]
fn capture_contended_batch_drops_whole_frames() {
    // a batch whose try-lock failed is never appended: the clip holds the
    // others, whole and in order
    let mut s = CaptureSession::idle();
    s.begin(String::from("lossy"), 0, 8000);
    s.append(&vec![10, 11], 1);
    // the second delivery found the guard held and was dropped
    s.append(&vec![30, 31], 1);
    let clip = s.take();
    assert_eq!(clip.samples, vec![10, 11, 30, 31]);
}

#[test]
fn capture_partial_trailing_frame_is_ignored() {
    let mut s = CaptureSession::idle();
    s.begin(String::from("partial"), 0, 8000);
    // five interleaved values at two channels: two whole frames, one stray
    s.append(&vec![1, 2, 3, 4, 5], 2);
    let clip = s.take();
    assert_eq!(clip.samples, vec![1, 3]);
}

#[test]
fn playback_fills_frames_channel_duplicated() {
    let c = clip(vec![7, -8, 9, 10], 8000);
    let mut p = PlaybackSession::start(&c, 8000);
    let (buf, finished) = p.fill(3, 2);
    assert_eq!(buf, vec![7, 7, -8, -8, 9, 9]);
    assert!(!finished);
}

#[test]
fn playback_past_end_is_silence() {
    let c = clip(vec![7, -8, 9, 10], 8000);
    let mut p = PlaybackSession::start(&c, 8000);
    let (first, finished_first) = p.fill(3, 2);
    assert_eq!(first, vec![7, 7, -8, -8, 9, 9]);
    assert!(!finished_first);
    let (second, finished_second) = p.fill(3, 2);
    // one real frame is left; everything after it is silence on every channel
    assert_eq!(second, vec![10, 10, 0, 0, 0, 0]);
    assert!(finished_second);
}

#[test]
fn playback_completion_fires_only_after_all_samples_requested() {
    let c = clip(vec![1, 2, 3, 4], 8000);
    let mut p = PlaybackSession::start(&c, 8000);
    // requesting exactly the clip's length does not yet pass its end
    let (_, finished) = p.fill(4, 1);
    assert!(!finished);
    let (tail, finished_after) = p.fill(1, 1);
    assert_eq!(tail, vec![0]);
    assert!(finished_after);
}

#[test]
fn playback_completion_repeats_are_reported_again() {
    // the callback may cross the end more than once; each crossing reports
    // completion and the listener ignores the repeats
    let c = clip(vec![1, 2], 8000);
    let mut p = PlaybackSession::start(&c, 8000);
    let (_, first) = p.fill(3, 1);
    assert!(first);
    let (again, second) = p.fill(2, 1);
    assert_eq!(again, vec![0, 0]);
    assert!(second);
}

#[test]
fn playback_resamples_to_device_rate() {
    let c = clip(vec![0, 1000000, -1000000, 500000], 8000);
    let mut p = PlaybackSession::start(&c, 16000);
    let (buf, finished) = p.fill(8, 1);
    assert_eq!(
        buf,
        vec![0, 500000, 1000000, 0, -1000000, -250000, 500000, 250000]
    );
    assert!(!finished);
}

#[test]
fn record_then_play_round_trip() {
    // capture a run of frames, then play the clip back at the same rate:
    // every captured sample comes back in order, then silence
    let mut s = CaptureSession::idle();
    s.begin(String::from("loop"), 0, 8000);
    s.append(&vec![4, 40, 5, 50, 6, 60], 2);
    let clip = s.take();
    assert_eq!(clip.samples, vec![4, 5, 6]);
    let mut p = PlaybackSession::start(&clip, 8000);
    let (buf, finished) = p.fill(4, 2);
    assert_eq!(buf, vec![4, 4, 5, 5, 6, 6, 0, 0]);
    assert!(finished);
}
