use voijix::clip::AudioClip;

fn clip(samples: Vec<i32>, sample_rate: u32) -> AudioClip {
    AudioClip { id: None, name: String::from("test"), date: 0, samples, sample_rate }
}

#[test]
fn resample_identity_returns_value_equal_clip() {
    let c = clip(vec![5, -7, 9, 0, 12345], 44100);
    let out = c.resample(44100);
    assert_eq!(out.samples, vec![5, -7, 9, 0, 12345]);
    assert_eq!(out.sample_rate, 44100);
    assert_eq!(out.name, "test");
    assert_eq!(out.date, 0);
    assert!(out.id.is_none());
}

#[test]
fn resample_doubling_rate_interpolates_midpoints() {
    let c = clip(vec![0, 1000000, -1000000, 500000], 8000);
    let out = c.resample(16000);
    assert_eq!(out.sample_rate, 16000);
    assert_eq!(out.samples.len(), 4 * 16000 / 8000);
    assert_eq!(
        out.samples,
        vec![0, 500000, 1000000, 0, -1000000, -250000, 500000, 250000]
    );
}

#[test]
fn resample_length_law_truncates() {
    let c = clip(vec![10, 20, 30, 40, 50], 8000);
    let out = c.resample(11025);
    // floor(5 * 11025 / 8000) = floor(6.89) = 6
    assert_eq!(out.samples.len(), 6);
}

#[test]
fn resample_halving_rate_keeps_every_other_sample() {
    let c = clip(vec![0, 1000000, -1000000, 500000], 16000);
    let out = c.resample(8000);
    assert_eq!(out.samples, vec![0, -1000000]);
}

#[test]
fn resample_empty_clip_stays_empty() {
    let c = clip(Vec::new(), 8000);
    let out = c.resample(48000);
    assert_eq!(out.samples.len(), 0);
    assert_eq!(out.sample_rate, 48000);
}

#[test]
fn resample_single_sample_blends_toward_silence() {
    let c = clip(vec![1000000], 4000);
    let out = c.resample(8000);
    // the second output sample falls halfway between the only sample and
    // the missing neighbour, which counts as silence
    assert_eq!(out.samples, vec![1000000, 500000]);
}

#[test]
fn resample_double_rate_length_within_truncation_bound() {
    let c = clip(vec![1, 2, 3, 4, 5], 8000);
    let once = c.resample(12000).samples.len();
    let twice = c.resample(24000).samples.len();
    assert!(2 * once <= twice);
    assert!(twice <= 2 * once + 1);
    assert_eq!(once, 7);
    assert_eq!(twice, 15);
}

#[test]
fn resample_preserves_identity_fields() {
    let mut c = clip(vec![1, 2, 3], 8000);
    c.id = Some(7);
    c.date = 1700000000;
    let out = c.resample(16000);
    assert_eq!(out.id, Some(7));
    assert_eq!(out.date, 1700000000);
    assert_eq!(out.name, "test");
}
