use chrono::DateTime;
use std::time::Duration;
use tategoto::audio::{pcm16_duration, plan_resample, should_forward_audio, source_frame_index, AudioBlock};
use tategoto::clock::Timestamp;

fn timestamp(rfc3339: &str) -> Timestamp {
    let t = DateTime::parse_from_rfc3339(rfc3339).unwrap();
    Timestamp::from_parts(t.timestamp(), t.timestamp_subsec_nanos(), t.offset().local_minus_utc())
        .unwrap()
}

#[test]
fn audio_block_tracks_pcm16_duration() {
    let pcm = vec![0_u8; 4_800];
    let block = AudioBlock::new(pcm, timestamp("2026-05-05T09:00:00+09:00"));
    assert_eq!(block.duration_nanos, Duration::from_millis(100).as_nanos());
}

#[test]
fn pcm16_duration_matches_float_seconds() {
    for len in (0..200_000usize).step_by(7) {
        let frames = len / 2;
        let expected = Duration::from_secs_f64(frames as f64 / 24_000_f64).as_nanos();
        assert_eq!(pcm16_duration(&vec![0_u8; len]), expected, "length {len}");
    }
}

#[test]
fn empty_blocks_are_not_forwarded() {
    let now = timestamp("2026-05-05T09:00:00+09:00");
    assert!(!should_forward_audio(&AudioBlock::new(Vec::new(), now)));
    assert!(should_forward_audio(&AudioBlock::new(vec![1, 2], now)));
}

#[test]
fn resample_plan_halves_48khz_stereo() {
    let plan = plan_resample(8, 48_000, 2).unwrap();
    assert_eq!(plan.channels, 2);
    assert_eq!(plan.frames, 4);
    assert_eq!(plan.target_frames * 2, 4);
    assert_eq!(source_frame_index(&plan, 0), 0);
    assert_eq!(source_frame_index(&plan, 1), 2);
}

#[test]
fn resample_plan_edges() {
    assert!(plan_resample(1, 48_000, 2).is_none());
    let mono = plan_resample(3, 16_000, 0).unwrap();
    assert_eq!(mono.channels, 1);
    assert_eq!(mono.target_frames, 4);
    assert_eq!(source_frame_index(&mono, 3), 2);
    let tiny = plan_resample(1, 96_000, 1).unwrap();
    assert_eq!(tiny.target_frames, 1);
    let same = plan_resample(5, 24_000, 1).unwrap();
    assert_eq!(same.target_frames, 5);
    assert_eq!(source_frame_index(&same, 4), 4);
}
