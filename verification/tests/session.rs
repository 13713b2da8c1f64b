use chrono::{DateTime, Duration as ChronoDuration};
use tategoto::clock::Timestamp;
use tategoto::session::{
    drain_step, flush_timeout_message, ready_wait_step, speech_event_step, transcript_segment_from_offsets,
    AudioOffset, CaptureTimeline, DrainStep, ReadyWait, SegmentError, SpeechEventKind, SpeechStep,
};

fn timestamp(rfc3339: &str) -> Timestamp {
    let t = DateTime::parse_from_rfc3339(rfc3339).unwrap();
    Timestamp::from_parts(t.timestamp(), t.timestamp_subsec_nanos(), t.offset().local_minus_utc())
        .unwrap()
}

#[test]
fn converts_apple_segment_offsets_to_local_timestamps() {
    let origin_time = DateTime::parse_from_rfc3339("2026-05-05T09:15:00+09:00").unwrap();
    let origin = timestamp("2026-05-05T09:15:00+09:00");
    let segment = transcript_segment_from_offsets(
        "apple-session".to_string(),
        "apple_1".to_string(),
        None,
        "今日の作業を始めます。".to_string(),
        AudioOffset { secs: 2, nanos: 0 },
        AudioOffset { secs: 4, nanos: 500_000_000 },
        &CaptureTimeline::new(origin),
        &origin,
    )
    .unwrap();

    let start = origin_time + ChronoDuration::seconds(2);
    let end = origin_time + ChronoDuration::milliseconds(4_500);
    assert_eq!(segment.local_start.secs(), start.timestamp());
    assert_eq!(segment.local_start.nanos(), start.timestamp_subsec_nanos());
    assert_eq!(segment.local_end.secs(), end.timestamp());
    assert_eq!(segment.local_end.nanos(), end.timestamp_subsec_nanos());
    assert_eq!(segment.local_end.offset_secs(), 9 * 3600);
}

#[test]
fn out_of_range_offset_is_an_error() {
    let origin = timestamp("2026-05-05T09:15:00+09:00");
    let r = transcript_segment_from_offsets(
        "s".to_string(),
        "i".to_string(),
        None,
        "t".to_string(),
        AudioOffset { secs: u64::MAX, nanos: 0 },
        AudioOffset { secs: 0, nanos: 0 },
        &CaptureTimeline::new(origin),
        &origin,
    );
    assert_eq!(r.unwrap_err(), SegmentError::OffsetOutOfRange);
}

#[test]
fn waiting_for_ready() {
    assert!(matches!(ready_wait_step(SpeechEventKind::Ready), ReadyWait::Ready));
    assert!(matches!(ready_wait_step(SpeechEventKind::Segment), ReadyWait::KeepWaiting));
    match ready_wait_step(SpeechEventKind::Error("denied".into())) {
        ReadyWait::Fail(m) => assert_eq!(m, "denied"),
        _ => panic!("expected failure"),
    }
    match ready_wait_step(SpeechEventKind::Stopped) {
        ReadyWait::Fail(m) => assert_eq!(m, "Apple SpeechTranscriber stopped before ready"),
        _ => panic!("expected failure"),
    }
}

#[test]
fn handling_and_draining_events() {
    assert!(matches!(speech_event_step(SpeechEventKind::Segment), SpeechStep::WriteSegment));
    assert!(matches!(speech_event_step(SpeechEventKind::Ready), SpeechStep::Nothing));
    assert!(matches!(speech_event_step(SpeechEventKind::Stopped), SpeechStep::Nothing));
    match speech_event_step(SpeechEventKind::Error("boom".into())) {
        SpeechStep::Fail(m) => assert_eq!(m, "Apple SpeechTranscriber error: boom"),
        _ => panic!("expected failure"),
    }
    assert!(matches!(drain_step(SpeechEventKind::Stopped), DrainStep::Finished));
    assert!(matches!(drain_step(SpeechEventKind::Segment), DrainStep::Handle(SpeechStep::WriteSegment)));
    assert!(flush_timeout_message().contains("10秒以内"));
}

#[test]
fn offsets_follow_the_capture_time_of_their_block() {
    let before_sleep = timestamp("2026-05-05T09:15:00+09:00");
    let after_wake = timestamp("2026-05-05T10:00:00+09:00");
    let mut timeline = CaptureTimeline::new(before_sleep);
    assert!(timeline.record_block(before_sleep, 10_000_000_000));
    assert!(timeline.record_block(after_wake, 10_000_000_000));
    let segment = transcript_segment_from_offsets(
        "apple-session".to_string(),
        "apple_2".to_string(),
        Some("apple_1".to_string()),
        "おはようございます。".to_string(),
        AudioOffset { secs: 3, nanos: 0 },
        AudioOffset { secs: 12, nanos: 500_000_000 },
        &timeline,
        &after_wake,
    )
    .unwrap();
    let start = DateTime::parse_from_rfc3339("2026-05-05T09:15:03+09:00").unwrap();
    let end = DateTime::parse_from_rfc3339("2026-05-05T10:00:02.5+09:00").unwrap();
    assert_eq!(segment.local_start.secs(), start.timestamp());
    assert_eq!(segment.local_end.secs(), end.timestamp());
    assert_eq!(segment.local_end.nanos(), 500_000_000);
    assert_eq!(segment.local_end.offset_secs(), 9 * 3600);
}

#[test]
fn offset_past_the_recorded_audio_counts_from_the_last_block() {
    let first = timestamp("2026-05-05T09:15:00+09:00");
    let mut timeline = CaptureTimeline::new(first);
    assert!(timeline.record_block(first, 1_000_000_000));
    let local = timeline.local_time_at(AudioOffset { secs: 5, nanos: 0 }).unwrap();
    assert_eq!(local.secs(), first.secs() + 5);
}

#[test]
fn overflowing_block_is_not_recorded() {
    let first = timestamp("2026-05-05T09:15:00+09:00");
    let mut timeline = CaptureTimeline::new(first);
    assert!(timeline.record_block(first, u128::MAX));
    assert!(!timeline.record_block(first, 1));
}
