use chrono::{DateTime, FixedOffset};
use std::time::Duration;
use tategoto::audio::AudioBlock;
use tategoto::clock::Timestamp;
use tategoto::realtime::{
    append_audio_message, commit_audio_message, handle_server_event, is_commit_rejected_error,
    realtime_error_message, socket_message_text, validate_access_token, websocket_protocols,
    JsonField, RealtimeError, RealtimeEvent, RealtimeTimeline, ServerEvent, SocketClosed,
    SocketMessage, TokenError,
};
use tategoto::turns::TurnTable;

fn timestamp(rfc3339: &str) -> Timestamp {
    let t = DateTime::parse_from_rfc3339(rfc3339).unwrap();
    Timestamp::from_parts(t.timestamp(), t.timestamp_subsec_nanos(), t.offset().local_minus_utc())
        .unwrap()
}

fn format_timestamp(ts: &Timestamp, pattern: &str) -> String {
    let offset = FixedOffset::east_opt(ts.offset_secs()).unwrap();
    DateTime::from_timestamp(ts.secs(), ts.nanos()).unwrap().with_timezone(&offset).format(pattern).to_string()
}

fn text(s: &str) -> JsonField {
    JsonField::Text(s.to_string())
}

fn event(event_type: JsonField) -> ServerEvent {
    ServerEvent {
        event_type,
        item_id: JsonField::Missing,
        audio_start_ms: JsonField::Missing,
        audio_end_ms: JsonField::Missing,
        previous_item_id: JsonField::Missing,
        transcript: JsonField::Missing,
        text: JsonField::Missing,
        error_message: JsonField::Missing,
        rendered: String::new(),
    }
}

#[test]
fn builds_transcript_segment_from_server_vad_events() {
    let now = timestamp("2026-05-05T09:30:00+09:00");
    let mut timeline = RealtimeTimeline {
        audio_origin: Some(timestamp("2026-05-05T09:00:00+09:00")),
        pending_audio_nanos: Duration::from_millis(2500).as_nanos(),
        turns: TurnTable::new(),
    };

    let mut started = event(text("input_audio_buffer.speech_started"));
    started.item_id = text("item_test");
    started.audio_start_ms = JsonField::Integer(1_000);
    assert!(matches!(
        handle_server_event(&started, "sess_test", &mut timeline, &now).unwrap(),
        RealtimeEvent::Ignored
    ));

    let mut stopped = event(text("input_audio_buffer.speech_stopped"));
    stopped.item_id = text("item_test");
    stopped.audio_end_ms = JsonField::Integer(2_500);
    assert!(matches!(
        handle_server_event(&stopped, "sess_test", &mut timeline, &now).unwrap(),
        RealtimeEvent::Ignored
    ));

    let mut committed = event(text("input_audio_buffer.committed"));
    committed.item_id = text("item_test");
    committed.previous_item_id = text("item_previous");
    assert!(matches!(
        handle_server_event(&committed, "sess_test", &mut timeline, &now).unwrap(),
        RealtimeEvent::Committed
    ));
    assert_eq!(timeline.pending_audio_nanos, Duration::ZERO.as_nanos());

    let mut completed = event(text("conversation.item.input_audio_transcription.completed"));
    completed.item_id = text("item_test");
    completed.transcript = text("  こんにちは  ");
    let RealtimeEvent::TranscriptSegment(segment) =
        handle_server_event(&completed, "sess_test", &mut timeline, &now).unwrap()
    else {
        panic!("expected transcript segment");
    };

    assert_eq!(segment.session_id, "sess_test");
    assert_eq!(segment.item_id, "item_test");
    assert_eq!(segment.previous_item_id, Some("item_previous".to_string()));
    assert_eq!(segment.text, "こんにちは");
    assert_eq!(format_timestamp(&segment.local_start, "%H:%M:%S"), "09:00:01");
    assert_eq!(format_timestamp(&segment.local_end, "%H:%M:%S"), "09:00:02");
}

#[test]
fn tracks_committable_audio_duration() {
    let mut timeline = RealtimeTimeline::new();
    let block = AudioBlock {
        pcm: vec![0; 4_800],
        captured_at: timestamp("2026-05-05T09:00:00+09:00"),
        duration_nanos: Duration::from_millis(100).as_nanos(),
    };

    timeline.record_audio_block(&block);

    assert!(timeline.has_committable_audio());
    let now = timestamp("2026-05-05T10:00:00+09:00");
    assert_eq!(format_timestamp(&timeline.audio_origin(&now), "%H:%M:%S"), "09:00:00");
}

#[test]
fn classifies_too_short_commit_error_as_rejected_commit() {
    let mut timeline = RealtimeTimeline::new();
    let now = timestamp("2026-05-05T09:00:00+09:00");
    let mut error = event(text("error"));
    error.error_message =
        text("Input audio buffer is too small. Expected at least 100ms of audio.");

    let event = handle_server_event(&error, "sess_test", &mut timeline, &now).unwrap();

    assert!(matches!(event, RealtimeEvent::CommitRejected(_)));
}

#[test]
fn other_errors_are_api_errors_with_their_message() {
    let mut timeline = RealtimeTimeline::new();
    let now = timestamp("2026-05-05T09:00:00+09:00");
    let mut error = event(text("error"));
    error.error_message = text("Rate limit reached");
    match handle_server_event(&error, "s", &mut timeline, &now).unwrap() {
        RealtimeEvent::ApiError(m) => assert_eq!(m, "Rate limit reached"),
        other => panic!("unexpected {other:?}"),
    }
}

#[test]
fn error_without_message_reports_whole_event() {
    let mut error = event(text("error"));
    error.rendered = "{\"type\":\"error\"}".to_string();
    assert_eq!(realtime_error_message(&error), "{\"type\":\"error\"}");
}

#[test]
fn commit_rejection_is_case_insensitive_and_needs_buffer() {
    assert!(is_commit_rejected_error("INPUT AUDIO BUFFER IS EMPTY"));
    assert!(is_commit_rejected_error("buffer too small"));
    assert!(is_commit_rejected_error("Buffer has 40 ms, needs 100 ms"));
    assert!(!is_commit_rejected_error("audio is empty"));
    assert!(!is_commit_rejected_error("buffer overflow"));
}

#[test]
fn turn_event_without_item_id_fails_and_changes_nothing() {
    let mut timeline = RealtimeTimeline::new();
    let now = timestamp("2026-05-05T09:00:00+09:00");
    let mut started = event(text("input_audio_buffer.speech_started"));
    started.item_id = JsonField::Integer(3);
    let r = handle_server_event(&started, "s", &mut timeline, &now);
    assert_eq!(r.unwrap_err(), RealtimeError::MissingItemId);
    assert_eq!(RealtimeError::MissingItemId.message(), "Realtime event did not include item_id");
    assert!(!timeline.has_pending_turns());
}

#[test]
fn unknown_and_untyped_events_are_ignored() {
    let mut timeline = RealtimeTimeline::new();
    let now = timestamp("2026-05-05T09:00:00+09:00");
    let r = handle_server_event(&event(text("session.created")), "s", &mut timeline, &now);
    assert!(matches!(r.unwrap(), RealtimeEvent::Ignored));
    let r = handle_server_event(&event(JsonField::Integer(1)), "s", &mut timeline, &now);
    assert!(matches!(r.unwrap(), RealtimeEvent::Ignored));
}

#[test]
fn completed_turn_without_offsets_uses_arrival_time_and_text_field() {
    let mut timeline = RealtimeTimeline::new();
    let now = timestamp("2026-05-05T09:00:07+09:00");
    let mut started = event(text("input_audio_buffer.speech_started"));
    started.item_id = text("a");
    handle_server_event(&started, "s", &mut timeline, &now).unwrap();
    assert!(timeline.has_pending_turns());
    let mut completed = event(text("conversation.item.input_audio_transcription.completed"));
    completed.item_id = text("a");
    completed.text = text(" fallback ");
    let RealtimeEvent::TranscriptSegment(segment) =
        handle_server_event(&completed, "s", &mut timeline, &now).unwrap()
    else {
        panic!("expected transcript segment");
    };
    assert_eq!(segment.text, "fallback");
    assert_eq!(segment.local_start, now);
    assert_eq!(segment.local_end, now);
    assert_eq!(segment.previous_item_id, None);
    assert!(!timeline.has_pending_turns());
}

#[test]
fn null_transcript_gives_empty_text() {
    let mut timeline = RealtimeTimeline::new();
    let now = timestamp("2026-05-05T09:00:07+09:00");
    let mut completed = event(text("conversation.item.input_audio_transcription.completed"));
    completed.item_id = text("a");
    completed.transcript = JsonField::Other;
    completed.text = text("ignored");
    let RealtimeEvent::TranscriptSegment(segment) =
        handle_server_event(&completed, "s", &mut timeline, &now).unwrap()
    else {
        panic!("expected transcript segment");
    };
    assert_eq!(segment.text, "");
}

#[test]
fn client_messages_are_serialized_like_serde_json() {
    let mut object = serde_json::Map::new();
    object.insert("type".to_string(), serde_json::Value::String("input_audio_buffer.append".to_string()));
    object.insert("audio".to_string(), serde_json::Value::String("AAEC".to_string()));
    assert_eq!(append_audio_message(&[0, 1, 2]), serde_json::Value::Object(object).to_string());
    let mut commit = serde_json::Map::new();
    commit.insert("type".to_string(), serde_json::Value::String("input_audio_buffer.commit".to_string()));
    assert_eq!(commit_audio_message(), serde_json::Value::Object(commit).to_string());
    assert_eq!(
        websocket_protocols("sec"),
        "realtime, openai-beta.realtime-v1, openai-insecure-api-key.sec"
    );
}

#[test]
fn blank_access_token_is_refused() {
    assert_eq!(validate_access_token("  \n".to_string()), Err(TokenError::MissingAccessToken));
    assert_eq!(validate_access_token(" tok ".to_string()), Ok(" tok ".to_string()));
}

#[test]
fn socket_messages_by_kind() {
    assert_eq!(socket_message_text(SocketMessage::Text("x".into())), Ok(Some("x".to_string())));
    assert_eq!(socket_message_text(SocketMessage::Close), Err(SocketClosed::Closed));
    assert_eq!(socket_message_text(SocketMessage::Other), Ok(None));
    assert_eq!(SocketClosed::Closed.message(), "Realtime WebSocket closed");
}

#[test]
fn first_block_sets_the_audio_origin() {
    let mut timeline = RealtimeTimeline::new();
    let first = AudioBlock::new(vec![0; 2_400], timestamp("2026-05-05T09:00:00+09:00"));
    let second = AudioBlock::new(vec![0; 2_400], timestamp("2026-05-05T09:00:05+09:00"));
    timeline.record_audio_block(&first);
    assert!(!timeline.has_committable_audio());
    timeline.record_audio_block(&second);
    assert!(timeline.has_committable_audio());
    assert_eq!(timeline.audio_origin, Some(first.captured_at));
    assert_eq!(timeline.pending_audio_nanos, 100_000_000);
    timeline.reset_pending_audio();
    assert!(!timeline.has_committable_audio());
}

#[test]
fn origin_stays_with_the_first_of_many_blocks() {
    let mut timeline = RealtimeTimeline::new();
    let first = timestamp("2026-05-05T09:00:00+09:00");
    for k in 0..10 {
        let at = if k == 0 { first } else { timestamp("2026-05-05T09:30:00+09:00") };
        timeline.record_audio_block(&AudioBlock::new(vec![0; 480], at));
    }
    assert_eq!(timeline.audio_origin, Some(first));
    assert_eq!(timeline.pending_audio_nanos, 100_000_000);
    assert!(timeline.has_committable_audio());
}

#[test]
fn audio_is_sent_as_padded_standard_base64() {
    assert_eq!(append_audio_message(b"Man"), "{\"audio\":\"TWFu\",\"type\":\"input_audio_buffer.append\"}");
    assert_eq!(append_audio_message(b"Ma"), "{\"audio\":\"TWE=\",\"type\":\"input_audio_buffer.append\"}");
    assert_eq!(append_audio_message(&[255, 239]), "{\"audio\":\"/+8=\",\"type\":\"input_audio_buffer.append\"}");
    assert_eq!(append_audio_message(&[]), "{\"audio\":\"\",\"type\":\"input_audio_buffer.append\"}");
}
