//! The Realtime transcription timeline: pending audio, per-turn timing, and
//! how each server event changes them.

use vstd::prelude::*;

use base64::{engine::general_purpose::STANDARD, Engine};

use crate::audio::AudioBlock;
use crate::clock::{audio_offset_time, audio_offset_to_local_time, offset_time_facts, Timestamp};
use crate::text::{ascii_lower, chars_of, contains_chars, contains_spec, to_ascii_lowercase, trim, trim_spec};
use crate::transcript::{TranscriptSegment, TranscriptSegmentView};
use crate::turns::{turn_or_empty, TurnTable, TurnTiming, TurnTimingView};

verus! {

/// The least pending audio that the server accepts in a commit: 100 ms.
pub const MIN_COMMIT_AUDIO_NANOS: u128 = 100_000_000;

/// The largest duration `std::time::Duration` holds, in nanoseconds.
pub const MAX_DURATION_NANOS: u128 = 18_446_744_073_709_551_615_999_999_999;

/// A member of a JSON object as the event handler reads it.
#[derive(Debug)]
pub enum JsonField {
    /// The member is absent (or the value is not an object).
    Missing,
    /// A JSON string.
    Text(String),
    /// A JSON number that fits in `i64`.
    Integer(i64),
    /// Any other JSON value, `null` among them.
    Other,
}

/// The mathematical value of a [`JsonField`].
pub enum JsonFieldView {
    Missing,
    Text(Seq<char>),
    Integer(i64),
    Other,
}

impl View for JsonField {
    type V = JsonFieldView;

    open spec fn view(&self) -> JsonFieldView {
        match self {
            JsonField::Missing => JsonFieldView::Missing,
            JsonField::Text(s) => JsonFieldView::Text(s@),
            JsonField::Integer(i) => JsonFieldView::Integer(*i),
            JsonField::Other => JsonFieldView::Other,
        }
    }
}

/// The string a field holds, as `Value::as_str` gives it.
pub open spec fn field_text(f: JsonFieldView) -> Option<Seq<char>> {
    match f {
        JsonFieldView::Text(s) => Some(s),
        _ => None,
    }
}

/// The integer a field holds, as `Value::as_i64` gives it.
pub open spec fn field_integer(f: JsonFieldView) -> Option<i64> {
    match f {
        JsonFieldView::Integer(i) => Some(i),
        _ => None,
    }
}

impl JsonField {
    /// The string this field holds.
    pub fn as_text(&self) -> (r: Option<&String>)
        ensures
            match r {
                Some(s) => field_text(self@) == Some(s@),
                None => field_text(self@) is None,
            },
    {
        match self {
            JsonField::Text(s) => Some(s),
            _ => None,
        }
    }

    /// The integer this field holds.
    pub fn as_integer(&self) -> (r: Option<i64>)
        ensures
            r == field_integer(self@),
    {
        match self {
            JsonField::Integer(i) => Some(*i),
            _ => None,
        }
    }

    /// Whether the member is present at all.
    pub fn is_present(&self) -> (r: bool)
        ensures
            r <==> !(self@ is Missing),
    {
        !matches!(self, JsonField::Missing)
    }
}

/// The members of a Realtime server event that the handler reads.
#[derive(Debug)]
pub struct ServerEvent {
    /// `type`
    pub event_type: JsonField,
    /// `item_id`
    pub item_id: JsonField,
    /// `audio_start_ms`
    pub audio_start_ms: JsonField,
    /// `audio_end_ms`
    pub audio_end_ms: JsonField,
    /// `previous_item_id`
    pub previous_item_id: JsonField,
    /// `transcript`
    pub transcript: JsonField,
    /// `text`
    pub text: JsonField,
    /// `error.message`
    pub error_message: JsonField,
    /// The whole event serialized back to JSON text.
    pub rendered: String,
}

/// The mathematical value of a [`ServerEvent`].
pub struct ServerEventView {
    pub event_type: JsonFieldView,
    pub item_id: JsonFieldView,
    pub audio_start_ms: JsonFieldView,
    pub audio_end_ms: JsonFieldView,
    pub previous_item_id: JsonFieldView,
    pub transcript: JsonFieldView,
    pub text: JsonFieldView,
    pub error_message: JsonFieldView,
    pub rendered: Seq<char>,
}

impl View for ServerEvent {
    type V = ServerEventView;

    open spec fn view(&self) -> ServerEventView {
        ServerEventView {
            event_type: self.event_type@,
            item_id: self.item_id@,
            audio_start_ms: self.audio_start_ms@,
            audio_end_ms: self.audio_end_ms@,
            previous_item_id: self.previous_item_id@,
            transcript: self.transcript@,
            text: self.text@,
            error_message: self.error_message@,
            rendered: self.rendered@,
        }
    }
}

/// Where the pending audio and the turns of a Realtime session stand.
pub struct RealtimeTimeline {
    /// When the first audio block of the session was captured.
    pub audio_origin: Option<Timestamp>,
    /// Audio appended since the last commit, in nanoseconds.
    pub pending_audio_nanos: u128,
    /// Turns that the server reported and that were not transcribed yet.
    pub turns: TurnTable,
}

/// The mathematical value of a [`RealtimeTimeline`].
pub struct RealtimeTimelineView {
    pub audio_origin: Option<Timestamp>,
    pub pending_audio_nanos: u128,
    pub turns: Map<Seq<char>, TurnTimingView>,
}

impl View for RealtimeTimeline {
    type V = RealtimeTimelineView;

    open spec fn view(&self) -> RealtimeTimelineView {
        RealtimeTimelineView {
            audio_origin: self.audio_origin,
            pending_audio_nanos: self.pending_audio_nanos,
            turns: self.turns@,
        }
    }
}

/// What handling one server event reports.
#[derive(Debug)]
pub enum RealtimeEvent {
    TranscriptSegment(TranscriptSegment),
    Committed,
    CommitRejected(String),
    ApiError(String),
    Ignored,
}

/// The mathematical value of a [`RealtimeEvent`].
pub enum RealtimeEventView {
    TranscriptSegment(TranscriptSegmentView),
    Committed,
    CommitRejected(Seq<char>),
    ApiError(Seq<char>),
    Ignored,
}

impl View for RealtimeEvent {
    type V = RealtimeEventView;

    open spec fn view(&self) -> RealtimeEventView {
        match self {
            RealtimeEvent::TranscriptSegment(s) => RealtimeEventView::TranscriptSegment(s@),
            RealtimeEvent::Committed => RealtimeEventView::Committed,
            RealtimeEvent::CommitRejected(m) => RealtimeEventView::CommitRejected(m@),
            RealtimeEvent::ApiError(m) => RealtimeEventView::ApiError(m@),
            RealtimeEvent::Ignored => RealtimeEventView::Ignored,
        }
    }
}

/// Why a server event could not be handled.
#[derive(Debug, PartialEq, Eq, Clone, Copy)]
pub enum RealtimeError {
    /// A turn event came without an `item_id` string.
    MissingItemId,
}

impl RealtimeError {
    /// The message the error is reported with.
    pub fn message(&self) -> (r: String)
        ensures
            r@ == "Realtime event did not include item_id"@,
    {
        String::from_str("Realtime event did not include item_id")
    }
}


/// A fresh timeline: no audio, nothing pending, no turns.
pub open spec fn initial_timeline() -> RealtimeTimelineView {
    RealtimeTimelineView {
        audio_origin: None,
        pending_audio_nanos: 0,
        turns: Map::empty(),
    }
}

/// The timeline after an audio block was sent: the origin is set by the first
/// block and kept afterwards, and the block's duration is pending.
pub open spec fn after_audio_block(tl: RealtimeTimelineView, captured_at: Timestamp, duration_nanos: u128) -> RealtimeTimelineView {
    RealtimeTimelineView {
        audio_origin: match tl.audio_origin {
            Some(t) => Some(t),
            None => Some(captured_at),
        },
        pending_audio_nanos: (tl.pending_audio_nanos + duration_nanos) as u128,
        turns: tl.turns,
    }
}

/// Enough audio is pending for a commit.
pub open spec fn committable(tl: RealtimeTimelineView) -> bool {
    tl.pending_audio_nanos >= MIN_COMMIT_AUDIO_NANOS
}

/// The instant the session's audio is measured from.
pub open spec fn origin_or(tl: RealtimeTimelineView, now: Timestamp) -> Timestamp {
    match tl.audio_origin {
        Some(t) => t,
        None => now,
    }
}

impl RealtimeTimeline {
    /// A fresh timeline.
    pub fn new() -> (r: RealtimeTimeline)
        ensures
            r@ == initial_timeline(),
    {
        RealtimeTimeline { audio_origin: None, pending_audio_nanos: 0, turns: TurnTable::new() }
    }

    /// Accounts for an audio block sent to the server.
    pub fn record_audio_block(&mut self, block: &AudioBlock)
        requires
            old(self).pending_audio_nanos + block.duration_nanos <= MAX_DURATION_NANOS,
        ensures
            final(self)@ == after_audio_block(old(self)@, block.captured_at, block.duration_nanos),
    {
        if self.audio_origin.is_none() {
            self.audio_origin = Some(block.captured_at);
        }
        self.pending_audio_nanos = self.pending_audio_nanos + block.duration_nanos;
    }

    /// Whether at least 100 ms of audio is pending.
    pub fn has_committable_audio(&self) -> (r: bool)
        ensures
            r == committable(self@),
    {
        self.pending_audio_nanos >= MIN_COMMIT_AUDIO_NANOS
    }

    /// Whether some turn still waits for its transcript.
    pub fn has_pending_turns(&self) -> (r: bool)
        ensures
            r <==> self@.turns.dom() != Set::<Seq<char>>::empty(),
    {
        !self.turns.is_empty()
    }

    /// Forgets the pending audio (after a commit).
    pub fn reset_pending_audio(&mut self)
        ensures
            final(self)@ == (RealtimeTimelineView { pending_audio_nanos: 0, ..old(self)@ }),
    {
        self.pending_audio_nanos = 0;
    }

    /// The instant of the first audio block, or `now` before any.
    pub fn audio_origin(&self, now: &Timestamp) -> (r: Timestamp)
        ensures
            r == origin_or(self@, *now),
    {
        match self.audio_origin {
            Some(t) => t,
            None => *now,
        }
    }
}

/// Whether a server error message says that the commit had too little audio:
/// it mentions the buffer and that it was empty or under 100 ms, in any ASCII case.
pub open spec fn commit_rejected_message(message: Seq<char>) -> bool {
    let m = ascii_lower(message);
    contains_spec(m, "buffer"@) && (contains_spec(m, "empty"@) || contains_spec(m, "too small"@)
        || contains_spec(m, "100 ms"@) || contains_spec(m, "100ms"@) || contains_spec(m, "at least 100"@))
}

/// Whether a server error rejected a commit for having too little audio.
pub fn is_commit_rejected_error(message: &str) -> (r: bool)
    ensures
        r == commit_rejected_message(message@),
{
    let m = to_ascii_lowercase(message);
    let buffer = chars_of("buffer");
    let empty = chars_of("empty");
    let too_small = chars_of("too small");
    let spaced = chars_of("100 ms");
    let joined = chars_of("100ms");
    let at_least = chars_of("at least 100");
    contains_chars(&m, &buffer) && (contains_chars(&m, &empty) || contains_chars(&m, &too_small)
        || contains_chars(&m, &spaced) || contains_chars(&m, &joined) || contains_chars(&m, &at_least))
}

/// The message of an `error` event: `error.message`, or the whole event as JSON.
pub open spec fn error_message_of(ev: ServerEventView) -> Seq<char> {
    match field_text(ev.error_message) {
        Some(m) => m,
        None => ev.rendered,
    }
}

/// The message of an `error` event.
pub fn realtime_error_message(event: &ServerEvent) -> (r: String)
    ensures
        r@ == error_message_of(event@),
{
    match event.error_message.as_text() {
        Some(m) => m.clone(),
        None => event.rendered.clone(),
    }
}

/// The `item_id` of a turn event.
pub fn event_item_id(event: &ServerEvent) -> (r: Result<String, RealtimeError>)
    ensures
        match r {
            Ok(id) => field_text(event@.item_id) == Some(id@),
            Err(e) => field_text(event@.item_id) is None && e == RealtimeError::MissingItemId,
        },
{
    match event.item_id.as_text() {
        Some(id) => Ok(id.clone()),
        None => Err(RealtimeError::MissingItemId),
    }
}

/// The transcript of a `completed` event: `transcript`, or `text` when
/// `transcript` is absent, trimmed; empty when it is not a string.
pub open spec fn completed_text(ev: ServerEventView) -> Seq<char> {
    let chosen = if ev.transcript is Missing { ev.text } else { ev.transcript };
    trim_spec(
        match field_text(chosen) {
            Some(s) => s,
            None => Seq::empty(),
        },
    )
}

/// Event type names.
pub open spec fn speech_started_type() -> Seq<char> {
    "input_audio_buffer.speech_started"@
}

pub open spec fn speech_stopped_type() -> Seq<char> {
    "input_audio_buffer.speech_stopped"@
}

pub open spec fn committed_type() -> Seq<char> {
    "input_audio_buffer.committed"@
}

pub open spec fn completed_type() -> Seq<char> {
    "conversation.item.input_audio_transcription.completed"@
}

pub open spec fn error_type() -> Seq<char> {
    "error"@
}

/// The timeline with the turn `id` replaced by `t`.
pub open spec fn with_turn(tl: RealtimeTimelineView, id: Seq<char>, t: TurnTimingView) -> RealtimeTimelineView {
    RealtimeTimelineView { turns: tl.turns.insert(id, t), ..tl }
}

/// What one server event reports and the timeline it leaves.
///
/// - `speech_started` / `speech_stopped` record the start / end offset of the turn
///   (absent or non-integer offsets record none) and report nothing;
/// - `committed` records the previous item id, forgets the pending audio and reports
///   the commit;
/// - `completed` forgets the turn and reports its segment: trimmed text, local times
///   from the turn's offsets measured from the audio origin;
/// - `error` reports a rejected commit or an API error, by its message;
/// - anything else is ignored.
///
/// The four turn events fail, changing nothing, without an `item_id` string.
pub open spec fn server_event_outcome(
    ev: ServerEventView,
    session_id: Seq<char>,
    tl: RealtimeTimelineView,
    now: Timestamp,
) -> (Result<RealtimeEventView, RealtimeError>, RealtimeTimelineView) {
    let kind = field_text(ev.event_type);
    if kind == Some(speech_started_type()) || kind == Some(speech_stopped_type()) || kind == Some(committed_type())
        || kind == Some(completed_type()) {
        match field_text(ev.item_id) {
            None => (Err(RealtimeError::MissingItemId), tl),
            Some(id) => {
                let old_turn = turn_or_empty(tl.turns, id);
                if kind == Some(speech_started_type()) {
                    (Ok(RealtimeEventView::Ignored), with_turn(tl, id, TurnTimingView { start_ms: field_integer(ev.audio_start_ms), ..old_turn }))
                } else if kind == Some(speech_stopped_type()) {
                    (Ok(RealtimeEventView::Ignored), with_turn(tl, id, TurnTimingView { end_ms: field_integer(ev.audio_end_ms), ..old_turn }))
                } else if kind == Some(committed_type()) {
                    (Ok(RealtimeEventView::Committed), with_turn(RealtimeTimelineView { pending_audio_nanos: 0, ..tl }, id, TurnTimingView { previous_item_id: field_text(ev.previous_item_id), ..old_turn }))
                } else {
                    let origin = origin_or(tl, now);
                    let segment = TranscriptSegmentView {
                        local_start: audio_offset_time(origin, old_turn.start_ms, now),
                        local_end: audio_offset_time(origin, old_turn.end_ms, now),
                        session_id: session_id,
                        item_id: id,
                        previous_item_id: old_turn.previous_item_id,
                        text: completed_text(ev),
                        received_at: now,
                    };
                    (Ok(RealtimeEventView::TranscriptSegment(segment)), RealtimeTimelineView { turns: tl.turns.remove(id), ..tl })
                }
            },
        }
    } else if kind == Some(error_type()) {
        let message = error_message_of(ev);
        if commit_rejected_message(message) {
            (Ok(RealtimeEventView::CommitRejected(message)), tl)
        } else {
            (Ok(RealtimeEventView::ApiError(message)), tl)
        }
    } else {
        (Ok(RealtimeEventView::Ignored), tl)
    }
}

/// What is known of the moments a completed turn's segment is placed at: each
/// offset of the turn measured from the audio origin, as `offset_time_facts` says.
pub open spec fn completed_times_facts(s: TranscriptSegmentView, ev: ServerEventView, tl: RealtimeTimelineView, now: Timestamp) -> bool {
    let turn = turn_or_empty(tl.turns, field_text(ev.item_id).unwrap());
    let origin = origin_or(tl, now);
    offset_time_facts(s.local_start, origin, turn.start_ms, now) && offset_time_facts(s.local_end, origin, turn.end_ms, now)
}

/// The view of a handler result.
pub open spec fn outcome_view(r: Result<RealtimeEvent, RealtimeError>) -> Result<RealtimeEventView, RealtimeError> {
    match r {
        Ok(e) => Ok(e@),
        Err(e) => Err(e),
    }
}

/// Handles one Realtime server event; `now` is the time it arrived.
pub fn handle_server_event(
    event: &ServerEvent,
    session_id: &str,
    timeline: &mut RealtimeTimeline,
    now: &Timestamp,
) -> (r: Result<RealtimeEvent, RealtimeError>)
    ensures
        (outcome_view(r), final(timeline)@) == server_event_outcome(event@, session_id@, old(timeline)@, *now),
        r matches Ok(RealtimeEvent::TranscriptSegment(s)) ==> completed_times_facts(s@, event@, old(timeline)@, *now),
{
    let started = String::from_str("input_audio_buffer.speech_started");
    let stopped = String::from_str("input_audio_buffer.speech_stopped");
    let committed = String::from_str("input_audio_buffer.committed");
    let completed = String::from_str("conversation.item.input_audio_transcription.completed");
    let error = String::from_str("error");
    let kind = match event.event_type.as_text() {
        Some(t) => t,
        None => {
            return Ok(RealtimeEvent::Ignored);
        },
    };
    if *kind == started || *kind == stopped || *kind == committed || *kind == completed {
        let id = match event_item_id(event) {
            Ok(id) => id,
            Err(e) => {
                return Err(e);
            },
        };
        let mut timing = match timeline.turns.get(&id) {
            Some(t) => t,
            None => TurnTiming::new(),
        };
        if *kind == started {
            timing.start_ms = event.audio_start_ms.as_integer();
            timeline.turns.insert(id, timing);
            Ok(RealtimeEvent::Ignored)
        } else if *kind == stopped {
            timing.end_ms = event.audio_end_ms.as_integer();
            timeline.turns.insert(id, timing);
            Ok(RealtimeEvent::Ignored)
        } else if *kind == committed {
            timeline.reset_pending_audio();
            timing.previous_item_id = match event.previous_item_id.as_text() {
                Some(p) => Some(p.clone()),
                None => None,
            };
            timeline.turns.insert(id, timing);
            Ok(RealtimeEvent::Committed)
        } else {
            let _ = timeline.turns.remove(&id);
            let chosen = if event.transcript.is_present() {
                &event.transcript
            } else {
                &event.text
            };
            let empty = String::new();
            let raw = match chosen.as_text() {
                Some(s) => s,
                None => &empty,
            };
            let text = trim(raw.as_str());
            let origin = timeline.audio_origin(now);
            let local_start = audio_offset_to_local_time(&origin, timing.start_ms, now);
            let local_end = audio_offset_to_local_time(&origin, timing.end_ms, now);
            Ok(
                RealtimeEvent::TranscriptSegment(
                    TranscriptSegment {
                        local_start,
                        local_end,
                        session_id: String::from_str(session_id),
                        item_id: id,
                        previous_item_id: timing.previous_item_id,
                        text,
                        received_at: *now,
                    },
                ),
            )
        }
    } else if *kind == error {
        let message = realtime_error_message(event);
        if is_commit_rejected_error(message.as_str()) {
            Ok(RealtimeEvent::CommitRejected(message))
        } else {
            Ok(RealtimeEvent::ApiError(message))
        }
    } else {
        Ok(RealtimeEvent::Ignored)
    }
}


/// The character of the standard base64 alphabet for the 6-bit value `v`.
pub open spec fn base64_digit(v: int) -> char {
    if v < 26 {
        ('A' as int + v) as char
    } else if v < 52 {
        ('a' as int + (v - 26)) as char
    } else if v < 62 {
        ('0' as int + (v - 52)) as char
    } else if v == 62 {
        '+'
    } else {
        '/'
    }
}

/// Standard padded base64 (RFC 4648): each group of three bytes becomes four
/// characters of six bits each; a last group of one or two bytes is padded
/// with zero bits and `=`.
pub open spec fn base64_standard(bytes: Seq<u8>) -> Seq<char>
    decreases bytes.len(),
{
    if bytes.len() == 0 {
        Seq::empty()
    } else if bytes.len() == 1 {
        let n = bytes[0] as int;
        seq![base64_digit(n / 4), base64_digit((n % 4) * 16), '=', '=']
    } else if bytes.len() == 2 {
        let n = bytes[0] as int * 256 + bytes[1] as int;
        seq![base64_digit(n / 1024), base64_digit((n / 16) % 64), base64_digit((n % 16) * 4), '=']
    } else {
        let n = bytes[0] as int * 65536 + bytes[1] as int * 256 + bytes[2] as int;
        seq![base64_digit(n / 262144), base64_digit((n / 4096) % 64), base64_digit((n / 64) % 64), base64_digit(n % 64)]
            + base64_standard(bytes.subrange(3, bytes.len() as int))
    }
}


/// Encodes with `STANDARD.encode` from the `base64` crate: standard alphabet,
/// with padding.
#[verifier::external_body]
fn base64_encode(bytes: &[u8]) -> (r: String)
    ensures
        r@ == base64_standard(bytes@),
{
    STANDARD.encode(bytes)
}

/// The client event that appends audio: a JSON object with the base64 audio and
/// the type `input_audio_buffer.append`, keys in sorted order as `serde_json`
/// writes a `json!` object.
pub open spec fn append_message_text(pcm: Seq<u8>) -> Seq<char> {
    "{\"audio\":\""@ + base64_standard(pcm) + "\",\"type\":\"input_audio_buffer.append\"}"@
}

/// The client event that appends `pcm` to the server's input buffer.
pub fn append_audio_message(pcm: &[u8]) -> (r: String)
    ensures
        r@ == append_message_text(pcm@),
{
    let audio = base64_encode(pcm);
    String::from_str("{\"audio\":\"").concat(audio.as_str()).concat("\",\"type\":\"input_audio_buffer.append\"}")
}

/// The client event that commits the input buffer.
pub fn commit_audio_message() -> (r: String)
    ensures
        r@ == "{\"type\":\"input_audio_buffer.commit\"}"@,
{
    String::from_str("{\"type\":\"input_audio_buffer.commit\"}")
}

/// The WebSocket subprotocols a transcription session connects with: the
/// beta Realtime protocol and the session's client secret.
pub fn websocket_protocols(client_secret: &str) -> (r: String)
    ensures
        r@ == "realtime, openai-beta.realtime-v1, openai-insecure-api-key."@ + client_secret@,
{
    String::from_str("realtime, openai-beta.realtime-v1, openai-insecure-api-key.").concat(client_secret)
}

/// Why the saved ChatGPT credentials cannot be used.
#[derive(Debug, Clone, Copy, PartialEq, Eq, Structural)]
pub enum TokenError {
    /// `tokens.access_token` is blank.
    MissingAccessToken,
}

impl TokenError {
    /// The message the error is reported with.
    pub fn message(&self) -> (r: String)
        ensures
            r@ == "~/.codex/auth.json does not contain tokens.access_token"@,
    {
        String::from_str("~/.codex/auth.json does not contain tokens.access_token")
    }
}

/// Accepts an access token unless it is blank; the token is kept as it is.
pub fn validate_access_token(token: String) -> (r: Result<String, TokenError>)
    ensures
        match r {
            Ok(t) => t@ == token@ && trim_spec(token@).len() > 0,
            Err(e) => trim_spec(token@).len() == 0 && e == TokenError::MissingAccessToken,
        },
{
    let trimmed = trim(token.as_str());
    if trimmed.as_str().is_empty() {
        Err(TokenError::MissingAccessToken)
    } else {
        Ok(token)
    }
}

/// A message received on the Realtime WebSocket, by kind.
#[derive(Debug)]
pub enum SocketMessage {
    Text(String),
    Close,
    Other,
}

/// Why the Realtime WebSocket cannot deliver events any more.
#[derive(Debug, Clone, Copy, PartialEq, Eq, Structural)]
pub enum SocketClosed {
    Closed,
}

impl SocketClosed {
    /// The message the error is reported with.
    pub fn message(&self) -> (r: String)
        ensures
            r@ == "Realtime WebSocket closed"@,
    {
        String::from_str("Realtime WebSocket closed")
    }
}

/// What a received message means: a text frame carries an event, a close frame
/// ends the session, other frames are skipped (`None`).
pub fn socket_message_text(message: SocketMessage) -> (r: Result<Option<String>, SocketClosed>)
    ensures
        match message {
            SocketMessage::Text(t) => r matches Ok(Some(u)) && u@ == t@,
            SocketMessage::Close => r == Err::<Option<String>, SocketClosed>(SocketClosed::Closed),
            SocketMessage::Other => r matches Ok(None),
        },
{
    match message {
        SocketMessage::Text(t) => Ok(Some(t)),
        SocketMessage::Close => Err(SocketClosed::Closed),
        SocketMessage::Other => Ok(None),
    }
}


/// The timeline after the blocks `blocks` (capture time, duration) were sent in turn.
pub open spec fn after_audio_blocks(tl: RealtimeTimelineView, blocks: Seq<(Timestamp, u128)>) -> RealtimeTimelineView
    decreases blocks.len(),
{
    if blocks.len() == 0 {
        tl
    } else {
        let last = blocks.last();
        after_audio_block(after_audio_blocks(tl, blocks.drop_last()), last.0, last.1)
    }
}

/// The summed duration of `blocks`, in nanoseconds.
pub open spec fn blocks_duration(blocks: Seq<(Timestamp, u128)>) -> int
    decreases blocks.len(),
{
    if blocks.len() == 0 {
        0
    } else {
        blocks_duration(blocks.drop_last()) + blocks.last().1
    }
}

/// However many blocks are sent, the audio origin is the capture time of the
/// session's first block and later blocks do not move it; the pending audio
/// grows by each block's duration, so a commit is possible exactly when the
/// blocks since the last commit add up to at least 100 ms; the turns are not
/// touched.
pub proof fn lemma_origin_set_once(tl: RealtimeTimelineView, blocks: Seq<(Timestamp, u128)>)
    requires
        tl.pending_audio_nanos + blocks_duration(blocks) <= MAX_DURATION_NANOS,
    ensures
        after_audio_blocks(tl, blocks).audio_origin == (match tl.audio_origin {
            Some(t) => Some(t),
            None => if blocks.len() > 0 { Some(blocks[0].0) } else { None },
        }),
        after_audio_blocks(tl, blocks).pending_audio_nanos == tl.pending_audio_nanos + blocks_duration(blocks),
        committable(after_audio_blocks(tl, blocks)) <==> tl.pending_audio_nanos + blocks_duration(blocks) >= MIN_COMMIT_AUDIO_NANOS,
        after_audio_blocks(tl, blocks).turns == tl.turns,
    decreases blocks.len(),
{
    if blocks.len() > 0 {
        let prefix = blocks.drop_last();
        assert(blocks_duration(prefix) <= blocks_duration(blocks));
        lemma_origin_set_once(tl, prefix);
        if prefix.len() > 0 {
            assert(prefix[0] == blocks[0]);
        }
    }
}

/// Only a commit resets the pending audio: every other event, whether it is
/// handled, ignored or fails, leaves the pending audio as it was; no event
/// moves the audio origin; and a commit with an item id leaves none pending.
pub proof fn lemma_only_commit_resets_pending(ev: ServerEventView, session_id: Seq<char>, tl: RealtimeTimelineView, now: Timestamp)
    ensures
        field_text(ev.event_type) != Some(committed_type()) ==> server_event_outcome(ev, session_id, tl, now).1.pending_audio_nanos
            == tl.pending_audio_nanos,
        server_event_outcome(ev, session_id, tl, now).1.audio_origin == tl.audio_origin,
        field_text(ev.event_type) == Some(committed_type()) && field_text(ev.item_id) is Some ==> server_event_outcome(
            ev,
            session_id,
            tl,
            now,
        ).1.pending_audio_nanos == 0,
{
    if field_text(ev.event_type) == Some(committed_type()) && field_text(ev.item_id) is Some {
        lemma_commit_resets_pending(ev, session_id, tl, now);
    }
}

/// A completed turn reports a segment of this session, named by the event's
/// item id and the turn's previous item id, received now, whose text is the
/// event's `transcript` (or, without one, its `text`) trimmed; the turn is
/// forgotten and the other turns are kept.
pub proof fn lemma_completed_segment_fields(ev: ServerEventView, session_id: Seq<char>, tl: RealtimeTimelineView, now: Timestamp)
    requires
        field_text(ev.event_type) == Some(completed_type()),
        field_text(ev.item_id) is Some,
    ensures
        ({
            let id = field_text(ev.item_id).unwrap();
            let (r, after) = server_event_outcome(ev, session_id, tl, now);
            &&& r matches Ok(RealtimeEventView::TranscriptSegment(v)) && v.session_id == session_id && v.item_id == id
                && v.previous_item_id == turn_or_empty(tl.turns, id).previous_item_id && v.received_at == now
                && (field_text(ev.transcript) matches Some(t) ==> v.text == trim_spec(t))
                && (ev.transcript is Missing ==> (field_text(ev.text) matches Some(t) ==> v.text == trim_spec(t)))
            &&& !after.turns.contains_key(id)
            &&& forall|other: Seq<char>| other != id ==> (#[trigger] after.turns.contains_key(other) == tl.turns.contains_key(other))
            &&& after.pending_audio_nanos == tl.pending_audio_nanos
        }),
{
    reveal_strlit("input_audio_buffer.speech_started");
    reveal_strlit("input_audio_buffer.speech_stopped");
    reveal_strlit("input_audio_buffer.committed");
    reveal_strlit("conversation.item.input_audio_transcription.completed");
    assert(speech_started_type().len() != completed_type().len());
    assert(speech_stopped_type().len() != completed_type().len());
    assert(committed_type().len() != completed_type().len());
}

/// A commit event forgets all pending audio, so no further commit is possible
/// until new audio arrives.
pub proof fn lemma_commit_resets_pending(ev: ServerEventView, session_id: Seq<char>, tl: RealtimeTimelineView, now: Timestamp)
    requires
        field_text(ev.event_type) == Some(committed_type()),
        field_text(ev.item_id) is Some,
    ensures
        server_event_outcome(ev, session_id, tl, now).0 == Ok::<RealtimeEventView, RealtimeError>(RealtimeEventView::Committed),
        server_event_outcome(ev, session_id, tl, now).1.pending_audio_nanos == 0,
        !committable(server_event_outcome(ev, session_id, tl, now).1),
{
    reveal_strlit("input_audio_buffer.speech_started");
    reveal_strlit("input_audio_buffer.speech_stopped");
    reveal_strlit("input_audio_buffer.committed");
    assert(speech_started_type().len() != committed_type().len());
    assert(speech_stopped_type().len() != committed_type().len());
}

/// A turn event without an `item_id` string fails and leaves the timeline as
/// it was; so does every `error` event, and every event of another type is
/// ignored without a change.
pub proof fn lemma_events_that_change_nothing(ev: ServerEventView, session_id: Seq<char>, tl: RealtimeTimelineView, now: Timestamp)
    ensures
        ({
            let kind = field_text(ev.event_type);
            let turn_event = kind == Some(speech_started_type()) || kind == Some(speech_stopped_type())
                || kind == Some(committed_type()) || kind == Some(completed_type());
            &&& (turn_event && field_text(ev.item_id) is None) ==> server_event_outcome(ev, session_id, tl, now)
                == (Err::<RealtimeEventView, RealtimeError>(RealtimeError::MissingItemId), tl)
            &&& (!turn_event && kind != Some(error_type())) ==> server_event_outcome(ev, session_id, tl, now)
                == (Ok::<RealtimeEventView, RealtimeError>(RealtimeEventView::Ignored), tl)
            &&& (!turn_event && kind == Some(error_type())) ==> server_event_outcome(ev, session_id, tl, now).1 == tl
        }),
{
}

/// An `error` event is reported as a rejected commit exactly when its message
/// says the buffer was empty or too short; the message is passed on.
pub proof fn lemma_error_event_classification(ev: ServerEventView, session_id: Seq<char>, tl: RealtimeTimelineView, now: Timestamp)
    requires
        field_text(ev.event_type) == Some(error_type()),
    ensures
        commit_rejected_message(error_message_of(ev)) ==> server_event_outcome(ev, session_id, tl, now).0
            == Ok::<RealtimeEventView, RealtimeError>(RealtimeEventView::CommitRejected(error_message_of(ev))),
        !commit_rejected_message(error_message_of(ev)) ==> server_event_outcome(ev, session_id, tl, now).0
            == Ok::<RealtimeEventView, RealtimeError>(RealtimeEventView::ApiError(error_message_of(ev))),
{
    reveal_strlit("error");
    reveal_strlit("input_audio_buffer.speech_started");
    reveal_strlit("input_audio_buffer.speech_stopped");
    reveal_strlit("input_audio_buffer.committed");
    reveal_strlit("conversation.item.input_audio_transcription.completed");
    assert(error_type().len() != speech_started_type().len());
    assert(error_type().len() != speech_stopped_type().len());
    assert(error_type().len() != committed_type().len());
    assert(error_type().len() != completed_type().len());
}

/// Lower-casing twice is lower-casing once.
proof fn lemma_ascii_lower_idempotent(m: Seq<char>)
    ensures
        ascii_lower(ascii_lower(m)) == ascii_lower(m),
{
    assert(ascii_lower(ascii_lower(m)) =~= ascii_lower(m));
}

/// Whether a message rejects a commit does not depend on its ASCII case.
pub proof fn lemma_commit_rejection_ignores_case(message: Seq<char>)
    ensures
        commit_rejected_message(ascii_lower(message)) == commit_rejected_message(message),
{
    lemma_ascii_lower_idempotent(message);
}

/// The life of one turn: after the server reports its start and end offsets and
/// commits it, the completed transcript comes out as a segment with the turn's
/// local start and end, its previous item, the trimmed text and the session id;
/// the turn is forgotten, so the turns are as before it began.
pub proof fn lemma_turn_round_trip(
    started_ev: ServerEventView,
    stopped_ev: ServerEventView,
    committed_ev: ServerEventView,
    completed_ev: ServerEventView,
    id: Seq<char>,
    session_id: Seq<char>,
    tl: RealtimeTimelineView,
    now: Timestamp,
)
    requires
        field_text(started_ev.event_type) == Some(speech_started_type()),
        field_text(stopped_ev.event_type) == Some(speech_stopped_type()),
        field_text(committed_ev.event_type) == Some(committed_type()),
        field_text(completed_ev.event_type) == Some(completed_type()),
        field_text(started_ev.item_id) == Some(id),
        field_text(stopped_ev.item_id) == Some(id),
        field_text(committed_ev.item_id) == Some(id),
        field_text(completed_ev.item_id) == Some(id),
        !tl.turns.contains_key(id),
    ensures
        ({
            let s1 = server_event_outcome(started_ev, session_id, tl, now);
            let s2 = server_event_outcome(stopped_ev, session_id, s1.1, now);
            let s3 = server_event_outcome(committed_ev, session_id, s2.1, now);
            let s4 = server_event_outcome(completed_ev, session_id, s3.1, now);
            let origin = origin_or(tl, now);
            &&& s1.0 == Ok::<RealtimeEventView, RealtimeError>(RealtimeEventView::Ignored)
            &&& s2.0 == Ok::<RealtimeEventView, RealtimeError>(RealtimeEventView::Ignored)
            &&& s3.0 == Ok::<RealtimeEventView, RealtimeError>(RealtimeEventView::Committed)
            &&& s4.0 == Ok::<RealtimeEventView, RealtimeError>(
                RealtimeEventView::TranscriptSegment(
                    TranscriptSegmentView {
                        local_start: audio_offset_time(origin, field_integer(started_ev.audio_start_ms), now),
                        local_end: audio_offset_time(origin, field_integer(stopped_ev.audio_end_ms), now),
                        session_id,
                        item_id: id,
                        previous_item_id: field_text(committed_ev.previous_item_id),
                        text: completed_text(completed_ev),
                        received_at: now,
                    },
                ),
            )
            &&& s4.1.turns == tl.turns
            &&& s4.1.pending_audio_nanos == 0
            &&& s4.1.audio_origin == tl.audio_origin
        }),
{
    reveal_strlit("input_audio_buffer.speech_started");
    reveal_strlit("input_audio_buffer.speech_stopped");
    reveal_strlit("input_audio_buffer.committed");
    reveal_strlit("conversation.item.input_audio_transcription.completed");
    assert(speech_started_type() != speech_stopped_type()) by {
        assert(speech_started_type()[28] != speech_stopped_type()[28]);
    }
    assert(speech_started_type().len() != committed_type().len());
    assert(speech_stopped_type().len() != committed_type().len());
    assert(completed_type().len() != speech_started_type().len());
    assert(completed_type().len() != speech_stopped_type().len());
    assert(completed_type().len() != committed_type().len());
    let s1 = server_event_outcome(started_ev, session_id, tl, now);
    let s2 = server_event_outcome(stopped_ev, session_id, s1.1, now);
    let s3 = server_event_outcome(committed_ev, session_id, s2.1, now);
    let s4 = server_event_outcome(completed_ev, session_id, s3.1, now);
    assert(s4.1.turns =~= tl.turns);
}

} // verus!
