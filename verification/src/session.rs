//! The decisions of a recording session: waiting for the recognizer, handling
//! its events, draining it on stop, and turning its segments into transcript
//! segments.

use vstd::prelude::*;

use crate::clock::{added_duration, checked_add_duration, in_chrono_range, Timestamp};
use crate::transcript::{opt_text, TranscriptSegment, TranscriptSegmentView};

verus! {

/// What the speech recognizer reported, without the segment's contents.
#[derive(Debug)]
pub enum SpeechEventKind {
    Ready,
    Segment,
    Error(String),
    Stopped,
}

/// How waiting for the recognizer goes on after an event.
#[derive(Debug)]
pub enum ReadyWait {
    /// The recognizer is ready; recording starts.
    Ready,
    /// Keep waiting.
    KeepWaiting,
    /// Give up with this message.
    Fail(String),
}

/// The message when the recognizer stops before it was ready.
pub open spec fn stopped_before_ready_text() -> Seq<char> {
    "Apple SpeechTranscriber stopped before ready"@
}

/// What an event means for the wait: `Some(Ok(()))` ready, `Some(Err(m))` give
/// up with `m`, `None` keep waiting.
pub open spec fn wait_decision_of(event: SpeechEventKind) -> Option<Result<(), Seq<char>>> {
    match event {
        SpeechEventKind::Ready => Some(Ok(())),
        SpeechEventKind::Segment => None,
        SpeechEventKind::Error(m) => Some(Err(m@)),
        SpeechEventKind::Stopped => Some(Err(stopped_before_ready_text())),
    }
}

/// The same reading of a [`ReadyWait`].
pub open spec fn wait_decision(w: ReadyWait) -> Option<Result<(), Seq<char>>> {
    match w {
        ReadyWait::Ready => Some(Ok(())),
        ReadyWait::KeepWaiting => None,
        ReadyWait::Fail(f) => Some(Err(f@)),
    }
}

/// How waiting ends over the events `events`, taken in order; `None` while it
/// goes on.
pub open spec fn wait_outcome(events: Seq<SpeechEventKind>) -> Option<Result<(), Seq<char>>>
    decreases events.len(),
{
    if events.len() == 0 {
        None
    } else {
        match wait_decision_of(events[0]) {
            Some(d) => Some(d),
            None => wait_outcome(events.drop_first()),
        }
    }
}

/// The wait is decided by the first event that is not a segment: it succeeds
/// exactly when that event is `Ready`, fails with the error's message or the
/// stopped-before-ready message otherwise, and goes on while only segments came.
pub proof fn lemma_wait_decided_by_first_non_segment(events: Seq<SpeechEventKind>, i: int)
    requires
        0 <= i <= events.len(),
        forall|j: int| 0 <= j < i ==> #[trigger] events[j] is Segment,
    ensures
        i < events.len() && !(events[i] is Segment) ==> wait_outcome(events) == wait_decision_of(events[i]),
        i < events.len() && !(events[i] is Segment) ==> (wait_outcome(events) == Some(Ok::<(), Seq<char>>(())) <==> events[i] is Ready),
        i == events.len() ==> wait_outcome(events) is None,
    decreases i,
{
    if i > 0 {
        assert(events[0] is Segment);
        let rest = events.drop_first();
        assert forall|j: int| 0 <= j < i - 1 implies #[trigger] rest[j] is Segment by {
            assert(rest[j] == events[j + 1]);
        }
        lemma_wait_decided_by_first_non_segment(rest, i - 1);
        if i < events.len() {
            assert(rest[i - 1] == events[i]);
        }
    }
}

/// Waiting for the recognizer: `Ready` ends the wait, an error or a stop fails
/// it, a segment is passed over.
pub fn ready_wait_step(event: SpeechEventKind) -> (r: ReadyWait)
    ensures
        wait_decision(r) == wait_decision_of(event),
        match event {
            SpeechEventKind::Ready => r is Ready,
            SpeechEventKind::Segment => r is KeepWaiting,
            SpeechEventKind::Error(m) => r matches ReadyWait::Fail(f) && f@ == m@,
            SpeechEventKind::Stopped => r matches ReadyWait::Fail(f) && f@ == stopped_before_ready_text(),
        },
{
    match event {
        SpeechEventKind::Ready => ReadyWait::Ready,
        SpeechEventKind::Segment => ReadyWait::KeepWaiting,
        SpeechEventKind::Error(m) => ReadyWait::Fail(m),
        SpeechEventKind::Stopped => ReadyWait::Fail(String::from_str("Apple SpeechTranscriber stopped before ready")),
    }
}

/// What to do with an event while recording.
#[derive(Debug)]
pub enum SpeechStep {
    /// Write the segment to the transcript files.
    WriteSegment,
    /// Stop with this error.
    Fail(String),
    /// Nothing.
    Nothing,
}

/// The error text for a recognizer error reported with `message`.
pub open spec fn recognizer_error_text(message: Seq<char>) -> Seq<char> {
    "Apple SpeechTranscriber error: "@ + message
}

/// Handling an event while recording: segments are written, errors stop the
/// session, `Ready` and `Stopped` change nothing.
pub fn speech_event_step(event: SpeechEventKind) -> (r: SpeechStep)
    ensures
        match event {
            SpeechEventKind::Segment => r is WriteSegment,
            SpeechEventKind::Error(m) => r matches SpeechStep::Fail(f) && f@ == recognizer_error_text(m@),
            _ => r is Nothing,
        },
{
    match event {
        SpeechEventKind::Segment => SpeechStep::WriteSegment,
        SpeechEventKind::Error(m) => SpeechStep::Fail(String::from_str("Apple SpeechTranscriber error: ").concat(m.as_str())),
        _ => SpeechStep::Nothing,
    }
}

/// How draining the recognizer on stop goes on after an event.
#[derive(Debug)]
pub enum DrainStep {
    /// The recognizer stopped; the session is over.
    Finished,
    /// Handle the event as while recording, and keep draining.
    Handle(SpeechStep),
}

/// What an event means for draining: `Some(Ok(()))` stopped, `Some(Err(m))` fail
/// with `m`, `None` go on (after writing a segment).
pub open spec fn drain_decision_of(event: SpeechEventKind) -> Option<Result<(), Seq<char>>> {
    match event {
        SpeechEventKind::Stopped => Some(Ok(())),
        SpeechEventKind::Error(m) => Some(Err(recognizer_error_text(m@))),
        _ => None,
    }
}

/// The same reading of a [`DrainStep`].
pub open spec fn drain_decision(d: DrainStep) -> Option<Result<(), Seq<char>>> {
    match d {
        DrainStep::Finished => Some(Ok(())),
        DrainStep::Handle(SpeechStep::Fail(f)) => Some(Err(f@)),
        DrainStep::Handle(_) => None,
    }
}

/// How draining ends over the events `events`, taken in order; `None` while it
/// goes on.
pub open spec fn drain_outcome(events: Seq<SpeechEventKind>) -> Option<Result<(), Seq<char>>>
    decreases events.len(),
{
    if events.len() == 0 {
        None
    } else {
        match drain_decision_of(events[0]) {
            Some(d) => Some(d),
            None => drain_outcome(events.drop_first()),
        }
    }
}

/// The segments draining writes before it ends: every segment up to the first
/// stop or error, in order, as their indices in `events`.
pub open spec fn drained_segments(events: Seq<SpeechEventKind>) -> Seq<int>
    decreases events.len(),
{
    if events.len() == 0 {
        Seq::empty()
    } else if drain_decision_of(events[0]) is Some {
        Seq::empty()
    } else {
        let rest = drained_segments(events.drop_first()).map_values(|j: int| j + 1);
        if events[0] is Segment {
            seq![0int] + rest
        } else {
            rest
        }
    }
}

/// Draining ends at the first stop or error: successfully exactly when that is
/// `Stopped`, with the recognizer's error otherwise; every segment before it is
/// written, in order, and nothing after it.
pub proof fn lemma_drain_ends_at_first_stop_or_error(events: Seq<SpeechEventKind>, i: int)
    requires
        0 <= i <= events.len(),
        forall|j: int| 0 <= j < i ==> #[trigger] drain_decision_of(events[j]) is None,
    ensures
        i < events.len() && drain_decision_of(events[i]) is Some ==> drain_outcome(events) == drain_decision_of(events[i]),
        i < events.len() && drain_decision_of(events[i]) is Some ==> (drain_outcome(events) == Some(Ok::<(), Seq<char>>(()))
            <==> events[i] is Stopped),
        i == events.len() ==> drain_outcome(events) is None,
        i < events.len() && drain_decision_of(events[i]) is Some ==> forall|j: int| #![trigger events[j]]
            (drained_segments(events).contains(j) <==> 0 <= j < i && events[j] is Segment),
    decreases i,
{
    if i > 0 {
        let rest = events.drop_first();
        assert(drain_decision_of(events[0]) is None);
        assert forall|j: int| 0 <= j < i - 1 implies #[trigger] drain_decision_of(rest[j]) is None by {
            assert(rest[j] == events[j + 1]);
        }
        lemma_drain_ends_at_first_stop_or_error(rest, i - 1);
        if i < events.len() && drain_decision_of(events[i]) is Some {
            assert(rest[i - 1] == events[i]);
            let inner = drained_segments(rest);
            let shifted = inner.map_values(|j: int| j + 1);
            let ds = drained_segments(events);
            let head: Seq<int> = if events[0] is Segment { seq![0int] } else { Seq::empty() };
            assert(ds == head + shifted);
            assert forall|j: int| #![trigger events[j]] ds.contains(j) <==> 0 <= j < i && events[j] is Segment by {
                if ds.contains(j) {
                    let k = choose|k: int| 0 <= k < ds.len() && ds[k] == j;
                    if k < head.len() {
                        assert(j == 0);
                    } else {
                        let m = k - head.len();
                        assert(shifted[m] == inner[m] + 1);
                        assert(inner.contains(inner[m]));
                        assert(rest[j - 1] == events[j]);
                    }
                }
                if 0 <= j < i && events[j] is Segment {
                    if j == 0 {
                        assert(ds[0] == 0);
                    } else {
                        assert(rest[j - 1] == events[j]);
                        assert(inner.contains(j - 1));
                        let k = choose|k: int| 0 <= k < inner.len() && inner[k] == j - 1;
                        assert(shifted[k] == j);
                        assert(ds[head.len() + k] == j);
                    }
                }
            }
        }
    } else {
        if 0 < events.len() && drain_decision_of(events[0]) is Some {
            assert(drained_segments(events) == Seq::<int>::empty());
        }
    }
}

/// Draining on stop: `Stopped` ends it; any other event is handled as while
/// recording.
pub fn drain_step(event: SpeechEventKind) -> (r: DrainStep)
    ensures
        drain_decision(r) == drain_decision_of(event),
        match event {
            SpeechEventKind::Stopped => r is Finished,
            SpeechEventKind::Segment => r matches DrainStep::Handle(s) && s is WriteSegment,
            SpeechEventKind::Error(m) => r matches DrainStep::Handle(s) && s matches SpeechStep::Fail(f) && f@ == recognizer_error_text(m@),
            SpeechEventKind::Ready => r matches DrainStep::Handle(s) && s is Nothing,
        },
{
    match event {
        SpeechEventKind::Stopped => DrainStep::Finished,
        other => DrainStep::Handle(speech_event_step(other)),
    }
}

/// How long stopping may take before unsaved speech is reported, in seconds.
pub const FLUSH_TIMEOUT_SECS: u64 = 10;

/// The message when the recognizer did not stop within the flush timeout.
pub fn flush_timeout_message() -> (r: String)
    ensures
        r@ == "Apple SpeechTranscriber の停止処理が10秒以内に完了しませんでした。未保存の発話がある可能性があります。"@,
{
    String::from_str("Apple SpeechTranscriber の停止処理が10秒以内に完了しませんでした。未保存の発話がある可能性があります。")
}

/// An audio offset: whole seconds and nanoseconds, as `std::time::Duration` holds it.
#[derive(Debug, Clone, Copy)]
pub struct AudioOffset {
    pub secs: u64,
    pub nanos: u32,
}

/// Why a recognizer segment could not be placed in time.
#[derive(Debug, Clone, Copy, PartialEq, Eq, Structural)]
pub enum SegmentError {
    /// An offset does not fit chrono's range.
    OffsetOutOfRange,
}

impl SegmentError {
    /// The message the error is reported with.
    pub fn message(&self) -> (r: String)
        ensures
            r@ == "Source duration value is out of range for the target type"@,
    {
        String::from_str("Source duration value is out of range for the target type")
    }
}

/// The offset in nanoseconds.
pub open spec fn offset_nanos(offset: AudioOffset) -> int {
    offset.secs * 1_000_000_000 + offset.nanos
}

/// A block handed to the recognizer: where it starts in the recognizer's audio,
/// in nanoseconds, and when it was captured.
#[derive(Debug, Clone, Copy)]
pub struct CapturedBlock {
    pub start_nanos: u128,
    pub captured_at: Timestamp,
}

/// The blocks of a session in the order they were handed to the recognizer, so
/// that a recognizer offset can be placed at the time its audio was captured.
#[derive(Debug)]
pub struct CaptureTimeline {
    blocks: Vec<CapturedBlock>,
    total_nanos: u128,
    started_at: Timestamp,
}

/// The mathematical value of a [`CaptureTimeline`].
pub struct CaptureTimelineView {
    pub blocks: Seq<CapturedBlock>,
    pub total_nanos: int,
    pub started_at: Timestamp,
}

impl CaptureTimelineView {
    /// Blocks start in recording order, none after the end of the audio, and the
    /// audio's length fits a `u128`.
    pub open spec fn wf(self) -> bool {
        &&& forall|i: int, j: int| 0 <= i <= j < self.blocks.len() ==> #[trigger] self.blocks[i].start_nanos <= #[trigger] self.blocks[j].start_nanos
        &&& forall|i: int| 0 <= i < self.blocks.len() ==> #[trigger] self.blocks[i].start_nanos <= self.total_nanos
        &&& 0 <= self.total_nanos <= u128::MAX
    }
}

impl View for CaptureTimeline {
    type V = CaptureTimelineView;

    closed spec fn view(&self) -> CaptureTimelineView {
        CaptureTimelineView { blocks: self.blocks@, total_nanos: self.total_nanos as int, started_at: self.started_at }
    }
}

/// The index of the last block that starts at or before `offset`; -1 when none does.
pub open spec fn last_block_at(blocks: Seq<CapturedBlock>, offset: int) -> int
    decreases blocks.len(),
{
    if blocks.len() == 0 {
        -1
    } else if blocks.last().start_nanos <= offset {
        blocks.len() - 1
    } else {
        last_block_at(blocks.drop_last(), offset)
    }
}

/// What a recognizer offset is measured from: the capture time of the block its
/// audio is in and how far into that block it lies; the session start and the
/// whole offset while no block was recorded.
pub open spec fn offset_anchor(timeline: CaptureTimelineView, offset: int) -> (Timestamp, int) {
    let i = last_block_at(timeline.blocks, offset);
    if i >= 0 {
        (timeline.blocks[i].captured_at, offset - timeline.blocks[i].start_nanos)
    } else {
        (timeline.started_at, offset)
    }
}

/// The local time of a recognizer offset: its anchor moved forward by the rest
/// of the offset, as chrono adds it; `None` where chrono cannot.
pub open spec fn capture_local_time(timeline: CaptureTimelineView, offset: int) -> Option<Timestamp> {
    let (base, d) = offset_anchor(timeline, offset);
    added_duration(base, (d / 1_000_000_000) as u64, (d % 1_000_000_000) as u32)
}

/// Whether the anchored moment of `offset` lands on a day within chrono's
/// dates; `None` when the anchor falls in a leap second.
pub open spec fn anchor_lands(timeline: CaptureTimelineView, offset: int) -> Option<bool> {
    let (base, d) = offset_anchor(timeline, offset);
    if base.spec_nanos() < 1_000_000_000 {
        Some(in_chrono_range(base.instant() + d))
    } else {
        None
    }
}

proof fn lemma_last_block_drop(blocks: Seq<CapturedBlock>, k: int, offset: int)
    requires
        0 < k <= blocks.len(),
        blocks[k - 1].start_nanos > offset,
    ensures
        last_block_at(blocks.subrange(0, k), offset) == last_block_at(blocks.subrange(0, k - 1), offset),
{
    assert(blocks.subrange(0, k).drop_last() =~= blocks.subrange(0, k - 1));
}

proof fn lemma_last_block_is(blocks: Seq<CapturedBlock>, i: int, offset: int)
    requires
        0 <= i < blocks.len(),
        blocks[i].start_nanos <= offset,
        forall|j: int| i < j < blocks.len() ==> #[trigger] blocks[j].start_nanos > offset,
    ensures
        last_block_at(blocks, offset) == i,
    decreases blocks.len(),
{
    if i < blocks.len() - 1 {
        assert(blocks.last().start_nanos > offset);
        lemma_last_block_is(blocks.drop_last(), i, offset);
    }
}

/// An offset that lies in a recorded block, at or after its start and before the
/// next block's start, is placed at that block's capture time plus its distance
/// into the block: audio recorded after the machine slept is placed after the
/// wake-up, not at the session start plus the offset.
pub proof fn lemma_offset_uses_its_block(timeline: CaptureTimelineView, i: int, offset: int)
    requires
        timeline.wf(),
        0 <= i < timeline.blocks.len(),
        timeline.blocks[i].start_nanos <= offset,
        i + 1 < timeline.blocks.len() ==> offset < timeline.blocks[i + 1].start_nanos,
    ensures
        offset_anchor(timeline, offset) == (timeline.blocks[i].captured_at, offset - timeline.blocks[i].start_nanos),
{
    let b = timeline.blocks;
    assert forall|j: int| i < j < b.len() implies #[trigger] b[j].start_nanos > offset by {
        assert(b[i + 1].start_nanos <= b[j].start_nanos);
    }
    lemma_last_block_is(b, i, offset);
}

impl CaptureTimeline {
    /// An empty timeline for a session started at `started_at`.
    pub fn new(started_at: Timestamp) -> (r: CaptureTimeline)
        ensures
            r@.blocks == Seq::<CapturedBlock>::empty(),
            r@.total_nanos == 0,
            r@.started_at == started_at,
            r@.wf(),
    {
        CaptureTimeline { blocks: Vec::new(), total_nanos: 0, started_at }
    }

    /// Records a block of `duration_nanos` handed to the recognizer after the
    /// others; it starts where the recorded audio ends. `false`, and nothing
    /// recorded, when the audio's length would no longer fit a `u128`.
    pub fn record_block(&mut self, captured_at: Timestamp, duration_nanos: u128) -> (r: bool)
        requires
            old(self)@.wf(),
        ensures
            final(self)@.wf(),
            r == (old(self)@.total_nanos + duration_nanos <= u128::MAX),
            r ==> final(self)@.blocks == old(self)@.blocks.push(
                (CapturedBlock { start_nanos: old(self)@.total_nanos as u128, captured_at }),
            ),
            r ==> final(self)@.total_nanos == old(self)@.total_nanos + duration_nanos,
            r ==> final(self)@.started_at == old(self)@.started_at,
            !r ==> final(self)@ == old(self)@,
    {
        match self.total_nanos.checked_add(duration_nanos) {
            Some(total) => {
                let block = CapturedBlock { start_nanos: self.total_nanos, captured_at };
                let ghost before = self@;
                self.blocks.push(block);
                self.total_nanos = total;
                proof {
                    let after = self@;
                    assert forall|i: int, j: int| 0 <= i <= j < after.blocks.len() implies #[trigger] after.blocks[i].start_nanos
                        <= #[trigger] after.blocks[j].start_nanos by {
                        if j < before.blocks.len() {
                            assert(before.blocks[i].start_nanos <= before.blocks[j].start_nanos);
                        } else if i < before.blocks.len() {
                            assert(before.blocks[i].start_nanos <= before.total_nanos);
                        }
                    }
                    assert forall|i: int| 0 <= i < after.blocks.len() implies #[trigger] after.blocks[i].start_nanos
                        <= after.total_nanos by {
                        if i < before.blocks.len() {
                            assert(before.blocks[i].start_nanos <= before.total_nanos);
                        }
                    }
                }
                true
            },
            None => false,
        }
    }

    /// The local time of `offset` into the recognizer's audio.
    pub fn local_time_at(&self, offset: AudioOffset) -> (r: Option<Timestamp>)
        requires
            self@.wf(),
            offset.nanos < 1_000_000_000,
        ensures
            r == capture_local_time(self@, offset_nanos(offset)),
            r matches Some(t) ==> (offset_anchor(self@, offset_nanos(offset)).0.spec_nanos() < 1_000_000_000
                ==> t.instant() == offset_anchor(self@, offset_nanos(offset)).0.instant() + offset_anchor(
                self@,
                offset_nanos(offset),
            ).1),
            anchor_lands(self@, offset_nanos(offset)) is Some ==> (r is Some <==> anchor_lands(self@, offset_nanos(offset)) == Some(true)),
    {
        let ghost off = offset_nanos(offset);
        let total: u128 = (offset.secs as u128) * 1_000_000_000 + (offset.nanos as u128);
        let n = self.blocks.len();
        let mut k: usize = n;
        assert(self.blocks@.subrange(0, n as int) =~= self.blocks@);
        while k > 0 && self.blocks[k - 1].start_nanos > total
            invariant
                k <= n,
                n == self.blocks@.len(),
                total == off,
                last_block_at(self.blocks@, off) == last_block_at(self.blocks@.subrange(0, k as int), off),
            decreases k,
        {
            proof {
                lemma_last_block_drop(self.blocks@, k as int, off);
            }
            k = k - 1;
        }
        let (base, d): (Timestamp, u128) = if k == 0 {
            proof {
                assert(self.blocks@.subrange(0, 0) =~= Seq::<CapturedBlock>::empty());
            }
            (self.started_at, total)
        } else {
            let block = self.blocks[k - 1];
            (block.captured_at, total - block.start_nanos)
        };
        assert(offset_anchor(self@, off) == (base, d as int));
        assert(d / 1_000_000_000 <= offset.secs) by (nonlinear_arith)
            requires
                d <= offset.secs * 1_000_000_000 + offset.nanos,
                offset.nanos < 1_000_000_000,
        ;
        let secs = (d / 1_000_000_000) as u64;
        let nanos = (d % 1_000_000_000) as u32;
        assert(d == secs * 1_000_000_000 + nanos);
        checked_add_duration(&base, secs, nanos)
    }
}

/// The transcript segment of a recognizer segment, its offsets placed by the
/// capture timeline; `None` where an offset cannot be added.
pub open spec fn segment_from_offsets(
    session_id: Seq<char>,
    item_id: Seq<char>,
    previous_item_id: Option<Seq<char>>,
    text: Seq<char>,
    start: AudioOffset,
    end: AudioOffset,
    timeline: CaptureTimelineView,
    received_at: Timestamp,
) -> Option<TranscriptSegmentView> {
    match (capture_local_time(timeline, offset_nanos(start)), capture_local_time(timeline, offset_nanos(end))) {
        (Some(local_start), Some(local_end)) => Some(
            TranscriptSegmentView { local_start, local_end, session_id, item_id, previous_item_id, text, received_at },
        ),
        _ => None,
    }
}

/// A placed segment carries the recognizer's text, session id, item id and
/// previous item id unchanged, and the arrival time it was given; only its
/// local times come from the offsets.
pub proof fn lemma_segment_keeps_recognizer_fields(
    session_id: Seq<char>,
    item_id: Seq<char>,
    previous_item_id: Option<Seq<char>>,
    text: Seq<char>,
    start: AudioOffset,
    end: AudioOffset,
    timeline: CaptureTimelineView,
    received_at: Timestamp,
)
    ensures
        segment_from_offsets(session_id, item_id, previous_item_id, text, start, end, timeline, received_at) matches Some(v)
            ==> v.text == text && v.session_id == session_id && v.item_id == item_id && v.previous_item_id == previous_item_id
            && v.received_at == received_at,
        segment_from_offsets(session_id, item_id, previous_item_id, text, start, end, timeline, received_at) is Some
            <==> capture_local_time(timeline, offset_nanos(start)) is Some && capture_local_time(timeline, offset_nanos(end)) is Some,
{
}

/// Places a recognizer segment in local time by the capture times of the audio
/// its offsets fall in.
pub fn transcript_segment_from_offsets(
    session_id: String,
    item_id: String,
    previous_item_id: Option<String>,
    text: String,
    start: AudioOffset,
    end: AudioOffset,
    timeline: &CaptureTimeline,
    received_at: &Timestamp,
) -> (r: Result<TranscriptSegment, SegmentError>)
    requires
        timeline@.wf(),
        start.nanos < 1_000_000_000,
        end.nanos < 1_000_000_000,
    ensures
        r matches Ok(s) ==> s.text@ == text@ && s.session_id@ == session_id@ && s.item_id@ == item_id@ && opt_text(
            s.previous_item_id,
        ) == opt_text(previous_item_id) && s.received_at == *received_at,
        match r {
            Ok(s) => segment_from_offsets(session_id@, item_id@, opt_text(previous_item_id), text@, start, end, timeline@, *received_at) == Some(s@),
            Err(e) => segment_from_offsets(session_id@, item_id@, opt_text(previous_item_id), text@, start, end, timeline@, *received_at) is None
                && e == SegmentError::OffsetOutOfRange,
        },
        anchor_lands(timeline@, offset_nanos(start)) is Some && anchor_lands(timeline@, offset_nanos(end)) is Some ==> (r is Ok
            <==> anchor_lands(timeline@, offset_nanos(start)) == Some(true) && anchor_lands(timeline@, offset_nanos(end)) == Some(true)),
        r matches Ok(s) ==> (offset_anchor(timeline@, offset_nanos(start)).0.spec_nanos() < 1_000_000_000
            ==> s.local_start.instant() == offset_anchor(timeline@, offset_nanos(start)).0.instant() + offset_anchor(
            timeline@,
            offset_nanos(start),
        ).1),
        r matches Ok(s) ==> (offset_anchor(timeline@, offset_nanos(end)).0.spec_nanos() < 1_000_000_000
            ==> s.local_end.instant() == offset_anchor(timeline@, offset_nanos(end)).0.instant() + offset_anchor(
            timeline@,
            offset_nanos(end),
        ).1),
{
    let local_start = match timeline.local_time_at(start) {
        Some(t) => t,
        None => {
            return Err(SegmentError::OffsetOutOfRange);
        },
    };
    let local_end = match timeline.local_time_at(end) {
        Some(t) => t,
        None => {
            return Err(SegmentError::OffsetOutOfRange);
        },
    };
    Ok(TranscriptSegment { local_start, local_end, session_id, item_id, previous_item_id, text, received_at: *received_at })
}

} // verus!
