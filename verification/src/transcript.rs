//! Transcript segments and the daily Markdown / JSONL file contents they are
//! written as.

use vstd::prelude::*;

use crate::clock::{chrono_format, format_timestamp, is_date_char, Timestamp};
use crate::text::{chars_of, contains_chars, contains_spec, occurs_at};

verus! {

/// The view of an optional string.
pub open spec fn opt_text(o: Option<String>) -> Option<Seq<char>> {
    match o {
        Some(s) => Some(s@),
        None => None,
    }
}

/// One finished utterance, with local start and end times.
#[derive(Debug)]
pub struct TranscriptSegment {
    pub local_start: Timestamp,
    pub local_end: Timestamp,
    pub session_id: String,
    pub item_id: String,
    pub previous_item_id: Option<String>,
    pub text: String,
    pub received_at: Timestamp,
}

/// The mathematical value of a [`TranscriptSegment`].
pub struct TranscriptSegmentView {
    pub local_start: Timestamp,
    pub local_end: Timestamp,
    pub session_id: Seq<char>,
    pub item_id: Seq<char>,
    pub previous_item_id: Option<Seq<char>>,
    pub text: Seq<char>,
    pub received_at: Timestamp,
}

impl View for TranscriptSegment {
    type V = TranscriptSegmentView;

    open spec fn view(&self) -> TranscriptSegmentView {
        TranscriptSegmentView {
            local_start: self.local_start,
            local_end: self.local_end,
            session_id: self.session_id@,
            item_id: self.item_id@,
            previous_item_id: opt_text(self.previous_item_id),
            text: self.text@,
            received_at: self.received_at,
        }
    }
}


/// `ts` formatted with the strftime `pattern`.
pub open spec fn formatted(ts: Timestamp, pattern: Seq<char>) -> Seq<char> {
    chrono_format(ts.spec_secs(), ts.spec_nanos(), ts.spec_offset(), pattern)
}

/// The local date of `ts` as `YYYY-MM-DD`.
pub open spec fn date_label(ts: Timestamp) -> Seq<char> {
    formatted(ts, "%Y-%m-%d"@)
}

/// The local time of `ts` as `HH:MM`.
pub open spec fn minute_label(ts: Timestamp) -> Seq<char> {
    formatted(ts, "%H:%M"@)
}

/// The local time of `ts` as `HH:MM:SS`.
pub open spec fn second_label(ts: Timestamp) -> Seq<char> {
    formatted(ts, "%H:%M:%S"@)
}

/// The names of the Markdown and JSONL files of one day.
#[derive(Debug)]
pub struct TranscriptFileNames {
    pub markdown: String,
    pub jsonl: String,
}

/// The files a day's transcript goes to: `YYYY-MM-DD.md` and `YYYY-MM-DD.jsonl`,
/// by the local date of `date`.
pub fn transcript_file_names(date: &Timestamp) -> (r: TranscriptFileNames)
    ensures
        r.markdown@ == date_label(*date) + ".md"@,
        r.jsonl@ == date_label(*date) + ".jsonl"@,
{
    let stem = format_timestamp(date, "%Y-%m-%d");
    let markdown = stem.clone().concat(".md");
    let jsonl = stem.concat(".jsonl");
    TranscriptFileNames { markdown, jsonl }
}

/// The files a segment is appended to: those of the day it ends on, so an
/// utterance across midnight goes to the new day's files.
pub fn segment_file_names(segment: &TranscriptSegment) -> (r: TranscriptFileNames)
    ensures
        r.markdown@ == date_label(segment.local_end) + ".md"@,
        r.jsonl@ == date_label(segment.local_end) + ".jsonl"@,
{
    transcript_file_names(&segment.local_end)
}

/// What a new daily Markdown file starts with: `# YYYY-MM-DD` and a blank line.
pub open spec fn markdown_header_text(date: Timestamp) -> Seq<char> {
    "# "@ + date_label(date) + "\n\n"@
}

/// The first lines of a new daily Markdown file.
pub fn daily_markdown_header(date: &Timestamp) -> (r: String)
    ensures
        r@ == markdown_header_text(*date),
        forall|i: int| 0 <= i < date_label(*date).len() ==> is_date_char(#[trigger] date_label(*date)[i]),
{
    let label = format_timestamp(date, "%Y-%m-%d");
    String::from_str("# ").concat(label.as_str()).concat("\n\n")
}

/// The heading line of the minute a segment ends in: `## HH:MM` and a newline.
pub open spec fn heading_text(segment: TranscriptSegmentView) -> Seq<char> {
    "## "@ + minute_label(segment.local_end) + "\n"@
}

/// The list line of a segment: `- [HH:MM:SS-HH:MM:SS] text` and a newline.
pub open spec fn entry_text(segment: TranscriptSegmentView) -> Seq<char> {
    "- ["@ + second_label(segment.local_start) + "-"@ + second_label(segment.local_end) + "] "@ + segment.text
        + "\n"@
}

/// `text` ends in a blank line.
pub open spec fn ends_with_blank_line(text: Seq<char>) -> bool {
    text.len() >= 2 && text[text.len() - 1] == '\n' && text[text.len() - 2] == '\n'
}

/// What is appended to the day's Markdown, whose text so far is `existing`:
/// nothing for an empty transcript; else the minute's heading, unless `existing`
/// holds it already, and the segment's line. A heading follows one blank line:
/// a newline is added before it unless `existing` already ends in a blank line.
pub open spec fn markdown_addition_text(existing: Seq<char>, segment: TranscriptSegmentView) -> Seq<char> {
    if segment.text.len() == 0 {
        Seq::empty()
    } else if contains_spec(existing, heading_text(segment)) {
        entry_text(segment)
    } else if ends_with_blank_line(existing) {
        heading_text(segment) + entry_text(segment)
    } else {
        "\n"@ + heading_text(segment) + entry_text(segment)
    }
}

/// The heading line of the minute `segment` ends in.
pub fn markdown_heading(segment: &TranscriptSegment) -> (r: String)
    ensures
        r@ == heading_text(segment@),
{
    let minute = format_timestamp(&segment.local_end, "%H:%M");
    String::from_str("## ").concat(minute.as_str()).concat("\n")
}

/// The list line of `segment`.
pub fn markdown_entry(segment: &TranscriptSegment) -> (r: String)
    ensures
        r@ == entry_text(segment@),
{
    let start = format_timestamp(&segment.local_start, "%H:%M:%S");
    let end = format_timestamp(&segment.local_end, "%H:%M:%S");
    String::from_str("- [").concat(start.as_str()).concat("-").concat(end.as_str()).concat("] ").concat(
        segment.text.as_str(),
    ).concat("\n")
}

/// The text to append to the day's Markdown for `segment`.
pub fn markdown_addition(existing: &str, segment: &TranscriptSegment) -> (r: String)
    ensures
        r@ == markdown_addition_text(existing@, segment@),
{
    if segment.text.as_str().is_empty() {
        return String::new();
    }
    let heading = markdown_heading(segment);
    let entry = markdown_entry(segment);
    let hay = chars_of(existing);
    let needle = chars_of(heading.as_str());
    let n = hay.len();
    if contains_chars(&hay, &needle) {
        entry
    } else if n >= 2 && hay[n - 1] == '\n' && hay[n - 2] == '\n' {
        heading.concat(entry.as_str())
    } else {
        String::from_str("\n").concat(heading.as_str()).concat(entry.as_str())
    }
}

/// A header whose date has only date characters holds no minute heading, and
/// ends in a blank line.
proof fn lemma_header_shape(date: Timestamp, segment: TranscriptSegmentView)
    requires
        forall|i: int| 0 <= i < date_label(date).len() ==> is_date_char(#[trigger] date_label(date)[i]),
    ensures
        !contains_spec(markdown_header_text(date), heading_text(segment)),
        ends_with_blank_line(markdown_header_text(date)),
{
    reveal_strlit("# ");
    reveal_strlit("\n\n");
    reveal_strlit("## ");
    reveal_strlit("\n");
    let hdr = markdown_header_text(date);
    let d = date_label(date);
    let h = heading_text(segment);
    assert(hdr.len() == d.len() + 4);
    assert(hdr[0] == '#' && hdr[1] == ' ');
    assert(h[0] == '#' && h[1] == '#');
    assert forall|i: int| !occurs_at(hdr, h, i) by {
        if occurs_at(hdr, h, i) {
            assert(hdr.subrange(i, i + h.len())[0] == h[0]);
            assert(hdr.subrange(i, i + h.len())[1] == h[1]);
            assert(hdr[i + 1] == '#');
            if i + 1 < d.len() + 2 {
                assert(hdr[i + 1] == d[i - 1]);
                assert(is_date_char(d[i - 1]));
            } else {
                assert(hdr[i + 1] == '\n');
            }
        }
    }
    assert(hdr[hdr.len() - 1] == '\n' && hdr[hdr.len() - 2] == '\n');
}

/// The text a day's Markdown file is created with when `segment` is its first:
/// the date title and one blank line, then, for a non-empty transcript, the
/// minute's heading and the segment's line.
pub fn new_day_markdown(segment: &TranscriptSegment) -> (r: String)
    ensures
        r@ == markdown_header_text(segment.local_end) + markdown_addition_text(
            markdown_header_text(segment.local_end),
            segment@,
        ),
        segment.text@.len() == 0 ==> r@ == markdown_header_text(segment.local_end),
        segment.text@.len() > 0 ==> r@ == "# "@ + date_label(segment.local_end) + "\n\n"@ + heading_text(segment@)
            + entry_text(segment@),
{
    let header = daily_markdown_header(&segment.local_end);
    let addition = markdown_addition(header.as_str(), segment);
    proof {
        lemma_header_shape(segment.local_end, segment@);
    }
    header.concat(addition.as_str())
}

/// A segment whose transcript is empty adds nothing to the day's Markdown,
/// whatever the file holds.
pub proof fn lemma_empty_text_adds_nothing(existing: Seq<char>, segment: TranscriptSegmentView)
    requires
        segment.text.len() == 0,
    ensures
        markdown_addition_text(existing, segment).len() == 0,
{
}

/// What a non-empty segment adds ends with its transcript and a newline, and
/// the addition is never empty.
pub proof fn lemma_addition_ends_with_text(existing: Seq<char>, segment: TranscriptSegmentView)
    requires
        segment.text.len() > 0,
    ensures
        ({
            let a = markdown_addition_text(existing, segment);
            let n = segment.text.len() + 1;
            &&& a.len() >= n
            &&& a.subrange(a.len() - n, a.len() as int) == segment.text + "\n"@
        }),
{
    reveal_strlit("\n");
    let a = markdown_addition_text(existing, segment);
    let e = entry_text(segment);
    let n = segment.text.len() + 1;
    let tail = segment.text + "\n"@;
    assert(e.subrange(e.len() - n, e.len() as int) =~= tail);
    let p = a.subrange(0, a.len() - e.len());
    assert(a == p + e);
    assert(a.subrange(a.len() - n, a.len() as int) =~= e.subrange(e.len() - n, e.len() as int));
}

/// After a non-empty segment is appended, the day's Markdown holds the heading
/// of the minute the segment ends in.
pub proof fn lemma_heading_present_after_append(existing: Seq<char>, segment: TranscriptSegmentView)
    requires
        segment.text.len() > 0,
    ensures
        contains_spec(existing + markdown_addition_text(existing, segment), heading_text(segment)),
{
    let h = heading_text(segment);
    let all = existing + markdown_addition_text(existing, segment);
    if contains_spec(existing, h) {
        let i = choose|i: int| occurs_at(existing, h, i);
        assert(all.subrange(i, i + h.len()) == existing.subrange(i, i + h.len()));
        assert(occurs_at(all, h, i));
    } else if ends_with_blank_line(existing) {
        let i: int = existing.len() as int;
        assert(all.subrange(i, i + h.len()) =~= h);
        assert(occurs_at(all, h, i));
    } else {
        let i: int = existing.len() as int + 1;
        reveal_strlit("\n");
        let a = "\n"@ + h + entry_text(segment);
        assert(all == existing + a);
        assert forall|j: int| 0 <= j < h.len() implies #[trigger] all.subrange(i, i + h.len())[j] == h[j] by {
            assert(all[i + j] == a[1 + j]);
            assert(a[1 + j] == h[j]);
        }
        assert(all.subrange(i, i + h.len()) =~= h);
        assert(occurs_at(all, h, i));
    }
}

/// Once the day's Markdown holds a minute's heading, appending another segment of
/// that minute adds only its line.
pub proof fn lemma_heading_not_repeated(existing: Seq<char>, first: TranscriptSegmentView, second: TranscriptSegmentView)
    requires
        first.text.len() > 0,
        second.text.len() > 0,
        minute_label(first.local_end) == minute_label(second.local_end),
    ensures
        markdown_addition_text(existing + markdown_addition_text(existing, first), second) == entry_text(second),
{
    lemma_heading_present_after_append(existing, first);
    assert(heading_text(first) == heading_text(second));
}

} // verus!
