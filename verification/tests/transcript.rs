use chrono::DateTime;
use tategoto::clock::Timestamp;
use tategoto::transcript::{
    daily_markdown_header, markdown_addition, markdown_entry, markdown_heading, new_day_markdown, segment_file_names,
    transcript_file_names, TranscriptSegment,
};

fn timestamp(rfc3339: &str) -> Timestamp {
    let t = DateTime::parse_from_rfc3339(rfc3339).unwrap();
    Timestamp::from_parts(t.timestamp(), t.timestamp_subsec_nanos(), t.offset().local_minus_utc())
        .unwrap()
}

fn segment(start: &str, end: &str, text: &str) -> TranscriptSegment {
    TranscriptSegment {
        local_start: timestamp(start),
        local_end: timestamp(end),
        session_id: "sess_test".to_string(),
        item_id: "item_test".to_string(),
        previous_item_id: None,
        text: text.to_string(),
        received_at: timestamp(end),
    }
}

#[test]
fn daily_files_are_named_by_end_date() {
    let s = segment("2026-05-10T23:59:58+09:00", "2026-05-11T00:00:04+09:00", "日付をまたいだ発話です。");
    let names = segment_file_names(&s);
    assert_eq!(names.markdown, "2026-05-11.md");
    assert_eq!(names.jsonl, "2026-05-11.jsonl");
    assert_eq!(daily_markdown_header(&s.local_end), "# 2026-05-11\n\n");
    assert_eq!(transcript_file_names(&s.local_start).markdown, "2026-05-10.md");
}

#[test]
fn markdown_lines_show_local_times() {
    let s = segment("2026-05-05T09:15:02+09:00", "2026-05-05T09:15:18+09:00", "今日の作業を始めます。");
    assert_eq!(markdown_heading(&s), "## 09:15\n");
    assert_eq!(markdown_entry(&s), "- [09:15:02-09:15:18] 今日の作業を始めます。\n");
    let header = daily_markdown_header(&s.local_end);
    let added = markdown_addition(&header, &s);
    assert_eq!(added, "## 09:15\n- [09:15:02-09:15:18] 今日の作業を始めます。\n");
    let content = format!("{header}{added}");
    assert_eq!(content, "# 2026-05-05\n\n## 09:15\n- [09:15:02-09:15:18] 今日の作業を始めます。\n");
    assert!(content.contains("## 09:15"));
    assert!(content.contains("- [09:15:02-09:15:18] 今日の作業を始めます。"));
}

#[test]
fn heading_is_written_once_per_minute() {
    let first = segment("2026-05-05T09:15:02+09:00", "2026-05-05T09:15:18+09:00", "one");
    let second = segment("2026-05-05T09:15:20+09:00", "2026-05-05T09:15:40+09:00", "two");
    let mut content = daily_markdown_header(&first.local_end);
    content.push_str(&markdown_addition(&content, &first));
    let added = markdown_addition(&content, &second);
    assert_eq!(added, "- [09:15:20-09:15:40] two\n");
}

#[test]
fn cross_day_segment_line() {
    let s = segment("2026-05-10T23:59:58+09:00", "2026-05-11T00:00:04+09:00", "日付をまたいだ発話です。");
    let header = daily_markdown_header(&s.local_end);
    let content = format!("{header}{}", markdown_addition(&header, &s));
    assert!(content.contains("# 2026-05-11"));
    assert!(content.contains("## 00:00"));
    assert!(content.contains("- [23:59:58-00:00:04] 日付をまたいだ発話です。"));
}

#[test]
fn empty_transcript_adds_no_markdown() {
    let s = segment("2026-05-05T09:15:02+09:00", "2026-05-05T09:15:18+09:00", "");
    assert_eq!(markdown_addition("# 2026-05-05\n\n", &s), "");
}

#[test]
fn new_day_file_has_one_blank_line_before_first_heading() {
    let s = segment("2026-05-05T09:15:02+09:00", "2026-05-05T09:15:18+09:00", "今日の作業を始めます。");
    assert_eq!(new_day_markdown(&s), "# 2026-05-05\n\n## 09:15\n- [09:15:02-09:15:18] 今日の作業を始めます。\n");
    let empty = segment("2026-05-05T09:15:02+09:00", "2026-05-05T09:15:18+09:00", "");
    assert_eq!(new_day_markdown(&empty), "# 2026-05-05\n\n");
}

#[test]
fn later_minute_heading_follows_a_blank_line() {
    let first = segment("2026-05-05T09:15:02+09:00", "2026-05-05T09:15:18+09:00", "one");
    let second = segment("2026-05-05T09:16:02+09:00", "2026-05-05T09:16:10+09:00", "two");
    let content = new_day_markdown(&first);
    assert_eq!(markdown_addition(&content, &second), "\n## 09:16\n- [09:16:02-09:16:10] two\n");
}
