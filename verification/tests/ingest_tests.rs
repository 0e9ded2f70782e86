use calgrid::index::EventIndex;
use calgrid::ingest::{ingest, SkipReason, SourceFile};
use chrono::Datelike;

fn chars(s: &str) -> Vec<char> {
    s.chars().collect()
}

fn file(name: &str, content: &str) -> SourceFile {
    SourceFile { name: chars(name), content: Some(content.to_string()) }
}

fn one_event_calendar(event_body: &str) -> String {
    format!("BEGIN:VCALENDAR\nBEGIN:VEVENT\n{}END:VEVENT\nEND:VCALENDAR\n", event_body)
}

fn midnight_utc(y: i32, m: u32, d: u32) -> i64 {
    chrono::NaiveDate::from_ymd_opt(y, m, d)
        .unwrap()
        .and_hms_opt(0, 0, 0)
        .unwrap()
        .and_utc()
        .timestamp()
}

#[test]
fn non_calendar_file_contributes_nothing() {
    let content = one_event_calendar("DTSTART;VALUE=DATE:20240105\nSUMMARY:Standup\n");
    let files = vec![file("notes.txt", &content)];
    let (index, skips) = ingest(&files);
    assert_eq!(index.entries.len(), 0);
    assert_eq!(skips.len(), 0);
}

#[test]
fn uppercase_extension_is_not_the_calendar_extension() {
    let content = one_event_calendar("DTSTART;VALUE=DATE:20240105\nSUMMARY:Standup\n");
    let files = vec![file("A.ICS", &content)];
    let (index, skips) = ingest(&files);
    assert_eq!(index.entries.len(), 0);
    assert_eq!(skips.len(), 0);
}

#[test]
fn bare_date_start_normalizes_to_midnight_utc() {
    let content = one_event_calendar("DTSTART;VALUE=DATE:20240105\nSUMMARY:Standup\n");
    let files = vec![file("cal.ics", &content)];
    let (index, skips) = ingest(&files);
    assert_eq!(index.entries.len(), 1);
    assert_eq!(index.entries[0].start, midnight_utc(2024, 1, 5));
    assert_eq!(index.entries[0].summary, chars("Standup"));
    assert_eq!(skips.len(), 0);
}

#[test]
fn utc_date_time_start_keeps_its_instant() {
    let content = one_event_calendar("DTSTART:20240105T093000Z\nSUMMARY:Call\n");
    let files = vec![file("cal.ics", &content)];
    let (index, _) = ingest(&files);
    assert_eq!(index.entries.len(), 1);
    let expected = chrono::NaiveDate::from_ymd_opt(2024, 1, 5)
        .unwrap()
        .and_hms_opt(9, 30, 0)
        .unwrap()
        .and_utc()
        .timestamp();
    assert_eq!(index.entries[0].start, expected);
}

#[test]
fn distinct_starts_are_both_retrievable() {
    let content = format!(
        "BEGIN:VCALENDAR\n{}{}END:VCALENDAR\n",
        "BEGIN:VEVENT\nDTSTART;VALUE=DATE:20240105\nSUMMARY:First\nEND:VEVENT\n",
        "BEGIN:VEVENT\nDTSTART;VALUE=DATE:20240106\nSUMMARY:Second\nEND:VEVENT\n"
    );
    let files = vec![file("cal.ics", &content)];
    let (index, _) = ingest(&files);
    assert_eq!(index.entries.len(), 2);
    let d5 = midnight_utc(2024, 1, 5);
    let d6 = midnight_utc(2024, 1, 6);
    let on_5 = index.range(d5, d6);
    assert_eq!(on_5.len(), 1);
    assert_eq!(on_5[0].summary, chars("First"));
    let on_6 = index.range(d6, midnight_utc(2024, 1, 7));
    assert_eq!(on_6.len(), 1);
    assert_eq!(on_6[0].summary, chars("Second"));
}

#[test]
fn identical_start_is_overwritten_by_the_later_event() {
    let content = format!(
        "BEGIN:VCALENDAR\n{}{}END:VCALENDAR\n",
        "BEGIN:VEVENT\nDTSTART;VALUE=DATE:20240105\nSUMMARY:Early\nEND:VEVENT\n",
        "BEGIN:VEVENT\nDTSTART;VALUE=DATE:20240105\nSUMMARY:Late\nEND:VEVENT\n"
    );
    let files = vec![file("cal.ics", &content)];
    let (index, _) = ingest(&files);
    assert_eq!(index.entries.len(), 1);
    assert_eq!(index.entries[0].summary, chars("Late"));
}

#[test]
fn reingesting_the_same_files_builds_an_identical_index() {
    let content = format!(
        "BEGIN:VCALENDAR\n{}{}END:VCALENDAR\n",
        "BEGIN:VEVENT\nDTSTART;VALUE=DATE:20240106\nSUMMARY:B\nEND:VEVENT\n",
        "BEGIN:VEVENT\nDTSTART;VALUE=DATE:20240105\nSUMMARY:A\nEND:VEVENT\n"
    );
    let make = || vec![file("x.ics", &content), file("y.txt", "junk")];
    let (first, first_skips) = ingest(&make());
    let (second, second_skips) = ingest(&make());
    assert_eq!(first.entries.len(), second.entries.len());
    for (a, b) in first.entries.iter().zip(second.entries.iter()) {
        assert_eq!(a.start, b.start);
        assert_eq!(a.summary, b.summary);
    }
    assert_eq!(first_skips.len(), second_skips.len());
}

#[test]
fn entries_are_sorted_by_start() {
    let content = format!(
        "BEGIN:VCALENDAR\n{}{}{}END:VCALENDAR\n",
        "BEGIN:VEVENT\nDTSTART;VALUE=DATE:20240107\nSUMMARY:C\nEND:VEVENT\n",
        "BEGIN:VEVENT\nDTSTART;VALUE=DATE:20240105\nSUMMARY:A\nEND:VEVENT\n",
        "BEGIN:VEVENT\nDTSTART;VALUE=DATE:20240106\nSUMMARY:B\nEND:VEVENT\n"
    );
    let files = vec![file("cal.ics", &content)];
    let (index, _) = ingest(&files);
    assert_eq!(index.entries.len(), 3);
    assert!(index.entries[0].start < index.entries[1].start);
    assert!(index.entries[1].start < index.entries[2].start);
    assert_eq!(index.entries[0].summary, chars("A"));
}

#[test]
fn unparseable_calendar_is_skipped_as_malformed() {
    let good = one_event_calendar("DTSTART;VALUE=DATE:20240105\nSUMMARY:Kept\n");
    let files = vec![file("bad.ics", "this is not a calendar"), file("good.ics", &good)];
    let (index, skips) = ingest(&files);
    assert_eq!(index.entries.len(), 1);
    assert_eq!(index.entries[0].summary, chars("Kept"));
    assert_eq!(skips.len(), 1);
    assert_eq!(skips[0].name, chars("bad.ics"));
    assert_eq!(skips[0].reason, SkipReason::Malformed);
}

#[test]
fn unreadable_file_is_skipped_as_unreadable() {
    let files = vec![SourceFile { name: chars("locked.ics"), content: None }];
    let (index, skips) = ingest(&files);
    assert_eq!(index.entries.len(), 0);
    assert_eq!(skips.len(), 1);
    assert_eq!(skips[0].name, chars("locked.ics"));
    assert_eq!(skips[0].reason, SkipReason::Unreadable);
}

#[test]
fn event_without_a_start_is_skipped_with_unusable_start() {
    let content = one_event_calendar("SUMMARY:No start here\n");
    let files = vec![file("cal.ics", &content)];
    let (index, skips) = ingest(&files);
    assert_eq!(index.entries.len(), 0);
    assert_eq!(skips.len(), 1);
    assert_eq!(skips[0].name, chars("cal.ics"));
    assert_eq!(skips[0].reason, SkipReason::UnusableStart);
}

#[test]
fn start_with_an_unknown_time_zone_is_skipped_with_unusable_start() {
    let content = one_event_calendar("DTSTART;TZID=Nowhere/Invalid:20240105T100000\nSUMMARY:Lost\n");
    let files = vec![file("cal.ics", &content)];
    let (index, skips) = ingest(&files);
    assert_eq!(index.entries.len(), 0);
    assert_eq!(skips.len(), 1);
    assert_eq!(skips[0].reason, SkipReason::UnusableStart);
}

#[test]
fn empty_index_answers_range_queries_with_nothing() {
    let index = EventIndex::new();
    assert_eq!(index.range(0, i64::MAX).len(), 0);
}
