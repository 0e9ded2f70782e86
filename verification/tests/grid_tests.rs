use calgrid::index::EventIndex;
use calgrid::ingest::{ingest, SourceFile};
use calgrid::state::{CalendarState, CalendarView};
use calgrid::ui::{month_grid, more_line, render_event, ui, CellLine, LayoutError, LineKind};
use chrono::Datelike;

fn chars(s: &str) -> Vec<char> {
    s.chars().collect()
}

fn day_num(y: i32, m: u32, d: u32) -> i64 {
    chrono::NaiveDate::from_ymd_opt(y, m, d).unwrap().num_days_from_ce() as i64
}

fn file(name: &str, content: &str) -> SourceFile {
    SourceFile { name: chars(name), content: Some(content.to_string()) }
}

fn one_event_calendar(event_body: &str) -> String {
    format!("BEGIN:VCALENDAR\nBEGIN:VEVENT\n{}END:VEVENT\nEND:VCALENDAR\n", event_body)
}

fn calendar_with_hourly_events(count: u32) -> String {
    let mut body = String::from("BEGIN:VCALENDAR\n");
    for i in 0..count {
        body.push_str(&format!(
            "BEGIN:VEVENT\nDTSTART:20240105T{:02}0000Z\nSUMMARY:e{}\nEND:VEVENT\n",
            8 + i,
            i + 1
        ));
    }
    body.push_str("END:VCALENDAR\n");
    body
}

#[test]
fn grid_starts_on_a_monday_and_runs_over_consecutive_days() {
    let index = EventIndex::new();
    let anchor = day_num(2024, 1, 4);
    let grid = month_grid(anchor, day_num(2024, 1, 4), &index, 25, 70);
    assert_eq!(grid.cells.len(), 35);
    assert_eq!(grid.cells[0].day, day_num(2024, 1, 1));
    let first = chrono::NaiveDate::from_num_days_from_ce_opt(grid.cells[0].day as i32).unwrap();
    assert_eq!(first.weekday(), chrono::Weekday::Mon);
    assert!(grid.cells[0].day <= anchor);
    for i in 1..35 {
        assert_eq!(grid.cells[i].day, grid.cells[0].day + i as i64);
    }
}

#[test]
fn grid_cell_sizes_come_from_integer_division() {
    let index = EventIndex::new();
    let grid = month_grid(day_num(2024, 1, 1), day_num(2024, 1, 1), &index, 27, 73);
    assert_eq!(grid.cell_height, 5);
    assert_eq!(grid.cell_width, 10);
}

#[test]
fn standup_lands_in_its_day_cell_with_its_header() {
    let content = one_event_calendar("DTSTART;VALUE=DATE:20240105\nSUMMARY:Standup\n");
    let files = vec![file("cal.ics", &content)];
    let (index, skips) = ingest(&files);
    assert_eq!(skips.len(), 0);
    let grid = month_grid(day_num(2024, 1, 1), day_num(2024, 1, 10), &index, 25, 70);
    let cell = &grid.cells[4];
    assert_eq!(cell.day, day_num(2024, 1, 5));
    assert_eq!(cell.lines.len(), 2);
    assert_eq!(cell.lines[0].kind, LineKind::Header);
    assert_eq!(cell.lines[0].text, chars("Jan 05"));
    assert_eq!(cell.lines[1].kind, LineKind::Event);
    assert_eq!(cell.lines[1].text, chars("Standup"));
}

#[test]
fn todays_cell_header_is_highlighted() {
    let index = EventIndex::new();
    let grid = month_grid(day_num(2024, 1, 1), day_num(2024, 1, 5), &index, 25, 70);
    assert_eq!(grid.cells[4].lines[0].kind, LineKind::HeaderToday);
    assert_eq!(grid.cells[0].lines[0].kind, LineKind::Header);
}

#[test]
fn six_events_in_a_four_line_cell_truncate_to_four_more() {
    let files = vec![file("cal.ics", &calendar_with_hourly_events(6))];
    let (index, skips) = ingest(&files);
    assert_eq!(skips.len(), 0);
    assert_eq!(index.entries.len(), 6);
    let grid = month_grid(day_num(2024, 1, 1), day_num(2024, 1, 1), &index, 20, 70);
    assert_eq!(grid.cell_height, 4);
    let cell = &grid.cells[4];
    assert_eq!(cell.day, day_num(2024, 1, 5));
    assert_eq!(cell.lines.len(), 4);
    assert_eq!(cell.lines[1].text, chars("e1"));
    assert_eq!(cell.lines[2].text, chars("e2"));
    assert_eq!(cell.lines[3].kind, LineKind::More);
    assert_eq!(cell.lines[3].text, chars("4 more"));
}

#[test]
fn events_that_fit_pass_through_without_a_more_line() {
    let files = vec![file("cal.ics", &calendar_with_hourly_events(3))];
    let (index, _) = ingest(&files);
    let grid = month_grid(day_num(2024, 1, 1), day_num(2024, 1, 1), &index, 20, 70);
    let cell = &grid.cells[4];
    assert_eq!(cell.lines.len(), 4);
    assert_eq!(cell.lines[1].text, chars("e1"));
    assert_eq!(cell.lines[2].text, chars("e2"));
    assert_eq!(cell.lines[3].kind, LineKind::Event);
    assert_eq!(cell.lines[3].text, chars("e3"));
}

#[test]
fn more_line_counts_omitted_events_with_multi_digit_numbers() {
    let lines: Vec<CellLine> = (0..14)
        .map(|i| CellLine { kind: LineKind::Event, text: chars(&format!("e{}", i)) })
        .collect();
    let out = more_line(3, lines);
    assert_eq!(out.len(), 3);
    assert_eq!(out[0].text, chars("e0"));
    assert_eq!(out[1].text, chars("e1"));
    assert_eq!(out[2].kind, LineKind::More);
    assert_eq!(out[2].text, chars("12 more"));
}

#[test]
fn more_line_with_zero_budget_emits_nothing() {
    let lines: Vec<CellLine> =
        (0..2).map(|i| CellLine { kind: LineKind::Event, text: chars(&format!("e{}", i)) }).collect();
    let out = more_line(0, lines);
    assert_eq!(out.len(), 0);
}

#[test]
fn long_summary_is_cut_at_cell_width_with_an_ellipsis() {
    let summary = chars("Standup meeting");
    let line = render_event(&summary, 10);
    assert_eq!(line.len(), 10);
    assert_eq!(&line[..9], &summary[..9]);
    assert_eq!(line[9], '\u{2026}');
}

#[test]
fn short_summary_is_rendered_whole() {
    let summary = chars("Standup");
    let line = render_event(&summary, 10);
    assert_eq!(line, chars("Standup"));
}

#[test]
fn zero_height_area_leaves_only_headers() {
    let files = vec![file("cal.ics", &calendar_with_hourly_events(2))];
    let (index, _) = ingest(&files);
    let grid = month_grid(day_num(2024, 1, 1), day_num(2024, 1, 1), &index, 4, 70);
    assert_eq!(grid.cell_height, 0);
    for cell in &grid.cells {
        assert_eq!(cell.lines.len(), 1);
    }
}

#[test]
fn month_view_lays_out_and_week_view_is_unsupported() {
    let (state, _) = CalendarState::with_anchor(day_num(2024, 1, 1), &Vec::new());
    let grid = ui(&state, 25, 70).unwrap();
    assert_eq!(grid.cells.len(), 35);
    let week = CalendarState { view: CalendarView::Week(day_num(2024, 1, 1)), events: EventIndex::new() };
    assert!(matches!(ui(&week, 25, 70), Err(LayoutError::UnsupportedView)));
}

#[test]
fn midnight_event_lands_only_in_its_own_day_cell() {
    let content = one_event_calendar("DTSTART:20240106T000000Z\nSUMMARY:Midnight\n");
    let files = vec![file("cal.ics", &content)];
    let (index, _) = ingest(&files);
    let grid = month_grid(day_num(2024, 1, 1), day_num(2024, 1, 1), &index, 25, 70);
    let friday = &grid.cells[4];
    let saturday = &grid.cells[5];
    assert_eq!(friday.day, day_num(2024, 1, 5));
    assert_eq!(friday.lines.len(), 1);
    assert_eq!(saturday.day, day_num(2024, 1, 6));
    assert_eq!(saturday.lines.len(), 2);
    assert_eq!(saturday.lines[1].text, chars("Midnight"));
}

#[test]
fn startup_state_is_a_month_view() {
    let (state, skips) = CalendarState::new(&Vec::new());
    assert!(matches!(state.view, CalendarView::Month(_)));
    assert_eq!(state.events.entries.len(), 0);
    assert_eq!(skips.len(), 0);
}
