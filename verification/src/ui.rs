use vstd::prelude::*;
use vstd::arithmetic::div_mod::{lemma_fundamental_div_mod, lemma_mod_multiples_vanish};
use crate::event::{DAY_SECONDS, EPOCH_DAY, copy_chars, day_start_secs};
use crate::index::{EventIndex, RecModel, in_range};
use crate::state::{CalendarState, CalendarView, today_day};

verus! {

/// How a rendered line should be styled.
#[derive(Clone, Copy, Debug, PartialEq, Eq, Structural)]
pub enum LineKind {
    /// A day-cell header.
    Header,
    /// A day-cell header for the current day, shown highlighted.
    HeaderToday,
    /// One event's summary.
    Event,
    /// The "{n} more" line standing for omitted events.
    More,
}

/// One rendered line of a day cell.
#[derive(Debug)]
pub struct CellLine {
    pub kind: LineKind,
    pub text: Vec<char>,
}

/// Mathematical model of a rendered line.
pub ghost struct LineModel {
    pub kind: LineKind,
    pub text: Seq<char>,
}

impl DeepView for CellLine {
    type V = LineModel;

    open spec fn deep_view(&self) -> LineModel {
        LineModel { kind: self.kind, text: self.text@ }
    }
}

/// One day cell: the day it shows and its lines, header first.
#[derive(Debug)]
pub struct DayCell {
    pub day: i64,
    pub lines: Vec<CellLine>,
}

/// Mathematical model of a day cell.
pub ghost struct CellModel {
    pub day: int,
    pub lines: Seq<LineModel>,
}

impl DeepView for DayCell {
    type V = CellModel;

    open spec fn deep_view(&self) -> CellModel {
        CellModel { day: self.day as int, lines: self.lines.deep_view() }
    }
}

/// The laid-out month grid: 35 day cells in row-major order and the
/// uniform cell size hints for the renderer.
#[derive(Debug)]
pub struct MonthGrid {
    pub cells: Vec<DayCell>,
    pub cell_width: u16,
    pub cell_height: u16,
}

/// Mathematical model of the month grid.
pub ghost struct GridModel {
    pub cells: Seq<CellModel>,
    pub cell_width: int,
    pub cell_height: int,
}

impl DeepView for MonthGrid {
    type V = GridModel;

    open spec fn deep_view(&self) -> GridModel {
        GridModel {
            cells: self.cells.deep_view(),
            cell_width: self.cell_width as int,
            cell_height: self.cell_height as int,
        }
    }
}

/// The weekday of a day number, with 0 for Monday through 6 for Sunday;
/// day 1, 0001-01-01, was a Monday.
pub open spec fn weekday_index(day: int) -> int {
    (day - 1) % 7
}

/// The last Monday on or before the given day.
pub open spec fn monday_on_or_before(day: int) -> int {
    day - weekday_index(day)
}

/// The decimal digit characters of a number, most significant first.
pub open spec fn decimal_digits(n: nat) -> Seq<char>
    decreases n,
{
    if n < 10 {
        seq![digit_char(n)]
    } else {
        decimal_digits(n / 10).push(digit_char(n % 10))
    }
}

/// The character of one decimal digit.
pub open spec fn digit_char(d: nat) -> char {
    if d == 0 {
        '0'
    } else if d == 1 {
        '1'
    } else if d == 2 {
        '2'
    } else if d == 3 {
        '3'
    } else if d == 4 {
        '4'
    } else if d == 5 {
        '5'
    } else if d == 6 {
        '6'
    } else if d == 7 {
        '7'
    } else if d == 8 {
        '8'
    } else {
        '9'
    }
}

/// The text of the line standing for omitted events.
pub open spec fn more_text(n: nat) -> Seq<char> {
    decimal_digits(n) + seq![' ', 'm', 'o', 'r', 'e']
}

/// One event summary as rendered into a cell of the given width: kept
/// whole when it fits, otherwise its first `width - 1` characters with a
/// trailing ellipsis; a zero-width cell renders nothing.
pub open spec fn rendered_summary(s: Seq<char>, width: int) -> Seq<char> {
    if s.len() <= width {
        s
    } else if width == 0 {
        Seq::empty()
    } else {
        s.take(width - 1).push('\u{2026}')
    }
}

/// The event lines of one day, in index order.
pub open spec fn event_lines(evs: Seq<RecModel>, width: int) -> Seq<LineModel> {
    evs.map_values(
        |r: RecModel| LineModel { kind: LineKind::Event, text: rendered_summary(r.summary, width) },
    )
}

/// How many event lines fit under a cell's header.
pub open spec fn cell_max_lines(cell_height: int) -> int {
    if cell_height == 0 {
        0
    } else {
        cell_height - 1
    }
}

/// The truncation policy: at most `max` lines come out. A list that fits
/// passes through; a longer one keeps its first `max - 1` lines and ends
/// with one "{n} more" line counting the omitted events. With `max` of
/// zero nothing is emitted.
pub open spec fn truncated_lines(lines: Seq<LineModel>, max: int) -> Seq<LineModel> {
    if lines.len() <= max {
        lines
    } else if max == 0 {
        Seq::empty()
    } else {
        lines.take(max - 1).push(
            LineModel { kind: LineKind::More, text: more_text((lines.len() - max + 1) as nat) },
        )
    }
}

/// The label of a day's header, e.g. "Jan 05": what chrono's `%b %d`
/// format prints for the day, a function of the day alone.
pub uninterp spec fn month_day_label(day: int) -> Seq<char>;

/// One fully laid-out day cell.
pub open spec fn day_cell(day: int, today: int, idx: Seq<RecModel>, width: int, cell_height: int) -> CellModel {
    let header = LineModel {
        kind: if day == today {
            LineKind::HeaderToday
        } else {
            LineKind::Header
        },
        text: month_day_label(day),
    };
    let evs = in_range(idx, day_start_secs(day), day_start_secs(day + 1));
    CellModel {
        day,
        lines: seq![header] + truncated_lines(event_lines(evs, width), cell_max_lines(cell_height)),
    }
}

/// The whole month grid for an anchor day: 35 consecutive days starting
/// at the last Monday on or before the anchor, with uniform cell sizes
/// from integer division of the area.
pub open spec fn month_grid_model(
    anchor: int,
    today: int,
    idx: Seq<RecModel>,
    height: int,
    width: int,
) -> GridModel {
    let monday = monday_on_or_before(anchor);
    GridModel {
        cells: Seq::new(35, |i: int| day_cell(monday + i, today, idx, width / 7, height / 5)),
        cell_width: width / 7,
        cell_height: height / 5,
    }
}

/// Relies on chrono: `NaiveDate::from_num_days_from_ce_opt` rebuilds the
/// date (a day outside chrono's range yields no date and an empty label)
/// and `NaiveDate::format` with `"%b %d"` prints the always-English
/// three-letter month abbreviation and the zero-padded day, e.g.
/// "Jan 05". The label is a function of the day alone; `month_day_label`
/// names it.
#[verifier::external_body]
fn format_day_label(day: i64) -> (r: Vec<char>)
    ensures
        r@ == month_day_label(day as int),
{
    match i32::try_from(day).ok().and_then(chrono::NaiveDate::from_num_days_from_ce_opt) {
        Some(d) => d.format("%b %d").to_string().chars().collect(),
        None => Vec::new(),
    }
}

/// The weekday of a day number, 0 for Monday through 6 for Sunday.
fn weekday_of(day: i64) -> (r: u64)
    requires
        -2147483700 <= day <= 2147483700,
    ensures
        r == weekday_index(day as int),
        r < 7,
{
    let n: i64 = day - 1 + 2800000000;
    let m: u64 = (n as u64) % 7;
    proof {
        lemma_mod_multiples_vanish(400000000, day - 1, 7);
        assert(7 * 400000000 + (day - 1) == n as int);
    }
    m
}

/// The character of one decimal digit.
fn digit_to_char(d: usize) -> (c: char)
    requires
        d < 10,
    ensures
        c == digit_char(d as nat),
{
    if d == 0 {
        '0'
    } else if d == 1 {
        '1'
    } else if d == 2 {
        '2'
    } else if d == 3 {
        '3'
    } else if d == 4 {
        '4'
    } else if d == 5 {
        '5'
    } else if d == 6 {
        '6'
    } else if d == 7 {
        '7'
    } else if d == 8 {
        '8'
    } else {
        '9'
    }
}

/// The decimal digit characters of a number, most significant first.
fn decimal_chars(n: usize) -> (r: Vec<char>)
    ensures
        r@ == decimal_digits(n as nat),
    decreases n,
{
    if n < 10 {
        let mut v: Vec<char> = Vec::new();
        v.push(digit_to_char(n));
        proof {
            assert(v@ =~= seq![digit_char(n as nat)]);
        }
        v
    } else {
        let mut v = decimal_chars(n / 10);
        v.push(digit_to_char(n % 10));
        proof {
            assert(v@ =~= decimal_digits((n / 10) as nat).push(digit_char((n % 10) as nat)));
        }
        v
    }
}

/// Renders one event summary into a line of at most `width` characters.
pub fn render_event(summary: &Vec<char>, width: usize) -> (r: Vec<char>)
    ensures
        r@ == rendered_summary(summary@, width as int),
{
    if summary.len() <= width {
        copy_chars(summary)
    } else if width == 0 {
        Vec::new()
    } else {
        let mut out: Vec<char> = Vec::new();
        let mut j: usize = 0;
        while j < width - 1
            invariant
                1 <= width,
                width < summary@.len(),
                j <= width - 1,
                out@ == summary@.take(j as int),
            decreases width - 1 - j,
        {
            out.push(summary[j]);
            proof {
                assert(summary@.take(j + 1) =~= summary@.take(j as int).push(summary@[j as int]));
            }
            j += 1;
        }
        out.push('\u{2026}');
        proof {
            assert(out@ =~= summary@.take(width - 1).push('\u{2026}'));
        }
        out
    }
}

/// Bounds a day's event lines to `max`, standing a "{n} more" line in
/// for the omitted ones.
pub fn more_line(max: usize, lines: Vec<CellLine>) -> (r: Vec<CellLine>)
    ensures
        r.deep_view() == truncated_lines(lines.deep_view(), max as int),
{
    let ghost lm = lines.deep_view();
    if lines.len() <= max {
        lines
    } else if max == 0 {
        let r: Vec<CellLine> = Vec::new();
        proof {
            assert(r.deep_view() =~= truncated_lines(lm, max as int));
        }
        r
    } else {
        let omitted = lines.len() - max + 1;
        let mut kept = lines;
        kept.truncate(max - 1);
        let mut text = decimal_chars(omitted);
        text.push(' ');
        text.push('m');
        text.push('o');
        text.push('r');
        text.push('e');
        proof {
            assert(text@ =~= more_text(omitted as nat));
        }
        kept.push(CellLine { kind: LineKind::More, text });
        proof {
            assert(kept.deep_view() =~= truncated_lines(lm, max as int));
        }
        kept
    }
}

/// Builds one day cell: its header, then its truncated event lines.
fn build_cell(day: i64, today: i64, events: &EventIndex, cell_width: u16, cell_height: u16) -> (c:
    DayCell)
    requires
        -2147483700 <= day <= 2147483700,
    ensures
        c.deep_view() == day_cell(
            day as int,
            today as int,
            events.deep_view(),
            cell_width as int,
            cell_height as int,
        ),
{
    let lo = (day - EPOCH_DAY) * DAY_SECONDS;
    let hi = (day + 1 - EPOCH_DAY) * DAY_SECONDS;
    let evs = events.range(lo, hi);
    let ghost evm = evs.deep_view();
    let w = cell_width as usize;
    let mut ev_lines: Vec<CellLine> = Vec::new();
    let mut j: usize = 0;
    proof {
        assert(evm.take(0) =~= Seq::<RecModel>::empty());
        assert(ev_lines.deep_view() =~= event_lines(evm.take(0), w as int));
    }
    while j < evs.len()
        invariant
            j <= evs@.len(),
            evm == evs.deep_view(),
            evs@.len() == evm.len(),
            w == cell_width as usize,
            ev_lines.deep_view() == event_lines(evm.take(j as int), w as int),
        decreases evs@.len() - j,
    {
        let text = render_event(&evs[j].summary, w);
        let ghost tv = text@;
        let ghost before = ev_lines.deep_view();
        ev_lines.push(CellLine { kind: LineKind::Event, text });
        proof {
            let jj = j as int;
            assert(ev_lines.deep_view() =~= before.push(
                LineModel { kind: LineKind::Event, text: tv },
            ));
            assert(evm[jj] == evs@[jj].deep_view());
            assert(tv == rendered_summary(evm[jj].summary, w as int));
            assert(evm.take(jj + 1) =~= evm.take(jj).push(evm[jj]));
            assert(event_lines(evm.take(jj).push(evm[jj]), w as int) =~= event_lines(
                evm.take(jj),
                w as int,
            ).push(
                LineModel {
                    kind: LineKind::Event,
                    text: rendered_summary(evm[jj].summary, w as int),
                },
            ));
            assert(ev_lines.deep_view() =~= event_lines(evm.take(jj + 1), w as int));
        }
        j += 1;
    }
    proof {
        assert(evm.take(evm.len() as int) =~= evm);
    }
    let max: usize = if cell_height == 0 {
        0
    } else {
        (cell_height - 1) as usize
    };
    let truncated = more_line(max, ev_lines);
    let kind = if day == today {
        LineKind::HeaderToday
    } else {
        LineKind::Header
    };
    let text = format_day_label(day);
    let mut lines: Vec<CellLine> = Vec::new();
    lines.push(CellLine { kind, text });
    let mut rest = truncated;
    lines.append(&mut rest);
    let c = DayCell { day, lines };
    proof {
        let spec_cell = day_cell(
            day as int,
            today as int,
            events.deep_view(),
            cell_width as int,
            cell_height as int,
        );
        assert(c.deep_view().lines =~= spec_cell.lines);
    }
    c
}

/// Lays the month out around an anchor day: a 5 by 7 grid of consecutive
/// days starting at the last Monday on or before the anchor, each cell
/// sized by integer division of the area and filled with that day's
/// events, truncated to the cell.
pub fn month_grid(anchor: i64, today: i64, events: &EventIndex, height: u16, width: u16) -> (g:
    MonthGrid)
    requires
        -2147483648 <= anchor <= 2147483647,
    ensures
        g.deep_view() == month_grid_model(
            anchor as int,
            today as int,
            events.deep_view(),
            height as int,
            width as int,
        ),
{
    let cell_height = height / 5;
    let cell_width = width / 7;
    let wd = weekday_of(anchor);
    let monday = anchor - (wd as i64);
    let ghost em = events.deep_view();
    let ghost gm = month_grid_model(anchor as int, today as int, em, height as int, width as int);
    let mut cells: Vec<DayCell> = Vec::new();
    proof {
        assert(cells.deep_view() =~= gm.cells.take(0));
    }
    let mut i: usize = 0;
    while i < 35
        invariant
            i <= 35,
            em == events.deep_view(),
            gm == month_grid_model(anchor as int, today as int, em, height as int, width as int),
            monday == monday_on_or_before(anchor as int),
            -2147483655 <= monday <= 2147483647,
            cell_height == height / 5,
            cell_width == width / 7,
            cells.deep_view() == gm.cells.take(i as int),
        decreases 35 - i,
    {
        let day = monday + (i as i64);
        let cell = build_cell(day, today, events, cell_width, cell_height);
        let ghost cv = cell.deep_view();
        let ghost before = cells.deep_view();
        cells.push(cell);
        proof {
            let ii = i as int;
            assert(cells.deep_view() =~= before.push(cv));
            assert(gm.cells[ii] == day_cell(
                monday_on_or_before(anchor as int) + ii,
                today as int,
                em,
                width as int / 7,
                height as int / 5,
            ));
            assert(gm.cells.take(ii + 1) =~= gm.cells.take(ii).push(gm.cells[ii]));
            assert(cells.deep_view() =~= gm.cells.take(ii + 1));
        }
        i += 1;
    }
    proof {
        assert(gm.cells.take(35) =~= gm.cells);
    }
    let g = MonthGrid { cells, cell_width, cell_height };
    proof {
        assert(g.deep_view() =~= gm);
    }
    g
}

/// Errors the layout can report.
#[derive(Clone, Copy, Debug, PartialEq, Eq, Structural)]
pub enum LayoutError {
    /// The week view has no layout.
    UnsupportedView,
}

/// Lays out the current view for an area of `height` by `width`
/// character cells. The month view yields the month grid for its anchor,
/// with the current day taken from the clock; the week view is
/// unsupported and reported as such rather than a fault.
pub fn ui(state: &CalendarState, height: u16, width: u16) -> (r: Result<MonthGrid, LayoutError>)
    requires
        state.wf(),
    ensures
        match state.view {
            CalendarView::Month(a) => r matches Ok(g) && (exists|t: i64|
                g.deep_view() == month_grid_model(
                    a as int,
                    t as int,
                    state.events.deep_view(),
                    height as int,
                    width as int,
                )),
            CalendarView::Week(_) => r matches Err(LayoutError::UnsupportedView),
        },
{
    match state.view {
        CalendarView::Month(a) => {
            let today = today_day();
            let g = month_grid(a, today, &state.events, height, width);
            proof {
                assert(g.deep_view() == month_grid_model(
                    a as int,
                    today as int,
                    state.events.deep_view(),
                    height as int,
                    width as int,
                ));
            }
            Ok(g)
        },
        CalendarView::Week(_) => Err(LayoutError::UnsupportedView),
    }
}

/// The grid's top-left cell is always the last Monday on or before the
/// anchor, and its 35 cells run over consecutive calendar days from it.
pub proof fn lemma_grid_days(anchor: int, today: int, idx: Seq<RecModel>, height: int, width: int)
    ensures
        weekday_index(monday_on_or_before(anchor)) == 0,
        monday_on_or_before(anchor) <= anchor,
        anchor - monday_on_or_before(anchor) < 7,
        month_grid_model(anchor, today, idx, height, width).cells.len() == 35,
        forall|i: int| 0 <= i < 35 ==> #[trigger] month_grid_model(
            anchor,
            today,
            idx,
            height,
            width,
        ).cells[i].day == monday_on_or_before(anchor) + i,
{
    lemma_fundamental_div_mod(anchor - 1, 7);
    let q = (anchor - 1) / 7;
    lemma_mod_multiples_vanish(q, 0, 7);
    assert(monday_on_or_before(anchor) - 1 == 7 * q);
}

/// For a cell whose event lines exceed `max`, exactly `max` lines come
/// out: the first `max - 1` event lines unchanged, then one line reading
/// "{n} more", where `n` counts the events that lost their line.
pub proof fn lemma_truncation_law(lines: Seq<LineModel>, max: int)
    requires
        max >= 1,
        lines.len() > max,
    ensures
        truncated_lines(lines, max).len() == max,
        (truncated_lines(lines, max).last() == LineModel {
            kind: LineKind::More,
            text: more_text((lines.len() - max + 1) as nat),
        }),
        forall|i: int| 0 <= i < max - 1 ==> truncated_lines(lines, max)[i] == lines[i],
{
}

/// A summary longer than the cell width renders at exactly the cell
/// width: its first `width - 1` characters, then the ellipsis.
pub proof fn lemma_summary_truncation_law(s: Seq<char>, width: int)
    requires
        width >= 1,
        s.len() > width,
    ensures
        rendered_summary(s, width).len() == width,
        rendered_summary(s, width).take(width - 1) == s.take(width - 1),
        rendered_summary(s, width).last() == '\u{2026}',
{
    assert(rendered_summary(s, width).take(width - 1) =~= s.take(width - 1));
}

} // verus!
