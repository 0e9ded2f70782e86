use vstd::prelude::*;
use crate::index::EventIndex;
use crate::ingest::{SourceFile, Skip, ingest, index_after, skips_after};
use chrono::Datelike;

verus! {

/// The display mode and the day it is anchored at.
#[derive(Clone, Copy, Debug)]
pub enum CalendarView {
    /// Month view anchored at the given day.
    Month(i64),
    /// Week view anchored at the given day; no layout is implemented for
    /// it, and asking for one is reported as unsupported.
    Week(i64),
}

impl CalendarView {
    /// The anchor day lies in the 32-bit range that chrono's day numbers
    /// never leave, so day arithmetic on it cannot overflow.
    pub open spec fn anchor_in_bounds(&self) -> bool {
        match *self {
            CalendarView::Month(a) => -2147483648 <= a <= 2147483647,
            CalendarView::Week(a) => -2147483648 <= a <= 2147483647,
        }
    }
}

/// Relies on chrono: one `Local::now` read, `DateTime::date_naive`,
/// `Datelike::with_day(1)` and `Datelike::num_days_from_ce`. Returns
/// today's local date and the first day of its month, as day numbers.
/// The values depend on the clock, so only bounds are promised: they
/// come from `num_days_from_ce` returning an `i32`, and from the first
/// of a month lying at most 30 days before any day of that month.
/// `with_day(1)` cannot fail on a valid date.
#[verifier::external_body]
fn local_today() -> (r: (i64, i64))
    ensures
        -2147483648 <= r.1 <= r.0 <= 2147483647,
        r.0 - r.1 <= 30,
{
    let now = chrono::Local::now().date_naive();
    let first = now.with_day(1).unwrap();
    (now.num_days_from_ce() as i64, first.num_days_from_ce() as i64)
}

/// Today's local date as a day number, for highlighting the current day.
/// The value depends on the clock; only its bounds are promised.
pub fn today_day() -> (r: i64)
    ensures
        -2147483648 <= r <= 2147483647,
{
    let (today, _) = local_today();
    today
}

/// The whole viewer state: the current view and the event index, built
/// once from the scanned files and read-only afterwards.
pub struct CalendarState {
    pub view: CalendarView,
    pub events: EventIndex,
}

impl CalendarState {
    /// The state invariant: a well-formed index and an in-range anchor.
    pub open spec fn wf(&self) -> bool {
        self.events.wf() && self.view.anchor_in_bounds()
    }

    /// Builds the state from the scanned files, with the month view
    /// anchored at the given day.
    pub fn with_anchor(anchor: i64, files: &Vec<SourceFile>) -> (r: (CalendarState, Vec<Skip>))
        requires
            -2147483648 <= anchor <= 2147483647,
        ensures
            r.0.view == CalendarView::Month(anchor),
            r.0.events.deep_view() == index_after(files.deep_view()),
            r.1.deep_view() == skips_after(files.deep_view()),
            r.0.wf(),
    {
        let (events, skips) = ingest(files);
        (CalendarState { view: CalendarView::Month(anchor), events }, skips)
    }

    /// Builds the state from the scanned files, anchored at the first
    /// day of the current local month, as at startup.
    pub fn new(files: &Vec<SourceFile>) -> (r: (CalendarState, Vec<Skip>))
        ensures
            r.0.view matches CalendarView::Month(_),
            r.0.events.deep_view() == index_after(files.deep_view()),
            r.1.deep_view() == skips_after(files.deep_view()),
            r.0.wf(),
    {
        let (_, first) = local_today();
        Self::with_anchor(first, files)
    }
}

} // verus!
