use vstd::prelude::*;
use crate::event::{StartField, start_instant, utc_start, copy_chars};
use crate::index::{EventIndex, EventRecord, RecModel, seq_insert};
use icalendar::Component;

verus! {

/// One event as read out of a calendar document: its start field and its
/// summary text (empty when absent).
#[derive(Debug)]
pub struct RawEvent {
    pub start: StartField,
    pub summary: Vec<char>,
}

/// Mathematical model of a raw event.
pub ghost struct RawModel {
    pub start: StartField,
    pub summary: Seq<char>,
}

impl DeepView for RawEvent {
    type V = RawModel;

    open spec fn deep_view(&self) -> RawModel {
        RawModel { start: self.start, summary: self.summary@ }
    }
}

/// A file handed to ingestion: its name and its text, or `None` when the
/// file could not be read.
#[derive(Debug)]
pub struct SourceFile {
    pub name: Vec<char>,
    pub content: Option<String>,
}

/// Mathematical model of a source file.
pub ghost struct FileModel {
    pub name: Seq<char>,
    pub content: Option<Seq<char>>,
}

impl DeepView for SourceFile {
    type V = FileModel;

    open spec fn deep_view(&self) -> FileModel {
        FileModel { name: self.name@, content: self.content.deep_view() }
    }
}

/// Why a file or an event contributed nothing to the index.
#[derive(Clone, Copy, Debug, PartialEq, Eq, Structural)]
pub enum SkipReason {
    /// The file could not be read as text.
    Unreadable,
    /// The file could not be parsed as a calendar document.
    Malformed,
    /// The event had no start, or one that could not be normalized to UTC.
    UnusableStart,
}

/// One skipped item: the name of the file it came from and the reason.
#[derive(Debug)]
pub struct Skip {
    pub name: Vec<char>,
    pub reason: SkipReason,
}

/// Mathematical model of a skip record.
pub ghost struct SkipModel {
    pub name: Seq<char>,
    pub reason: SkipReason,
}

impl DeepView for Skip {
    type V = SkipModel;

    open spec fn deep_view(&self) -> SkipModel {
        SkipModel { name: self.name@, reason: self.reason }
    }
}

/// The event list that parsing a calendar text yields, as this library
/// reads it: each event component's start field and summary, in document
/// order; `None` when the text is not a parseable calendar document.
pub uninterp spec fn parsed_events(text: Seq<char>) -> Option<Seq<RawModel>>;

/// A bare-date start read from a parsed document fits in 32 bits.
pub open spec fn start_in_bounds(e: RawModel) -> bool {
    e.start matches StartField::Date(d) ==> -2147483648 <= d <= 2147483647
}

/// Relies on icalendar's parser: `str::parse::<Calendar>` reads the
/// document, and for each `CalendarComponent::Event` in it,
/// `Event::get_start` and `Event::get_summary` read the fields, with
/// `CalendarDateTime::try_into_utc` and `DateTime::timestamp`, or
/// chrono's `Datelike::num_days_from_ce` for bare dates, turning the
/// start into plain values. `parsed_events` names the event list, a
/// function of the text alone; the bound on bare dates holds because
/// `num_days_from_ce` returns an `i32`.
#[verifier::external_body]
fn parse_calendar(text: &String) -> (r: Option<Vec<RawEvent>>)
    ensures
        match r {
            Some(v) => parsed_events(text@) == Some(v.deep_view()) && forall|i: int|
                0 <= i < v.deep_view().len() ==> start_in_bounds(#[trigger] v.deep_view()[i]),
            None => parsed_events(text@) is None,
        },
{
    let cal = match text.parse::<icalendar::Calendar>() { Ok(c) => c, Err(_) => return None };
    Some(cal.components.into_iter().filter_map(|c| match c {
        icalendar::CalendarComponent::Event(e) => Some(RawEvent {
            start: match e.get_start() {
                Some(icalendar::DatePerhapsTime::Date(d)) =>
                    StartField::Date(chrono::Datelike::num_days_from_ce(&d) as i64),
                Some(icalendar::DatePerhapsTime::DateTime(dt)) => dt.try_into_utc()
                    .map_or(StartField::Absent, |u| StartField::Instant(u.timestamp())),
                None => StartField::Absent,
            },
            summary: e.get_summary().unwrap_or_default().chars().collect(),
        }),
        _ => None,
    }).collect())
}

/// Whether a file name ends in the calendar-file extension `.ics`.
pub open spec fn is_calendar_name(name: Seq<char>) -> bool {
    name.len() >= 4 && name.subrange(name.len() - 4, name.len() as int) == seq!['.', 'i', 'c', 's']
}

/// Checks the calendar-file extension on a name.
pub fn is_ics_name(name: &Vec<char>) -> (r: bool)
    ensures
        r == is_calendar_name(name@),
{
    let n = name.len();
    if n < 4 {
        return false;
    }
    let r = name[n - 4] == '.' && name[n - 3] == 'i' && name[n - 2] == 'c' && name[n - 1] == 's';
    proof {
        let sub = name@.subrange(n - 4, n as int);
        assert(sub[0] == name@[n - 4] && sub[1] == name@[n - 3] && sub[2] == name@[n - 2] && sub[3]
            == name@[n - 1]);
        let ext = seq!['.', 'i', 'c', 's'];
        assert(ext[0] == '.' && ext[1] == 'i' && ext[2] == 'c' && ext[3] == 's');
        if r {
            assert(sub =~= ext);
        } else if sub == ext {
            assert(false);
        }
    }
    r
}

/// The index after folding one parsed event list, in document order, into
/// an accumulated index.
pub open spec fn index_after_events(acc: Seq<RecModel>, evs: Seq<RawModel>) -> Seq<RecModel>
    decreases evs.len(),
{
    if evs.len() == 0 {
        acc
    } else {
        let prev = index_after_events(acc, evs.drop_last());
        match start_instant(evs.last().start) {
            Some(t) => seq_insert(prev, RecModel { start: t, summary: evs.last().summary }),
            None => prev,
        }
    }
}

/// The index after one file: a file not ending in the calendar extension,
/// an unreadable file and an unparseable document all contribute nothing.
pub open spec fn index_after_file(acc: Seq<RecModel>, f: FileModel) -> Seq<RecModel> {
    if is_calendar_name(f.name) {
        match f.content {
            Some(text) => match parsed_events(text) {
                Some(evs) => index_after_events(acc, evs),
                None => acc,
            },
            None => acc,
        }
    } else {
        acc
    }
}

/// The index that ingesting a sequence of files builds, in file order.
pub open spec fn index_after(files: Seq<FileModel>) -> Seq<RecModel>
    decreases files.len(),
{
    if files.len() == 0 {
        Seq::empty()
    } else {
        index_after_file(index_after(files.drop_last()), files.last())
    }
}

/// The skip records of one parsed event list: one per event whose start
/// cannot be normalized.
pub open spec fn skips_for_events(name: Seq<char>, evs: Seq<RawModel>) -> Seq<SkipModel>
    decreases evs.len(),
{
    if evs.len() == 0 {
        Seq::empty()
    } else {
        let prev = skips_for_events(name, evs.drop_last());
        if start_instant(evs.last().start) is None {
            prev.push(SkipModel { name, reason: SkipReason::UnusableStart })
        } else {
            prev
        }
    }
}

/// The skip records of one file.
pub open spec fn skips_for_file(f: FileModel) -> Seq<SkipModel> {
    if is_calendar_name(f.name) {
        match f.content {
            Some(text) => match parsed_events(text) {
                Some(evs) => skips_for_events(f.name, evs),
                None => seq![SkipModel { name: f.name, reason: SkipReason::Malformed }],
            },
            None => seq![SkipModel { name: f.name, reason: SkipReason::Unreadable }],
        }
    } else {
        Seq::empty()
    }
}

/// The skip records of a whole scan, in file order.
pub open spec fn skips_after(files: Seq<FileModel>) -> Seq<SkipModel>
    decreases files.len(),
{
    if files.len() == 0 {
        Seq::empty()
    } else {
        skips_after(files.drop_last()) + skips_for_file(files.last())
    }
}

/// A file whose name does not end in the calendar extension contributes
/// zero events and zero skip records, whatever its content holds.
pub proof fn lemma_non_calendar_file_ignored(files: Seq<FileModel>, f: FileModel)
    requires
        !is_calendar_name(f.name),
    ensures
        index_after(files.push(f)) == index_after(files),
        skips_after(files.push(f)) == skips_after(files),
{
    assert(files.push(f).drop_last() =~= files);
    assert(files.push(f).last() == f);
    assert(skips_after(files.push(f)) =~= skips_after(files));
}

/// Ingestion is a function of the scanned files alone: two runs over
/// directories that present the same names and contents build identical
/// indexes and identical skip lists.
pub proof fn lemma_ingest_idempotent(a: Seq<FileModel>, b: Seq<FileModel>)
    requires
        a =~~= b,
    ensures
        index_after(a) == index_after(b),
        skips_after(a) == skips_after(b),
{
    assert(a == b);
}

/// Builds the event index from the scanned files: every `.ics` file that
/// parses contributes its events, keyed and sorted by UTC start instant,
/// later files and events overwriting earlier ones with the identical
/// instant; every skipped file or event leaves one skip record.
pub fn ingest(files: &Vec<SourceFile>) -> (r: (EventIndex, Vec<Skip>))
    ensures
        r.0.deep_view() == index_after(files.deep_view()),
        r.0.wf(),
        r.1.deep_view() == skips_after(files.deep_view()),
{
    let ghost fm = files.deep_view();
    let mut idx = EventIndex::new();
    let mut skips: Vec<Skip> = Vec::new();
    let mut i: usize = 0;
    proof {
        assert(fm.take(0) =~= Seq::<FileModel>::empty());
        assert(skips.deep_view() =~= Seq::<SkipModel>::empty());
    }
    while i < files.len()
        invariant
            0 <= i <= files@.len(),
            fm == files.deep_view(),
            files@.len() == fm.len(),
            idx.deep_view() == index_after(fm.take(i as int)),
            idx.wf(),
            skips.deep_view() == skips_after(fm.take(i as int)),
        decreases files@.len() - i,
    {
        let f = &files[i];
        let ghost fv = fm[i as int];
        let ghost idx0 = idx.deep_view();
        let ghost sk0 = skips.deep_view();
        proof {
            assert(fv == files@[i as int].deep_view());
        }
        if is_ics_name(&f.name) {
            match &f.content {
                None => {
                    skips.push(Skip { name: copy_chars(&f.name), reason: SkipReason::Unreadable });
                    proof {
                        assert(skips.deep_view() =~= sk0 + skips_for_file(fv));
                    }
                },
                Some(text) => {
                    match parse_calendar(text) {
                        None => {
                            skips.push(
                                Skip { name: copy_chars(&f.name), reason: SkipReason::Malformed },
                            );
                            proof {
                                assert(skips.deep_view() =~= sk0 + skips_for_file(fv));
                            }
                        },
                        Some(evs) => {
                            let ghost em = evs.deep_view();
                            let ghost nm = fv.name;
                            let mut j: usize = 0;
                            proof {
                                assert(em.take(0) =~= Seq::<RawModel>::empty());
                                assert(sk0 + skips_for_events(nm, em.take(0)) =~= sk0);
                            }
                            while j < evs.len()
                                invariant
                                    0 <= j <= evs@.len(),
                                    nm == f.name@,
                                    em == evs.deep_view(),
                                    evs@.len() == em.len(),
                                    forall|q: int|
                                        0 <= q < em.len() ==> crate::ingest::start_in_bounds(
                                            #[trigger] em[q],
                                        ),
                                    idx.deep_view() == index_after_events(idx0, em.take(j as int)),
                                    idx.wf(),
                                    skips.deep_view() == sk0 + skips_for_events(
                                        nm,
                                        em.take(j as int),
                                    ),
                                decreases evs@.len() - j,
                            {
                                let ghost prefix = em.take(j as int);
                                proof {
                                    assert(em[j as int] == evs@[j as int].deep_view());
                                    assert(em.take(j + 1).drop_last() =~= prefix);
                                    assert(em.take(j + 1).last() == em[j as int]);
                                }
                                let ev = &evs[j];
                                match utc_start(&ev.start) {
                                    Some(t) => {
                                        idx.insert(
                                            EventRecord { start: t, summary: copy_chars(&ev.summary) },
                                        );
                                    },
                                    None => {
                                        skips.push(
                                            Skip {
                                                name: copy_chars(&f.name),
                                                reason: SkipReason::UnusableStart,
                                            },
                                        );
                                        proof {
                                            assert(skips.deep_view() =~= (sk0 + skips_for_events(
                                                nm,
                                                prefix,
                                            )).push(
                                                SkipModel {
                                                    name: nm,
                                                    reason: SkipReason::UnusableStart,
                                                },
                                            ));
                                        }
                                    },
                                }
                                j += 1;
                            }
                            proof {
                                assert(em.take(em.len() as int) =~= em);
                            }
                        },
                    }
                },
            }
        }
        proof {
            assert(fm.take(i + 1).drop_last() =~= fm.take(i as int));
            assert(fm.take(i + 1).last() == fm[i as int]);
            if !is_calendar_name(fv.name) {
                assert(skips.deep_view() =~= sk0 + skips_for_file(fv));
            }
        }
        i += 1;
    }
    proof {
        assert(fm.take(fm.len() as int) =~= fm);
    }
    (idx, skips)
}

} // verus!
