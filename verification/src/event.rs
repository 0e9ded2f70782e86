use vstd::prelude::*;

verus! {

/// Days are counted in the proleptic Gregorian calendar, with 0001-01-01
/// as day 1; 1970-01-01 is day 719_163.
pub const EPOCH_DAY: i64 = 719163;

/// Seconds in one day.
pub const DAY_SECONDS: i64 = 86400;

/// The start field of an event as read from a calendar document.
#[derive(Clone, Copy, Debug, PartialEq, Eq, Structural)]
pub enum StartField {
    /// A bare date, given as a day number.
    Date(i64),
    /// An explicit date-time already converted to UTC, as Unix seconds.
    Instant(i64),
    /// No start field, or a date-time that could not be converted to UTC.
    Absent,
}

/// Midnight UTC at the beginning of the given day, in Unix seconds.
pub open spec fn day_start_secs(day: int) -> int {
    (day - EPOCH_DAY) * 86400
}

/// The UTC start instant of an event, if any: an explicit date-time is
/// taken as it is, and a bare date becomes midnight UTC on that date.
pub open spec fn start_instant(s: StartField) -> Option<int> {
    match s {
        StartField::Date(d) => Some(day_start_secs(d as int)),
        StartField::Instant(t) => Some(t as int),
        StartField::Absent => None,
    }
}

/// A fresh copy of a character vector, provably equal to its source.
pub fn copy_chars(v: &Vec<char>) -> (r: Vec<char>)
    ensures
        r@ == v@,
{
    let mut out: Vec<char> = Vec::new();
    let mut i: usize = 0;
    while i < v.len()
        invariant
            i <= v.len(),
            out@ == v@.take(i as int),
        decreases v.len() - i,
    {
        out.push(v[i]);
        proof {
            assert(v@.take(i + 1) =~= v@.take(i as int).push(v@[i as int]));
        }
        i += 1;
    }
    proof {
        assert(v@.take(v@.len() as int) =~= v@);
    }
    out
}

/// Normalizes a start field to its UTC start instant: a bare date maps to
/// midnight UTC on that date, an explicit date-time is kept, and an absent
/// or unconvertible start yields `None`.
pub fn utc_start(s: &StartField) -> (r: Option<i64>)
    requires
        *s matches StartField::Date(d) ==> -2147483648 <= d <= 2147483647,
    ensures
        match r {
            Some(t) => start_instant(*s) == Some(t as int),
            None => start_instant(*s) is None,
        },
{
    match s {
        StartField::Date(d) => Some((*d - EPOCH_DAY) * DAY_SECONDS),
        StartField::Instant(t) => Some(*t),
        StartField::Absent => None,
    }
}

} // verus!
