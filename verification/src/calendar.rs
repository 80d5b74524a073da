//! Calendar entries: an event runs either over whole days or between two
//! instants, never a mix of the two.
use vstd::prelude::*;
use crate::dates::Date;
use crate::text::string_of;

verus! {

broadcast use vstd::string::group_string_axioms;

/// A start or end of an event: an instant (seconds since the Unix epoch) or a date.
#[derive(Clone, Copy, Debug, PartialEq, Eq, Structural)]
pub enum Dt {
    /// An instant.
    DateTime(i64),
    /// A whole day.
    Date(Date),
}

/// When an event runs.
#[derive(Clone, Copy, Debug, PartialEq, Eq, Structural)]
pub enum StartEnd {
    /// Over whole days, from the first date to the second.
    Date(Date, Date),
    /// Between two instants.
    DateTime(i64, i64),
}

/// A calendar entry.
#[derive(Debug)]
pub struct CalendarEntry {
    /// The title.
    pub summary: String,
    /// The description.
    pub description: Option<String>,
    /// The location.
    pub location: Option<String>,
    /// The unique id.
    pub uid: String,
    /// The status.
    pub status: Option<String>,
    /// The transparency.
    pub transp: String,
    /// The revision.
    pub sequence: u8,
    /// When it runs.
    pub start_end: StartEnd,
    /// When it was stamped.
    pub stamp: i64,
    /// When it was created.
    pub created: i64,
    /// When it was last changed.
    pub last_modified: i64,
    /// The instance of a recurring event it replaces.
    pub recurrence_id: Option<i64>,
}

/// An entry whose start and end are of different kinds.
#[derive(Debug, PartialEq)]
pub enum CalendarError {
    /// The start and end do not match; the text says how.
    MismatchedTimes(String),
}

/// When an event runs, from its start and end: both instants or both dates.
pub open spec fn spec_start_end(start: Dt, end: Dt) -> Option<StartEnd> {
    match (start, end) {
        (Dt::DateTime(s), Dt::DateTime(e)) => Some(StartEnd::DateTime(s, e)),
        (Dt::Date(s), Dt::Date(e)) => Some(StartEnd::Date(s, e)),
        _ => None,
    }
}

/// When an event runs: see `spec_start_end`; a mix is refused, with a text
/// that says which is which.
pub fn start_end(start: Dt, end: Dt) -> (r: Result<StartEnd, CalendarError>)
    ensures
        match r {
            Ok(se) => spec_start_end(start, end) == Some(se),
            Err(CalendarError::MismatchedTimes(msg)) => spec_start_end(start, end) is None
                && msg@ == if start is DateTime {
                    "DTSTART is a DateTime but DTEND is a Date"@
                } else {
                    "DTSTART is a Date but DTEND is a DateTime"@
                },
        },
{
    match (start, end) {
        (Dt::DateTime(s), Dt::DateTime(e)) => Ok(StartEnd::DateTime(s, e)),
        (Dt::Date(s), Dt::Date(e)) => Ok(StartEnd::Date(s, e)),
        (Dt::DateTime(_), Dt::Date(_)) => Err(CalendarError::MismatchedTimes(string_of("DTSTART is a DateTime but DTEND is a Date"))),
        (Dt::Date(_), Dt::DateTime(_)) => Err(CalendarError::MismatchedTimes(string_of("DTSTART is a Date but DTEND is a DateTime"))),
    }
}

} // verus!
