//! The rules of the meeting edit form: what is made of the submitted text,
//! which semester it names, and what is wrong with its dates and times.
//!
//! Dates are day numbers, counted in days from a common epoch, and times
//! of day are seconds from midnight with the nanoseconds into that second;
//! both order as the dates and times they stand for.

use crate::error::TelescopeError;
use vstd::prelude::*;
use vstd::string::StringExecFns;

verus! {

/// What `str::trim` leaves of a text: the text without the white space at
/// its start and at its end.
pub uninterp spec fn trimmed(text: Seq<char>) -> Seq<char>;

/// `str::trim` returns the part of the string between its leading and its
/// trailing white space.
pub assume_specification[ str::trim ](text: &str) -> (inner: &str)
    ensures
        inner@ == trimmed(text@),
;

/// The time of day that chrono reads from a text, as seconds from midnight
/// and nanoseconds into the second; where it reads none, the words of its
/// error.
pub uninterp spec fn clock_time_of(text: Seq<char>) -> Result<(u32, u32), Seq<char>>;

/// Reads a time of day with chrono's `NaiveTime::from_str`. The result is
/// the time's `num_seconds_from_midnight` and `nanosecond`, or the parse
/// error as `to_string` gives it.
#[verifier::external_body]
fn clock_time(text: &str) -> (r: Result<(u32, u32), String>)
    ensures
        match r {
            Ok(time) => clock_time_of(text@) == Ok::<(u32, u32), Seq<char>>(time),
            Err(e) => clock_time_of(text@) == Err::<(u32, u32), Seq<char>>(e@),
        },
{
    match text.parse::<chrono::NaiveTime>() {
        Ok(time) => Ok(
            (
                chrono::Timelike::num_seconds_from_midnight(&time),
                chrono::Timelike::nanosecond(&time),
            ),
        ),
        Err(e) => Err(e.to_string()),
    }
}

/// The host that an edited meeting is to have. A host named in the query
/// wins, and the nil id there means that the meeting is to have none;
/// without a query the meeting keeps the host it has.
pub fn resolve_host_user_id(existing_host: Option<u128>, set_host: Option<u128>) -> (host: Option<
    u128,
>)
    ensures
        host == (match set_host {
            Some(id) => if id == 0 {
                None
            } else {
                Some(id)
            },
            None => existing_host,
        }),
{
    match set_host {
        Some(id) => {
            if id == 0 {
                None
            } else {
                Some(id)
            }
        },
        None => existing_host,
    }
}

/// A submitted text without the white space around it, or nothing where
/// only white space was submitted.
pub fn present_text(text: &str) -> (present: Option<String>)
    ensures
        trimmed(text@).len() == 0 ==> present is None,
        trimmed(text@).len() > 0 ==> (present matches Some(inner) && inner@ == trimmed(text@)),
{
    let inner = text.trim();
    if inner.is_empty() {
        None
    } else {
        Some(String::from_str(inner))
    }
}

/// A semester that a meeting can be put in.
#[derive(Clone, Debug, PartialEq, Eq)]
pub struct Semester {
    /// The id of the semester.
    pub semester_id: String,
    /// The first day of the semester.
    pub start_date: i32,
    /// The last day of the semester.
    pub end_date: i32,
}

/// The semester that the form selects: the first of the available ones
/// with the submitted id. A form that names none of them is a bad request.
pub fn selected_semester<'a>(available: &'a Vec<Semester>, semester_id: &String) -> (r: Result<
    &'a Semester,
    TelescopeError,
>)
    ensures
        match r {
            Ok(found) => exists|i: int|
                {
                    &&& 0 <= i < available@.len()
                    &&& found == &#[trigger] available@[i]
                    &&& found.semester_id@ == semester_id@
                    &&& forall|k: int| 0 <= k < i ==> available@[k].semester_id@ != semester_id@
                },
            Err(e) => {
                &&& forall|k: int|
                    0 <= k < available@.len() ==> available@[k].semester_id@ != semester_id@
                &&& e matches TelescopeError::BadRequest { header, message } && header@
                    == "Malformed Meeting Edit Form"@ && message@
                    == "Select semester in available semester list."@
            },
        },
{
    let mut i: usize = 0;
    while i < available.len()
        invariant
            i <= available.len(),
            forall|k: int| 0 <= k < i ==> available@[k].semester_id@ != semester_id@,
        decreases available.len() - i,
    {
        if available[i].semester_id == *semester_id {
            return Ok(&available[i]);
        }
        i += 1;
    }
    Err(
        TelescopeError::bad_request(
            String::from_str("Malformed Meeting Edit Form"),
            String::from_str("Select semester in available semester list."),
        ),
    )
}

/// The fields of the form that an issue can be reported on.
#[derive(Clone, Copy, Debug, PartialEq, Eq, Structural)]
pub enum FormField {
    /// The day the meeting starts.
    StartDate,
    /// The day the meeting ends.
    EndDate,
    /// The time of day the meeting ends.
    EndTime,
}

/// Something wrong with a submitted form, to show beside the field.
#[derive(Clone, Copy, Debug, PartialEq, Eq)]
pub struct FormIssue {
    /// The field to show the issue at.
    pub field: FormField,
    /// What to tell the user.
    pub message: &'static str,
}

/// What is wrong with the dates of a meeting: the first of the rules below
/// that the dates break, in this order. The meeting must not end before it
/// starts, must not start after the semester ends, must not end after the
/// semester ends, must not start before the semester starts, and must not
/// end before the semester starts.
pub open spec fn date_issue_spec(
    start_date: int,
    end_date: int,
    semester_start: int,
    semester_end: int,
) -> Option<(FormField, Seq<char>)> {
    if end_date < start_date {
        Some((FormField::EndDate, "End date is before start date."@))
    } else if start_date > semester_end {
        Some((FormField::StartDate, "Start date is after end of semester."@))
    } else if end_date > semester_end {
        Some((FormField::EndDate, "End date is after end of semester."@))
    } else if start_date < semester_start {
        Some((FormField::StartDate, "Start date is before semester starts."@))
    } else if end_date < semester_start {
        Some((FormField::EndDate, "End date is before semester starts."@))
    } else {
        None
    }
}

/// What a [`FormIssue`] says, for contracts.
pub open spec fn issue_view(issue: Option<FormIssue>) -> Option<(FormField, Seq<char>)> {
    match issue {
        Some(issue) => Some((issue.field, issue.message@)),
        None => None,
    }
}

/// The issue with the dates of a meeting in a semester, if there is one.
pub fn date_issue(start_date: i32, end_date: i32, semester_start: i32, semester_end: i32) -> (issue:
    Option<FormIssue>)
    ensures
        issue_view(issue) == date_issue_spec(
            start_date as int,
            end_date as int,
            semester_start as int,
            semester_end as int,
        ),
        issue is None <==> semester_start <= start_date <= end_date <= semester_end,
{
    if end_date < start_date {
        Some(FormIssue { field: FormField::EndDate, message: "End date is before start date." })
    } else if start_date > semester_end {
        Some(
            FormIssue {
                field: FormField::StartDate,
                message: "Start date is after end of semester.",
            },
        )
    } else if end_date > semester_end {
        Some(FormIssue { field: FormField::EndDate, message: "End date is after end of semester." })
    } else if start_date < semester_start {
        Some(
            FormIssue {
                field: FormField::StartDate,
                message: "Start date is before semester starts.",
            },
        )
    } else if end_date < semester_start {
        Some(
            FormIssue { field: FormField::EndDate, message: "End date is before semester starts." },
        )
    } else {
        None
    }
}

/// A point in time: a day and a time of day.
#[derive(Clone, Copy, Debug, PartialEq, Eq, Structural)]
pub struct Timestamp {
    /// The day.
    pub date: i32,
    /// Seconds from midnight.
    pub seconds: u32,
    /// Nanoseconds into the second.
    pub nanos: u32,
}

impl Timestamp {
    /// Whether this point in time lies after `other`.
    pub open spec fn is_after(self, other: Timestamp) -> bool {
        ||| self.date > other.date
        ||| self.date == other.date && self.seconds > other.seconds
        ||| self.date == other.date && self.seconds == other.seconds && self.nanos > other.nanos
    }

    /// Whether this point in time lies after `other`.
    pub fn after(&self, other: &Timestamp) -> (later: bool)
        ensures
            later == self.is_after(*other),
    {
        self.date > other.date || (self.date == other.date && (self.seconds > other.seconds || (
        self.seconds == other.seconds && self.nanos > other.nanos)))
    }
}

/// What the checks of a meeting's times found.
#[derive(Clone, Copy, Debug, PartialEq, Eq)]
pub struct CheckedTimes {
    /// When the meeting starts.
    pub start: Timestamp,
    /// When the meeting ends.
    pub end: Timestamp,
    /// What is wrong with the dates, if anything.
    pub date_issue: Option<FormIssue>,
    /// What is wrong with the times of day, if anything.
    pub time_issue: Option<FormIssue>,
}

impl CheckedTimes {
    /// Whether the form can be accepted as it is.
    pub fn is_valid(&self) -> (valid: bool)
        ensures
            valid == (self.date_issue is None && self.time_issue is None),
    {
        self.date_issue.is_none() && self.time_issue.is_none()
    }
}

/// What [`check_times`] returns.
pub open spec fn check_times_spec(
    start_date: int,
    start_time: Result<(u32, u32), Seq<char>>,
    end_date: int,
    end_time: Result<(u32, u32), Seq<char>>,
    semester_start: int,
    semester_end: int,
    r: Result<CheckedTimes, TelescopeError>,
) -> bool {
    match start_time {
        Err(e) => r matches Err(TelescopeError::BadRequest { header, message }) && header@
            == "Malformed Start Time"@ && message@
            == "Could not parse start time. Internal error: "@ + e,
        Ok(start_time) => match end_time {
            Err(e) => r matches Err(TelescopeError::BadRequest { header, message }) && header@
                == "Malformed End Time"@ && message@
                == "Could not parse end time. Internal error: "@ + e,
            Ok(end_time) => r matches Ok(checked) && {
                &&& checked.start.date == start_date
                &&& checked.start.seconds == start_time.0
                &&& checked.start.nanos == start_time.1
                &&& checked.end.date == end_date
                &&& checked.end.seconds == end_time.0
                &&& checked.end.nanos == end_time.1
                &&& issue_view(checked.date_issue) == date_issue_spec(
                    start_date,
                    end_date,
                    semester_start,
                    semester_end,
                )
                &&& issue_view(checked.time_issue) == if checked.start.is_after(checked.end) {
                    Some((FormField::EndTime, "End time is before start time."@))
                } else {
                    None
                }
            },
        },
    }
}

/// Checks the dates and times of an edited meeting, given what was read
/// from the two times of day. A time that could not be read is a bad
/// request, the start before the end. Otherwise the dates are held against
/// the semester, and the start against the end.
pub fn check_times(
    start_date: i32,
    start_time: Result<(u32, u32), String>,
    end_date: i32,
    end_time: Result<(u32, u32), String>,
    semester_start: i32,
    semester_end: i32,
) -> (r: Result<CheckedTimes, TelescopeError>)
    ensures
        check_times_spec(
            start_date as int,
            match start_time {
                Ok(t) => Ok(t),
                Err(e) => Err(e@),
            },
            end_date as int,
            match end_time {
                Ok(t) => Ok(t),
                Err(e) => Err(e@),
            },
            semester_start as int,
            semester_end as int,
            r,
        ),
{
    let date_issue = date_issue(start_date, end_date, semester_start, semester_end);
    let start_time = match start_time {
        Ok(t) => t,
        Err(e) => {
            let mut message = String::from_str("Could not parse start time. Internal error: ");
            message.append(e.as_str());
            return Err(
                TelescopeError::bad_request(String::from_str("Malformed Start Time"), message),
            );
        },
    };
    let end_time = match end_time {
        Ok(t) => t,
        Err(e) => {
            let mut message = String::from_str("Could not parse end time. Internal error: ");
            message.append(e.as_str());
            return Err(TelescopeError::bad_request(String::from_str("Malformed End Time"), message));
        },
    };
    let start = Timestamp { date: start_date, seconds: start_time.0, nanos: start_time.1 };
    let end = Timestamp { date: end_date, seconds: end_time.0, nanos: end_time.1 };
    let time_issue = if start.after(&end) {
        Some(FormIssue { field: FormField::EndTime, message: "End time is before start time." })
    } else {
        None
    };
    Ok(CheckedTimes { start, end, date_issue, time_issue })
}

/// The text that a submitted time of day is read from: the form sends hours
/// and minutes, and the seconds are put behind them.
pub open spec fn with_seconds(time: Seq<char>) -> Seq<char> {
    time + ":00"@
}

/// Checks the dates and times of an edited meeting as the form submits
/// them: each time of day is read with seconds put behind it, and the rest
/// is [`check_times`].
pub fn check_form_times(
    start_date: i32,
    start_time: &str,
    end_date: i32,
    end_time: &str,
    semester_start: i32,
    semester_end: i32,
) -> (r: Result<CheckedTimes, TelescopeError>)
    ensures
        check_times_spec(
            start_date as int,
            clock_time_of(with_seconds(start_time@)),
            end_date as int,
            clock_time_of(with_seconds(end_time@)),
            semester_start as int,
            semester_end as int,
            r,
        ),
{
    let mut start_text = String::from_str(start_time);
    start_text.append(":00");
    let mut end_text = String::from_str(end_time);
    end_text.append(":00");
    let start = clock_time(start_text.as_str());
    let end = clock_time(end_text.as_str());
    check_times(start_date, start, end_date, end, semester_start, semester_end)
}

} // verus!
