use chrono::Timelike;
use telescope::error::TelescopeError;
use telescope::meetings::{
    check_form_times, check_times, date_issue, present_text, resolve_host_user_id,
    selected_semester, CheckedTimes, FormField, FormIssue, Semester, Timestamp,
};

fn semester(id: &str, start_date: i32, end_date: i32) -> Semester {
    Semester { semester_id: id.to_string(), start_date, end_date }
}

fn at(date: i32, seconds: u32) -> Timestamp {
    Timestamp { date, seconds, nanos: 0 }
}

#[test]
fn host_from_the_query_wins() {
    assert_eq!(resolve_host_user_id(Some(7), Some(9)), Some(9));
    assert_eq!(resolve_host_user_id(None, Some(9)), Some(9));
    assert_eq!(resolve_host_user_id(None, Some(u128::MAX)), Some(u128::MAX));
}

#[test]
fn nil_host_in_the_query_means_no_host() {
    assert_eq!(resolve_host_user_id(Some(7), Some(0)), None);
    assert_eq!(resolve_host_user_id(None, Some(0)), None);
    assert_eq!(resolve_host_user_id(Some(7), Some(uuid::Uuid::nil().as_u128())), None);
}

#[test]
fn host_stays_without_a_query() {
    assert_eq!(resolve_host_user_id(Some(7), None), Some(7));
    assert_eq!(resolve_host_user_id(None, None), None);
}

#[test]
fn present_text_drops_the_white_space_around() {
    assert_eq!(present_text("  Workshop \n"), Some("Workshop".to_string()));
    assert_eq!(present_text("Large Group"), Some("Large Group".to_string()));
    assert_eq!(present_text("\u{a0}a b\u{2003}"), Some("a b".to_string()));
}

#[test]
fn present_text_is_absent_for_white_space_only() {
    assert_eq!(present_text(""), None);
    assert_eq!(present_text("   "), None);
    assert_eq!(present_text("\t\r\n"), None);
}

#[test]
fn selected_semester_is_the_first_with_the_id() {
    let available =
        vec![semester("202101", 10, 100), semester("202105", 120, 200), semester("202101", 1, 2)];
    assert_eq!(selected_semester(&available, &"202105".to_string()), Ok(&available[1]));
    assert_eq!(selected_semester(&available, &"202101".to_string()), Ok(&available[0]));
}

#[test]
fn unknown_semester_is_a_bad_request() {
    let available = vec![semester("202101", 10, 100)];
    let expected = Err(TelescopeError::BadRequest {
        header: "Malformed Meeting Edit Form".to_string(),
        message: "Select semester in available semester list.".to_string(),
    });
    assert_eq!(selected_semester(&available, &"202109".to_string()), expected);
    assert_eq!(selected_semester(&Vec::new(), &"202101".to_string()), expected);
    assert_eq!(selected_semester(&available, &"".to_string()), expected);
}

fn issue(field: FormField, message: &'static str) -> Option<FormIssue> {
    Some(FormIssue { field, message })
}

#[test]
fn dates_inside_the_semester_are_fine() {
    assert_eq!(date_issue(10, 10, 10, 10), None);
    assert_eq!(date_issue(10, 20, 10, 20), None);
    assert_eq!(date_issue(12, 15, 10, 20), None);
}

#[test]
fn date_issues_each_with_its_words() {
    assert_eq!(
        date_issue(15, 14, 10, 20),
        issue(FormField::EndDate, "End date is before start date.")
    );
    assert_eq!(
        date_issue(21, 22, 10, 20),
        issue(FormField::StartDate, "Start date is after end of semester.")
    );
    assert_eq!(
        date_issue(15, 21, 10, 20),
        issue(FormField::EndDate, "End date is after end of semester.")
    );
    assert_eq!(
        date_issue(9, 15, 10, 20),
        issue(FormField::StartDate, "Start date is before semester starts.")
    );
}

#[test]
fn date_issues_come_in_their_order() {
    // Ends before it starts and lies after the semester: the first rule speaks.
    assert_eq!(
        date_issue(30, 25, 10, 20),
        issue(FormField::EndDate, "End date is before start date.")
    );
    // Starts before the semester and ends after it: the end is named.
    assert_eq!(
        date_issue(5, 25, 10, 20),
        issue(FormField::EndDate, "End date is after end of semester.")
    );
    // Wholly before the semester: the start is named, so the last rule never speaks alone.
    assert_eq!(
        date_issue(5, 6, 10, 20),
        issue(FormField::StartDate, "Start date is before semester starts.")
    );
    // A semester that ends before it starts.
    assert_eq!(
        date_issue(15, 15, 20, 10),
        issue(FormField::StartDate, "Start date is after end of semester.")
    );
}

#[test]
fn timestamps_order_by_day_then_time() {
    assert!(at(2, 0).after(&at(1, 86_399)));
    assert!(at(1, 10).after(&at(1, 9)));
    assert!(!at(1, 10).after(&at(1, 10)));
    assert!(!at(1, 9).after(&at(1, 10)));
    assert!(!at(1, 86_399).after(&at(2, 0)));
    let early = Timestamp { date: 1, seconds: 10, nanos: 5 };
    let late = Timestamp { date: 1, seconds: 10, nanos: 6 };
    assert!(late.after(&early));
    assert!(!early.after(&late));
}

#[test]
fn check_times_with_good_times() {
    let checked = check_times(12, Ok((36_000, 0)), 12, Ok((39_600, 0)), 10, 20);
    assert_eq!(
        checked,
        Ok(CheckedTimes {
            start: at(12, 36_000),
            end: at(12, 39_600),
            date_issue: None,
            time_issue: None,
        })
    );
    assert!(checked.unwrap().is_valid());
}

#[test]
fn check_times_end_before_start_on_one_day() {
    let checked = check_times(12, Ok((39_600, 0)), 12, Ok((36_000, 0)), 10, 20).unwrap();
    assert_eq!(checked.date_issue, None);
    assert_eq!(checked.time_issue, issue(FormField::EndTime, "End time is before start time."));
    assert!(!checked.is_valid());
}

#[test]
fn check_times_reports_dates_and_times_together() {
    let checked = check_times(15, Ok((0, 0)), 14, Ok((0, 0)), 10, 20).unwrap();
    assert_eq!(checked.date_issue, issue(FormField::EndDate, "End date is before start date."));
    assert_eq!(checked.time_issue, issue(FormField::EndTime, "End time is before start time."));
    assert!(!checked.is_valid());
}

#[test]
fn check_times_same_instant_is_fine() {
    let checked = check_times(12, Ok((36_000, 0)), 12, Ok((36_000, 0)), 10, 20).unwrap();
    assert!(checked.is_valid());
}

#[test]
fn check_times_unreadable_start_is_a_bad_request() {
    assert_eq!(
        check_times(12, Err("trailing input".to_string()), 12, Ok((0, 0)), 10, 20),
        Err(TelescopeError::BadRequest {
            header: "Malformed Start Time".to_string(),
            message: "Could not parse start time. Internal error: trailing input".to_string(),
        })
    );
    // The start is reported before the end.
    assert_eq!(
        check_times(12, Err("a".to_string()), 12, Err("b".to_string()), 10, 20),
        Err(TelescopeError::BadRequest {
            header: "Malformed Start Time".to_string(),
            message: "Could not parse start time. Internal error: a".to_string(),
        })
    );
}

#[test]
fn check_times_unreadable_end_is_a_bad_request() {
    assert_eq!(
        check_times(12, Ok((0, 0)), 12, Err("premature end of input".to_string()), 10, 20),
        Err(TelescopeError::BadRequest {
            header: "Malformed End Time".to_string(),
            message: "Could not parse end time. Internal error: premature end of input"
                .to_string(),
        })
    );
}

#[test]
fn form_times_are_read_as_hours_and_minutes() {
    let checked = check_form_times(12, "10:00", 12, "11:30", 10, 20).unwrap();
    assert_eq!(checked.start, at(12, 36_000));
    assert_eq!(checked.end, at(12, 41_400));
    assert!(checked.is_valid());
    let checked = check_form_times(12, "00:00", 13, "23:59", 10, 20).unwrap();
    assert_eq!(checked.start, at(12, 0));
    assert_eq!(checked.end, at(13, 86_340));
}

#[test]
fn form_times_in_the_wrong_order_are_an_issue() {
    let checked = check_form_times(12, "16:00", 12, "15:59", 10, 20).unwrap();
    assert_eq!(checked.time_issue, issue(FormField::EndTime, "End time is before start time."));
    // A later day makes up for an earlier time of day.
    let checked = check_form_times(12, "16:00", 13, "15:59", 10, 20).unwrap();
    assert_eq!(checked.time_issue, None);
}

#[test]
fn form_times_that_chrono_cannot_read_are_bad_requests() {
    assert_eq!(
        check_form_times(12, "25:00", 12, "11:00", 10, 20),
        Err(TelescopeError::BadRequest {
            header: "Malformed Start Time".to_string(),
            message: "Could not parse start time. Internal error: input is out of range"
                .to_string(),
        })
    );
    assert_eq!(
        check_form_times(12, "10:00", 12, "noon", 10, 20),
        Err(TelescopeError::BadRequest {
            header: "Malformed End Time".to_string(),
            message: "Could not parse end time. Internal error: input contains invalid characters"
                .to_string(),
        })
    );
    assert!(matches!(
        check_form_times(12, "10:00:30", 12, "11:00", 10, 20),
        Err(TelescopeError::BadRequest { .. })
    ));
    assert!(matches!(
        check_form_times(12, "", 12, "11:00", 10, 20),
        Err(TelescopeError::BadRequest { .. })
    ));
}

#[test]
fn form_times_agree_with_chrono() {
    for text in ["00:00", "09:05", "12:34", "23:59"] {
        let expected: chrono::NaiveTime = format!("{}:00", text).parse().unwrap();
        let checked = check_form_times(1, text, 1, text, 1, 1).unwrap();
        assert_eq!(checked.start.seconds, expected.num_seconds_from_midnight());
        assert_eq!(checked.start.nanos, expected.nanosecond());
        assert_eq!(checked.end, checked.start);
    }
}
