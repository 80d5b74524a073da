use robotica_backend::calendar::{start_end, CalendarError, Dt, StartEnd};
use robotica_backend::dates::Date;

#[test]
fn calendar_start_end_pairs() {
    assert_eq!(start_end(Dt::DateTime(1), Dt::DateTime(2)), Ok(StartEnd::DateTime(1, 2)));
    let a = Date::from_ymd(2019, 3, 18).unwrap();
    let b = Date::from_ymd(2019, 3, 19).unwrap();
    assert_eq!(start_end(Dt::Date(a), Dt::Date(b)), Ok(StartEnd::Date(a, b)));
    assert_eq!(
        start_end(Dt::DateTime(1), Dt::Date(b)),
        Err(CalendarError::MismatchedTimes("DTSTART is a DateTime but DTEND is a Date".to_string()))
    );
    assert_eq!(
        start_end(Dt::Date(a), Dt::DateTime(2)),
        Err(CalendarError::MismatchedTimes("DTSTART is a Date but DTEND is a DateTime".to_string()))
    );
}
