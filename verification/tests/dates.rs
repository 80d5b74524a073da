use robotica_backend::dates::{Date, Weekday};
use robotica_backend::tasks::{get_task_messages, Payload, QoS, Retain, Task};

#[test]
fn dates_weekdays_and_names() {
    let d = Date::from_ymd(2018, 12, 22).unwrap();
    assert_eq!(d.weekday(), Weekday::Sat);
    assert!(d.weekday().is_weekend());
    assert_eq!(d.weekday().day_name(), "sat");
    let next = d.add_days(2).unwrap();
    assert_eq!(next.weekday(), Weekday::Mon);
    assert!(!next.weekday().is_weekend());
    assert_eq!(next, Date::from_ymd(2018, 12, 24).unwrap());
    assert!(Date::from_ymd(2019, 2, 29).is_none());
    assert_eq!(Weekday::from_index(6), Weekday::Sun);
}

#[test]
fn tasks_one_message_per_topic() {
    let task = Task {
        title: "t".to_string(),
        payload: Payload::Json("{\"a\":1}".to_string()),
        qos: QoS::AtLeastOnce,
        retain: Retain::Retain,
        topics: vec!["x".to_string(), "y".to_string()],
    };
    let m = get_task_messages(&task);
    assert_eq!(m.len(), 2);
    assert_eq!(m[0].topic, "x");
    assert_eq!(m[1].topic, "y");
    assert_eq!(m[1].payload, "{\"a\":1}");
    assert_eq!(m[0].qos, QoS::AtLeastOnce);
    assert_eq!(m[0].retain, Retain::Retain);
}

fn expected_days(year: i32, month: u32, day: u32) -> Option<i32> {
    let y = year as i64;
    let leap = y.rem_euclid(4) == 0 && (y.rem_euclid(100) != 0 || y.rem_euclid(400) == 0);
    let dim = match month {
        2 => if leap { 29 } else { 28 },
        4 | 6 | 9 | 11 => 30,
        _ => 31,
    };
    if !(-262143..=262142).contains(&year) || !(1..=12).contains(&month) || day < 1 || day > dim {
        return None;
    }
    let before = [0, 31, 59, 90, 120, 151, 181, 212, 243, 273, 304, 334][(month - 1) as usize]
        + if month > 2 && leap { 1 } else { 0 };
    let p = y - 1;
    let days = 365 * p + p.div_euclid(4) - p.div_euclid(100) + p.div_euclid(400) + before + day as i64;
    Some(days as i32)
}

#[test]
fn dates_day_numbers_follow_the_gregorian_count() {
    assert_eq!(Date::from_ymd(1970, 1, 1).map(|d| d.days_from_ce), Some(719_163));
    assert_eq!(Date::from_ymd(1, 1, 1).map(|d| d.days_from_ce), Some(1));
    assert_eq!(Date::from_ymd(0, 1, 1).map(|d| d.days_from_ce), Some(-365));
    assert!(Date::from_ymd(2015, 2, 29).is_none());
    assert!(Date::from_ymd(-4, 2, 29).is_some());
    let years = (-1200..=2600).step_by(7).chain([-262144, -262143, -262142, 262141, 262142, 262143]);
    for year in years {
        for month in 0..=13 {
            for day in 0..=32 {
                assert_eq!(Date::from_ymd(year, month, day).map(|d| d.days_from_ce), expected_days(year, month, day), "{year}-{month}-{day}");
            }
        }
    }
}
