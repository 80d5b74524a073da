use chrono::{TimeZone, Utc};
use robotica_backend::dates::Date;
use robotica_backend::sequencer::{
    check_schedule, expand_config, filter_sequence, get_corrected_start_time, get_sequence_with_config,
    schedule_list_to_sequence, sort_sequences, Config, ConfigCheckError, ConfigTask, Context, ExpandedConfig,
    Importance, Schedule, Sequence, SequenceError, Status,
};

fn utc(y: i32, mo: u32, d: u32, h: u32, mi: u32, s: u32) -> i64 {
    Utc.with_ymd_and_hms(y, mo, d, h, mi, s).unwrap().timestamp()
}

fn minutes(m: i64) -> i64 {
    m * 60
}

fn strings(v: &[&str]) -> Vec<String> {
    v.iter().map(|s| s.to_string()).collect()
}

fn task(title: &str) -> ConfigTask {
    ConfigTask { title: title.to_string(), payload: None, qos: None, retain: None, topics: vec!["test/test".to_string()] }
}

#[allow(clippy::too_many_arguments)]
fn config(
    classifications: Option<Vec<String>>,
    options: Option<Vec<String>>,
    zero_time: Option<bool>,
    duration: i64,
    repeat_count: Option<u8>,
    repeat_time: Option<i64>,
    task_title: &str,
) -> Config {
    Config {
        title: "test".to_string(),
        id: None,
        importance: Importance::Medium,
        if_cond: None,
        classifications,
        options,
        zero_time,
        duration,
        latest_time: None,
        repeat_time,
        repeat_count,
        tasks: vec![task(task_title)],
    }
}

fn christmas_date() -> Date {
    Date::from_ymd(2020, 12, 25).unwrap()
}

#[test]
fn test_get_sequence() {
    let config_list = vec![
        config(Some(strings(&["christmas"])), Some(strings(&["boxing"])), Some(true), minutes(30), None, None, "task 1"),
        config(None, None, Some(false), minutes(30), None, None, "task 2"),
    ];
    let config_map = vec![("test".to_string(), config_list)];
    let sequence = get_sequence_with_config(
        &config_map,
        christmas_date(),
        &"test".to_string(),
        &strings(&["christmas"]),
        &Vec::new(),
        &strings(&["boxing"]),
        utc(2020, 12, 25, 0, 0, 0),
    )
    .unwrap();

    assert_eq!(sequence.len(), 2);
    assert_eq!(sequence[0].start_time, utc(2020, 12, 25, 0, 0, 0));
    assert_eq!(sequence[0].latest_time, utc(2020, 12, 25, 0, 1, 0));
    assert_eq!(sequence[0].id, "test_0");
    assert_eq!(sequence[0].tasks.len(), 1);
    assert_eq!(sequence[0].tasks[0].title, "task 1");

    assert_eq!(sequence[1].start_time, utc(2020, 12, 25, 0, 30, 0));
    assert_eq!(sequence[1].latest_time, utc(2020, 12, 25, 0, 31, 0));
    assert_eq!(sequence[1].id, "test_1");
    assert_eq!(sequence[1].tasks.len(), 1);
    assert_eq!(sequence[1].tasks[0].title, "task 2");
}

#[test]
fn test_filter_sequence() {
    let config_list = vec![
        config(Some(strings(&["christmas"])), Some(strings(&["boxing"])), Some(false), minutes(15), Some(2), None, "task 1"),
        config(None, None, Some(false), minutes(15), Some(2), None, "task 2"),
    ];

    let context = Context { today: strings(&["christmas"]), tomorrow: Vec::new(), options: strings(&["boxing"]) };
    assert!(filter_sequence(&config_list[0], &context));
    assert!(filter_sequence(&config_list[1], &context));

    let context = Context { today: Vec::new(), tomorrow: Vec::new(), options: strings(&["boxing"]) };
    assert!(!filter_sequence(&config_list[0], &context));
    assert!(filter_sequence(&config_list[1], &context));

    let context = Context { today: strings(&["christmas"]), tomorrow: Vec::new(), options: Vec::new() };
    assert!(!filter_sequence(&config_list[0], &context));
    assert!(filter_sequence(&config_list[1], &context));
}

#[test]
fn test_expand_0() {
    let c = config(Some(strings(&["christmas"])), Some(strings(&["boxing"])), Some(false), minutes(15), Some(0), Some(minutes(5)), "task 1");
    let result = expand_config(0, &c);
    assert_eq!(result.len(), 0);
}

#[test]
fn test_expand_1() {
    let c = config(Some(strings(&["christmas"])), Some(strings(&["boxing"])), Some(false), minutes(15), Some(1), Some(minutes(5)), "task 1");
    let result = expand_config(0, &c);
    assert_eq!(result.len(), 1);
    assert_eq!(result[0].duration, minutes(15));
    assert_eq!(result[0].number, 0);
    assert_eq!(result[0].repeat_number, 1);
}

#[test]
fn test_expand_3() {
    let c0 = config(Some(strings(&["christmas"])), Some(strings(&["boxing"])), Some(false), minutes(15), Some(3), Some(minutes(5)), "task 1");
    let c1 = config(None, None, Some(false), minutes(15), Some(3), None, "task 2");
    let result = expand_config(0, &c0);
    assert_eq!(result.len(), 3);
    assert_eq!(result[0].duration, minutes(5));
    assert_eq!(result[0].number, 0);
    assert_eq!(result[0].repeat_number, 1);
    assert_eq!(result[1].duration, minutes(5));
    assert_eq!(result[1].number, 0);
    assert_eq!(result[1].repeat_number, 2);
    assert_eq!(result[2].duration, minutes(15));
    assert_eq!(result[2].number, 0);
    assert_eq!(result[2].repeat_number, 3);

    let result = expand_config(1, &c1);
    assert_eq!(result.len(), 3);
    assert_eq!(result[0].duration, minutes(1));
    assert_eq!(result[0].number, 1);
    assert_eq!(result[0].repeat_number, 1);
    assert_eq!(result[1].duration, minutes(1));
    assert_eq!(result[1].number, 1);
    assert_eq!(result[1].repeat_number, 2);
    assert_eq!(result[2].duration, minutes(15));
    assert_eq!(result[2].number, 1);
    assert_eq!(result[2].repeat_number, 3);
}

#[test]
fn test_get_corrected_start_time_0() {
    let c = config(Some(strings(&["christmas"])), Some(strings(&["boxing"])), Some(false), minutes(15), Some(2), None, "task 1");
    let expanded = vec![
        ExpandedConfig { number: 0, repeat_number: 1, duration: minutes(15), config: &c },
        ExpandedConfig { number: 0, repeat_number: 1, duration: minutes(15), config: &c },
    ];
    let datetime = utc(2020, 12, 25, 0, 30, 0);
    let corrected = get_corrected_start_time(datetime, &expanded);
    assert_eq!(corrected, Some(utc(2020, 12, 25, 0, 30, 0)));
}

#[test]
fn test_get_corrected_start_time_1() {
    let c = config(Some(strings(&["christmas"])), Some(strings(&["boxing"])), Some(true), minutes(15), Some(2), None, "task 1");
    let expanded = vec![
        ExpandedConfig { number: 0, repeat_number: 1, duration: minutes(15), config: &c },
        ExpandedConfig { number: 0, repeat_number: 1, duration: minutes(15), config: &c },
    ];
    let datetime = utc(2020, 12, 25, 0, 30, 0);
    let corrected = get_corrected_start_time(datetime, &expanded);
    assert_eq!(corrected, Some(utc(2020, 12, 25, 0, 30, 0)));
}

#[test]
fn test_get_corrected_start_time_2() {
    let c = config(Some(strings(&["christmas"])), Some(strings(&["boxing"])), Some(false), minutes(15), Some(2), None, "task 1");
    let c2 = config(Some(strings(&["christmas"])), Some(strings(&["boxing"])), Some(true), minutes(15), Some(2), None, "task 1");
    let expanded = vec![
        ExpandedConfig { number: 0, repeat_number: 1, duration: minutes(15), config: &c },
        ExpandedConfig { number: 0, repeat_number: 1, duration: minutes(15), config: &c2 },
    ];
    let datetime = utc(2020, 12, 25, 0, 30, 0);
    let corrected = get_corrected_start_time(datetime, &expanded);
    assert_eq!(corrected, Some(utc(2020, 12, 25, 0, 15, 0)));
}

#[test]
fn test_get_sequence_zero_time() {
    let config_list = vec![
        config(Some(strings(&["christmas"])), Some(strings(&["boxing"])), Some(false), minutes(30), None, None, "task 1"),
        config(None, None, Some(true), minutes(30), None, None, "task 2"),
    ];
    let config_map = vec![("test".to_string(), config_list)];
    let sequence = get_sequence_with_config(
        &config_map,
        christmas_date(),
        &"test".to_string(),
        &strings(&["christmas"]),
        &Vec::new(),
        &strings(&["boxing"]),
        utc(2020, 12, 25, 0, 30, 0),
    )
    .unwrap();
    assert_eq!(sequence.len(), 2);
    assert_eq!(sequence[0].start_time, utc(2020, 12, 25, 0, 0, 0));
    assert_eq!(sequence[0].latest_time, utc(2020, 12, 25, 0, 1, 0));
    assert_eq!(sequence[0].id, "test_0");
    assert_eq!(sequence[0].tasks.len(), 1);
    assert_eq!(sequence[1].start_time, utc(2020, 12, 25, 0, 30, 0));
    assert_eq!(sequence[1].latest_time, utc(2020, 12, 25, 0, 31, 0));
    assert_eq!(sequence[1].id, "test_1");
    assert_eq!(sequence[1].tasks.len(), 1);
}

#[test]
fn test_get_sequence_repeat() {
    let config_list = vec![config(
        Some(strings(&["christmas"])),
        Some(strings(&["boxing"])),
        Some(true),
        minutes(30),
        Some(2),
        Some(minutes(10)),
        "task 1",
    )];
    let config_map = vec![("test".to_string(), config_list)];
    let sequence = get_sequence_with_config(
        &config_map,
        christmas_date(),
        &"test".to_string(),
        &strings(&["christmas"]),
        &Vec::new(),
        &strings(&["boxing"]),
        utc(2020, 12, 25, 0, 0, 0),
    )
    .unwrap();
    assert_eq!(sequence.len(), 2);
    assert_eq!(sequence[0].start_time, utc(2020, 12, 25, 0, 0, 0));
    assert_eq!(sequence[0].latest_time, utc(2020, 12, 25, 0, 1, 0));
    assert_eq!(sequence[0].id, "test_0");
    assert_eq!(sequence[0].tasks.len(), 1);
    assert_eq!(sequence[1].start_time, utc(2020, 12, 25, 0, 10, 0));
    assert_eq!(sequence[1].latest_time, utc(2020, 12, 25, 0, 11, 0));
    assert_eq!(sequence[1].id, "test_0");
    assert_eq!(sequence[1].tasks.len(), 1);
}

fn schedule_config_map() -> Vec<(String, Vec<Config>)> {
    let config_test = vec![
        config(None, None, Some(true), minutes(30), None, None, "task 1"),
        config(None, None, Some(false), minutes(30), None, None, "task 2"),
    ];
    let config_christmas = vec![
        config(None, None, Some(true), minutes(30), None, None, "task 3"),
        config(None, None, Some(false), minutes(30), None, None, "task 4"),
    ];
    vec![("test".to_string(), config_test), ("christmas".to_string(), config_christmas)]
}

#[test]
fn test_schedule_to_sequence() {
    let schedule = vec![
        Schedule { sequence_name: "test".to_string(), options: Vec::new(), datetime: utc(2020, 12, 25, 0, 0, 0) },
        Schedule { sequence_name: "christmas".to_string(), options: Vec::new(), datetime: utc(2020, 12, 25, 0, 10, 0) },
    ];
    let config_map = schedule_config_map();
    let sequence = schedule_list_to_sequence(&config_map, christmas_date(), &schedule, &Vec::new(), &Vec::new()).unwrap();
    assert_eq!(sequence.len(), 4);
    assert_eq!(sequence[0].start_time, utc(2020, 12, 25, 0, 0, 0));
    assert_eq!(sequence[0].latest_time, utc(2020, 12, 25, 0, 1, 0));
    assert_eq!(sequence[0].id, "test_0");
    assert_eq!(sequence[0].tasks.len(), 1);
    assert_eq!(sequence[0].tasks[0].title, "task 1");
    assert_eq!(sequence[1].start_time, utc(2020, 12, 25, 0, 10, 0));
    assert_eq!(sequence[1].latest_time, utc(2020, 12, 25, 0, 11, 0));
    assert_eq!(sequence[1].id, "christmas_0");
    assert_eq!(sequence[1].tasks.len(), 1);
    assert_eq!(sequence[1].tasks[0].title, "task 3");
    assert_eq!(sequence[2].start_time, utc(2020, 12, 25, 0, 30, 0));
    assert_eq!(sequence[2].latest_time, utc(2020, 12, 25, 0, 31, 0));
    assert_eq!(sequence[2].id, "test_1");
    assert_eq!(sequence[2].tasks.len(), 1);
    assert_eq!(sequence[2].tasks[0].title, "task 2");
    assert_eq!(sequence[3].start_time, utc(2020, 12, 25, 0, 40, 0));
    assert_eq!(sequence[3].latest_time, utc(2020, 12, 25, 0, 41, 0));
    assert_eq!(sequence[3].id, "christmas_1");
    assert_eq!(sequence[3].tasks.len(), 1);
    assert_eq!(sequence[3].tasks[0].title, "task 4");
}

#[test]
fn test_check_schedule_bad() {
    let names = strings(&["wake_up", "sleep"]);
    let sequence: Vec<(String, Vec<Config>)> = Vec::new();
    let err = check_schedule(&names, &sequence);
    assert!(err.is_err());
    assert!(matches!(err, Err(ConfigCheckError::SequenceError(_))));
}

#[test]
fn test_check_schedule_good() {
    let names = strings(&["wake_up", "sleep"]);
    let sequence = vec![
        ("wake_up".to_string(), vec![config(None, None, Some(true), minutes(30), None, None, "task")]),
        ("sleep".to_string(), vec![config(None, None, Some(false), minutes(30), None, None, "task 1")]),
    ];
    check_schedule(&names, &sequence).unwrap();
}

#[test]
fn sequencer_unknown_sequence_is_an_error() {
    let config_map = schedule_config_map();
    let r = get_sequence_with_config(
        &config_map,
        christmas_date(),
        &"missing".to_string(),
        &Vec::new(),
        &Vec::new(),
        &Vec::new(),
        0,
    );
    assert!(matches!(r, Err(SequenceError::NoSequence(ref s)) if s == "missing"));
}

#[test]
fn sequencer_time_out_of_range_is_an_error() {
    let config_map = schedule_config_map();
    let r = get_sequence_with_config(
        &config_map,
        christmas_date(),
        &"test".to_string(),
        &Vec::new(),
        &Vec::new(),
        &Vec::new(),
        i64::MAX - 10,
    );
    assert!(matches!(r, Err(SequenceError::TimeOutOfRange)));
}

#[test]
fn sequencer_first_missing_name_is_reported() {
    let names = strings(&["test", "nothing", "other"]);
    let config_map = schedule_config_map();
    assert_eq!(check_schedule(&names, &config_map), Err(ConfigCheckError::SequenceError("nothing".to_string())));
}

#[test]
fn sequencer_id_and_end_time_and_tasks() {
    let mut c = config(None, None, None, minutes(20), None, None, "task 1");
    c.id = Some("named".to_string());
    c.latest_time = Some(minutes(5));
    let config_map = vec![("seq".to_string(), vec![c])];
    let s = get_sequence_with_config(&config_map, christmas_date(), &"seq".to_string(), &Vec::new(), &Vec::new(), &Vec::new(), 1000)
        .unwrap();
    assert_eq!(s.len(), 1);
    assert_eq!(s[0].id, "named");
    assert_eq!(s[0].start_time, 1000);
    assert_eq!(s[0].end_time, 1000 + minutes(20));
    assert_eq!(s[0].latest_time, 1000 + minutes(5));
    assert_eq!(s[0].sequence_name, "seq");
    assert!(!s[0].zero_time);
    assert_eq!(s[0].tasks[0].topics, vec!["test/test".to_string()]);
    assert_eq!(s[0].tasks[0].qos, robotica_backend::tasks::QoS::ExactlyOnce);
    assert_eq!(s[0].tasks[0].payload, robotica_backend::tasks::Payload::String(String::new()));
}

fn seq_at(id: &str, start: i64, end: i64) -> Sequence {
    Sequence {
        title: "t".to_string(),
        id: id.to_string(),
        schedule_date: christmas_date(),
        importance: Importance::Low,
        sequence_name: "s".to_string(),
        zero_time: false,
        start_time: start,
        end_time: end,
        duration: end - start,
        latest_time: start + 60,
        repeat_number: 1,
        tasks: Vec::new(),
        status: None,
        mark: None,
    }
}

#[test]
fn sequencer_sort_is_by_start_then_end_and_stable() {
    let v = vec![seq_at("a", 10, 30), seq_at("b", 5, 50), seq_at("c", 10, 20), seq_at("d", 10, 30), seq_at("e", 5, 50)];
    let sorted = sort_sequences(v);
    let ids: Vec<&str> = sorted.iter().map(|s| s.id.as_str()).collect();
    assert_eq!(ids, vec!["b", "e", "c", "a", "d"]);
}

#[test]
fn sequencer_is_done() {
    let mut s = seq_at("a", 0, 1);
    assert!(!s.is_done());
    s.status = Some(Status::Pending);
    assert!(!s.is_done());
    s.status = Some(Status::InProgress);
    assert!(!s.is_done());
    s.status = Some(Status::Completed);
    assert!(s.is_done());
    s.status = Some(Status::Cancelled);
    assert!(s.is_done());
}
