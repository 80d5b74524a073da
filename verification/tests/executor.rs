use robotica_backend::dates::Date;
use robotica_backend::executor::{
    finalize_action, AllMarks, AllStatus, Event, EventType, Executor, FinalizeAction, Listing,
};
use robotica_backend::sequencer::{Importance, Mark, MarkStatus, Sequence, Status};
use robotica_backend::tasks::{Payload, QoS, Retain, Task};

fn date() -> Date {
    Date::from_ymd(2020, 12, 25).unwrap()
}

fn seq(id: &str, start: i64, end: i64, importance: Importance) -> Sequence {
    Sequence {
        title: id.to_string(),
        id: id.to_string(),
        schedule_date: date(),
        importance,
        sequence_name: "s".to_string(),
        zero_time: false,
        start_time: start,
        end_time: end,
        duration: end - start,
        latest_time: start + 60,
        repeat_number: 1,
        tasks: vec![Task {
            title: "t".to_string(),
            payload: Payload::String("on".to_string()),
            qos: QoS::ExactlyOnce,
            retain: Retain::NoRetain,
            topics: vec!["a/b".to_string(), "c/d".to_string()],
        }],
        status: None,
        mark: None,
    }
}

fn mark(id: &str, status: MarkStatus, start: i64, end: i64) -> Mark {
    Mark { id: id.to_string(), status, start_time: start, end_time: end }
}

#[test]
fn executor_marks() {
    let mut marks = AllMarks::new();
    let s = seq("x", 100, 200, Importance::Low);
    assert!(marks.get(&s).is_none());
    marks.insert(mark("x", MarkStatus::Done, 50, 300));
    assert_eq!(marks.get(&s), Some(mark("x", MarkStatus::Done, 50, 300)));
    marks.insert(mark("x", MarkStatus::Cancelled, 150, 300));
    assert!(marks.get(&s).is_none());
    marks.insert(mark("x", MarkStatus::Cancelled, 100, 201));
    assert_eq!(marks.get(&s), Some(mark("x", MarkStatus::Cancelled, 100, 201)));
    marks.expire(201);
    assert!(marks.get(&s).is_none());
}

#[test]
fn executor_status() {
    let mut st = AllStatus::new();
    let s = seq("x", 100, 200, Importance::Low);
    assert_eq!(st.get(&s), Status::Pending);
    st.insert(&s, Status::InProgress);
    assert_eq!(st.get(&s), Status::InProgress);
    st.insert(&s, Status::Completed);
    assert_eq!(st.get(&s), Status::Completed);
    let later = Date::from_ymd(2020, 12, 26).unwrap();
    st.expire(later, later);
    assert_eq!(st.get(&s), Status::Pending);
}

#[test]
fn executor_events_are_ordered_and_run() {
    let mut e = Executor::new(date(), 0);
    e.set_sequences(vec![seq("b", 300, 400, Importance::Low), seq("a", 100, 300, Importance::Important)]);
    let times: Vec<(i64, usize, EventType)> = e.events.iter().map(|ev| (ev.datetime, ev.sequence_index, ev.event_type)).collect();
    assert_eq!(
        times,
        vec![(100, 1, EventType::Start), (300, 0, EventType::Start), (300, 1, EventType::Stop), (400, 0, EventType::Stop)]
    );
    assert_eq!(e.next_timer_delay(90), 10);
    assert_eq!(e.next_timer_delay(0), 60);
    assert_eq!(e.next_timer_delay(200), 60);

    let (changed, messages) = e.run_due_events(150);
    assert!(changed);
    assert_eq!(messages.len(), 2);
    assert_eq!(messages[0].topic, "a/b");
    assert_eq!(messages[1].topic, "c/d");
    assert_eq!(messages[0].payload, "on");
    assert_eq!(e.events.len(), 3);
    assert_eq!(e.get_status_for_sequence(&e.sequences[1].duplicate()), Status::InProgress);

    // The start of "b" is past its latest time: it is marked in progress without its tasks.
    let (changed, messages) = e.run_due_events(1000);
    assert!(changed);
    assert!(messages.is_empty());
    assert!(e.events.is_empty());
    assert_eq!(e.next_timer_delay(1000), 120);
    let s0 = e.sequences[0].duplicate();
    let s1 = e.sequences[1].duplicate();
    assert_eq!(e.get_status_for_sequence(&s0), Status::Completed);
    assert_eq!(e.get_status_for_sequence(&s1), Status::Completed);
}

#[test]
fn executor_marked_sequences_get_no_start() {
    let mut e = Executor::new(date(), 0);
    e.all_marks.insert(mark("a", MarkStatus::Cancelled, 0, 1000));
    e.set_sequences(vec![seq("a", 100, 300, Importance::Low), seq("b", 200, 400, Importance::Important)]);
    assert_eq!(e.events.len(), 2);
    assert!(e.events.iter().all(|ev| ev.sequence_index == 1));
    let pending = e.list_sequences(Listing::Pending);
    assert_eq!(pending.len(), 2);
    assert_eq!(pending[0].status, Some(Status::Cancelled));
    assert_eq!(pending[0].mark, Some(mark("a", MarkStatus::Cancelled, 0, 1000)));
    let important = e.list_sequences(Listing::Important);
    assert_eq!(important.len(), 1);
    assert_eq!(important[0].id, "b");
    assert_eq!(e.list_sequences(Listing::All).len(), 2);
}

#[test]
fn executor_process_event_directly() {
    let mut e = Executor::new(date(), 0);
    e.set_sequences(vec![seq("a", 100, 300, Importance::Low)]);
    let stop = Event { datetime: 300, sequence_index: 0, event_type: EventType::Stop };
    let (changed, messages) = e.process_event(stop, 300);
    assert!(!changed);
    assert!(messages.is_empty());
    let start = Event { datetime: 100, sequence_index: 0, event_type: EventType::Start };
    let (changed, messages) = e.process_event(start, 100);
    assert!(changed);
    assert_eq!(messages.len(), 2);
    let (changed, _) = e.process_event(start, 100);
    assert!(!changed);
    let (changed, _) = e.process_event(stop, 300);
    assert!(changed);
}

#[test]
fn executor_finalize_action() {
    let d = date();
    let next = Date::from_ymd(2020, 12, 26).unwrap();
    assert_eq!(finalize_action(next, d, 0, 0, false), FinalizeAction::NewDay);
    assert_eq!(finalize_action(d, d, 301, 0, false), FinalizeAction::Refresh);
    assert_eq!(finalize_action(d, d, 300, 0, true), FinalizeAction::Publish);
    assert_eq!(finalize_action(d, d, 300, 0, false), FinalizeAction::Nothing);
    assert_eq!(finalize_action(d, d, i64::MAX, i64::MAX - 10, false), FinalizeAction::Nothing);
}

#[test]
fn executor_start_takes_effect_once() {
    let mut e = Executor::new(date(), 0);
    e.set_sequences(vec![seq("a", 100, 300, Importance::Low)]);
    let start = Event { datetime: 100, sequence_index: 0, event_type: EventType::Start };
    let (_, first) = e.process_event(start, 100);
    assert_eq!(first.len(), 2);
    let (changed, second) = e.process_event(start, 120);
    assert!(!changed);
    assert!(second.is_empty());
}
