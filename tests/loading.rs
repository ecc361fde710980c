use timetrack::clock::{Date, Timestamp};
use timetrack::state::{
    Activity, ActivityId, Bucket, CurrentActionInfo, State, StateBuilder, TodoItem, TodoItemOld,
};

const DAY: Date = Date { days_from_ce: 739_000 };

fn empty_record() -> StateBuilder {
    StateBuilder {
        date: None,
        activities: None,
        next_activity_id: None,
        current: None,
        todo: None,
        todo_v2: None,
        buckets: None,
        buckets_v2: None,
    }
}

fn names(state: &State) -> Vec<String> {
    state.get_buckets().iter().map(|b| b.name().to_string()).collect()
}

fn texts(bucket: &Bucket) -> Vec<String> {
    bucket.todos().iter().map(|t| t.item().to_string()).collect()
}

#[test]
fn empty_record_loads_default_bucket_and_today() {
    let s = State::from_builder(empty_record(), DAY);
    assert_eq!(names(&s), vec!["N/A".to_string()]);
    assert_eq!(s.date(), DAY);
    assert_eq!(s.next_activity_id(), 0);
    assert_eq!(s.activities_count(), 0);
}

#[test]
fn legacy_layouts_are_migrated() {
    let mut rec = empty_record();
    rec.buckets_v2 = Some(vec![Bucket::new("Work".to_string(), vec![TodoItem::new("w1".to_string())])]);
    rec.buckets = Some(vec!["Home".to_string(), "Work".to_string()]);
    rec.todo = Some(vec!["old".to_string()]);
    rec.todo_v2 = Some(vec![
        TodoItemOld { item: "h1".to_string(), bucket: Some("Home".to_string()) },
        TodoItemOld { item: "n1".to_string(), bucket: None },
        TodoItemOld { item: "lost".to_string(), bucket: Some("Nowhere".to_string()) },
    ]);
    let s = State::from_builder(rec, DAY);
    assert_eq!(names(&s), vec!["Work".to_string(), "Home".to_string(), "N/A".to_string()]);
    assert_eq!(texts(&s.get_buckets()[0]), vec!["w1"]);
    assert_eq!(texts(&s.get_buckets()[1]), vec!["h1"]);
    assert_eq!(texts(&s.get_buckets()[2]), vec!["old", "n1"]);
}

#[test]
fn counter_from_largest_id() {
    let mut rec = empty_record();
    rec.activities = Some(vec![
        Activity::from_parts(ActivityId::from_raw(4), "a".to_string(), 10, 0),
        Activity::from_parts(ActivityId::from_raw(9), "b".to_string(), 10, 0),
        Activity::from_parts(ActivityId::from_raw(4), "dup".to_string(), 10, 0),
    ]);
    let mut s = State::from_builder(rec, DAY);
    assert_eq!(s.activities_count(), 2);
    assert_eq!(s.next_activity_id(), 10);
    let id = s.add_activity("c".to_string(), 5);
    assert_eq!(id.raw(), 11);
}

#[test]
fn stored_counter_is_kept_when_large_enough() {
    let mut rec = empty_record();
    rec.activities = Some(vec![Activity::from_parts(ActivityId::from_raw(2), "a".to_string(), 10, 3)]);
    rec.next_activity_id = Some(7);
    rec.current = Some(CurrentActionInfo::new(ActivityId::from_raw(2), Timestamp { millis: 0 }, Some(25)));
    rec.date = Some(Date { days_from_ce: 5 });
    let s = State::from_builder(rec, DAY);
    assert_eq!(s.next_activity_id(), 7);
    assert_eq!(s.current_id(), Some(ActivityId::from_raw(2)));
    assert_eq!(s.date(), Date { days_from_ce: 5 });
}

#[test]
fn session_of_missing_activity_is_dropped() {
    let mut rec = empty_record();
    rec.current = Some(CurrentActionInfo::new(ActivityId::from_raw(3), Timestamp { millis: 0 }, None));
    let s = State::from_builder(rec, DAY);
    assert!(s.current_id().is_none());
}

#[test]
fn load_refreshes_another_day_only() {
    let mut rec = empty_record();
    rec.activities = Some(vec![Activity::from_parts(ActivityId::from_raw(1), "a".to_string(), 10, 3)]);
    rec.date = Some(DAY);
    let same = State::load(rec, DAY);
    assert_eq!(same.activities()[0].acheived_minutes(), 3);
    let next = Date { days_from_ce: DAY.days_from_ce + 1 };
    let other = State::load(same.to_builder(), next);
    assert_eq!(other.activities()[0].acheived_minutes(), 0);
    assert_eq!(other.activities()[0].target_minutes(), 10);
    assert_eq!(other.date(), next);
}

#[test]
fn saved_record_holds_current_layout() {
    let mut s = State::new(DAY);
    s.add_activity("a".to_string(), 10);
    let rec = s.to_builder();
    assert_eq!(rec.date, Some(DAY));
    assert_eq!(rec.next_activity_id, Some(1));
    assert!(rec.todo.is_none() && rec.todo_v2.is_none() && rec.buckets.is_none());
    assert_eq!(rec.activities.as_ref().map(|v| v.len()), Some(1));
    assert_eq!(rec.buckets_v2.as_ref().map(|v| v.len()), Some(1));
}

#[test]
fn bucket_accessors() {
    let mut b = Bucket::new("x".to_string(), vec![]);
    b.push_todo(TodoItem::new("t".to_string()));
    b.set_name("y".to_string());
    b.todos_mut().push(TodoItem::new("u".to_string()));
    assert_eq!(b.name(), "y");
    assert_eq!(texts(&b), vec!["t", "u"]);
    let a = Activity::from_parts(ActivityId::from_raw(1), "n".to_string(), 10, 4).with_acheived_reset();
    assert_eq!((a.name(), a.target_minutes(), a.acheived_minutes()), ("n", 10, 0));
}

#[test]
fn saved_record_loads_back() {
    let mut s = State::new(DAY);
    let a = s.add_activity("a".to_string(), 10);
    s.add_activity("b".to_string(), 20);
    s.add_time(a, 4).unwrap();
    s.start_activity_pomo_at(a, Some(25), Timestamp { millis: 1_000 }).unwrap();
    s.create_bucket(Bucket::new("Work".to_string(), vec![TodoItem::new("w".to_string())]));
    s.add_todo(0, TodoItem::new("d".to_string()));
    let back = State::from_builder(s.to_builder(), Date { days_from_ce: 1 });
    assert_eq!(back.date(), DAY);
    assert_eq!(back.next_activity_id(), s.next_activity_id());
    assert_eq!(back.current_id(), Some(a));
    assert_eq!(back.pomo_minutes(), Some(25));
    assert_eq!(back.current().unwrap().start_time(), Timestamp { millis: 1_000 });
    let summary = |st: &State| -> Vec<(usize, String, usize, usize)> {
        st.activities()
            .iter()
            .map(|x| (x.id().raw(), x.name().to_string(), x.target_minutes(), x.acheived_minutes()))
            .collect()
    };
    assert_eq!(summary(&back), summary(&s));
    assert_eq!(names(&back), names(&s));
    assert_eq!(texts(&back.get_buckets()[0]), vec!["d"]);
    assert_eq!(texts(&back.get_buckets()[1]), vec!["w"]);
}
