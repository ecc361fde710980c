use timetrack::clock::{Date, Timestamp};
use timetrack::state::{
    Bucket, BucketSwapError, DeletionError, EndActivityError, StartActivityError, State, TodoDeletionError,
    TodoItem, TodoSwapError, DEFAULT_BUCKET_NAME,
};

const DAY: Date = Date { days_from_ce: 739_000 };

fn at_minute(m: i64) -> Timestamp {
    Timestamp { millis: 1_700_000_000_000 + m * 60_000 }
}

fn names(state: &State) -> Vec<String> {
    state.get_buckets().iter().map(|b| b.name().to_string()).collect()
}

fn texts(bucket: &Bucket) -> Vec<String> {
    bucket.todos().iter().map(|t| t.item().to_string()).collect()
}

fn store_with_five_todos() -> State {
    let mut s = State::new(DAY);
    for t in ["a", "b", "c", "d", "e"] {
        assert!(s.add_todo(0, TodoItem::new(t.to_string())));
    }
    s
}

#[test]
fn new_store_has_only_default_bucket() {
    let s = State::new(DAY);
    assert_eq!(names(&s), vec![DEFAULT_BUCKET_NAME.to_string()]);
    assert_eq!(s.activities_count(), 0);
    assert!(s.current_id().is_none());
    assert_eq!(s.date(), DAY);
}

#[test]
fn ids_increase_and_are_not_reused_after_delete() {
    let mut s = State::new(DAY);
    let a = s.add_activity("a".to_string(), 10);
    let b = s.add_activity("b".to_string(), 10);
    assert!(a.raw() < b.raw());
    assert_eq!(s.delete(b), Ok(()));
    let c = s.add_activity("c".to_string(), 10);
    assert!(c.raw() > b.raw());
    assert_eq!(a.raw(), 1);
    assert_eq!(c.raw(), 3);
    assert_eq!(s.next_activity_id(), 3);
}

#[test]
fn delete_errors() {
    let mut s = State::new(DAY);
    let a = s.add_activity("a".to_string(), 10);
    assert_eq!(s.delete(timetrack::state::ActivityId::from_raw(99)), Err(DeletionError::InvalidId));
    assert_eq!(s.start_activity_pomo_at(a, Some(25), at_minute(0)), Ok(()));
    assert_eq!(s.delete(a), Err(DeletionError::PomoOngoing));
    assert_eq!(s.activities_count(), 1);
}

#[test]
fn delete_ends_freeform_session() {
    let mut s = State::new(DAY);
    let a = s.add_activity("a".to_string(), 10);
    assert_eq!(s.start_activity_pomo_at(a, None, at_minute(0)), Ok(()));
    assert_eq!(s.delete(a), Ok(()));
    assert!(s.current_id().is_none());
    assert_eq!(s.activities_count(), 0);
}

#[test]
fn start_refused_while_ongoing() {
    let mut s = State::new(DAY);
    let a = s.add_activity("a".to_string(), 10);
    let b = s.add_activity("b".to_string(), 10);
    assert_eq!(s.start_activity_pomo_at(a, None, at_minute(0)), Ok(()));
    assert_eq!(s.start_activity_pomo_at(b, None, at_minute(1)), Err(StartActivityError::AlreadyOngoing));
    assert_eq!(s.start_activity(b), Err(StartActivityError::AlreadyOngoing));
    assert_eq!(s.current_id(), Some(a));
}

#[test]
fn start_unknown_id() {
    let mut s = State::new(DAY);
    let id = timetrack::state::ActivityId::from_raw(4);
    assert_eq!(s.start_activity_pomo_at(id, None, at_minute(0)), Err(StartActivityError::InvalidId));
    assert!(s.current_id().is_none());
}

#[test]
fn end_without_session() {
    let mut s = State::new(DAY);
    assert_eq!(s.end_activity_at(false, at_minute(0)), Err(EndActivityError::NoCurrentActivity));
    assert_eq!(s.end_activity(true), Err(EndActivityError::NoCurrentActivity));
}

#[test]
fn end_pomodoro_needs_override() {
    let mut s = State::new(DAY);
    let a = s.add_activity("a".to_string(), 60);
    s.start_activity_pomo_at(a, Some(25), at_minute(0)).unwrap();
    assert_eq!(s.end_activity_at(false, at_minute(10)), Err(EndActivityError::PomoOngoing));
    assert_eq!(s.end_activity_at(true, at_minute(10)), Ok(()));
    assert_eq!(s.activity_by_id(a).unwrap().acheived_minutes(), 10);
    assert!(s.current_id().is_none());
}

#[test]
fn end_freeform_adds_whole_minutes() {
    let mut s = State::new(DAY);
    let a = s.add_activity("a".to_string(), 60);
    s.overwrite_time(a, 5).unwrap();
    let start = at_minute(0);
    s.start_activity_pomo_at(a, None, start).unwrap();
    let end = Timestamp { millis: start.millis + 17 * 60_000 + 59_999 };
    assert_eq!(s.end_activity_at(false, end), Ok(()));
    assert_eq!(s.activity_by_id(a).unwrap().acheived_minutes(), 22);
}

#[test]
fn end_before_start_adds_nothing() {
    let mut s = State::new(DAY);
    let a = s.add_activity("a".to_string(), 60);
    s.start_activity_pomo_at(a, None, at_minute(10)).unwrap();
    assert_eq!(s.end_activity_at(false, at_minute(3)), Ok(()));
    assert_eq!(s.activity_by_id(a).unwrap().acheived_minutes(), 0);
}

#[test]
fn add_overwrite_and_change_target() {
    let mut s = State::new(DAY);
    let a = s.add_activity("a".to_string(), 60);
    assert_eq!(s.add_time(a, 7), Ok(()));
    assert_eq!(s.add_time(a, 8), Ok(()));
    assert_eq!(s.activity_by_id(a).unwrap().acheived_minutes(), 15);
    assert_eq!(s.overwrite_time(a, 3), Ok(()));
    assert_eq!(s.activity_by_id(a).unwrap().acheived_minutes(), 3);
    assert_eq!(s.change_target(a, 90), Ok(()));
    assert_eq!(s.activity_by_id(a).unwrap().target_minutes(), 90);
    let missing = timetrack::state::ActivityId::from_raw(42);
    assert_eq!(s.add_time(missing, 1), Err(()));
    assert_eq!(s.overwrite_time(missing, 1), Err(()));
    assert_eq!(s.change_target(missing, 1), Err(()));
}

#[test]
fn add_time_saturates() {
    let mut s = State::new(DAY);
    let a = s.add_activity("a".to_string(), 60);
    s.overwrite_time(a, usize::MAX - 1).unwrap();
    s.add_time(a, 5).unwrap();
    assert_eq!(s.activity_by_id(a).unwrap().acheived_minutes(), usize::MAX);
}

#[test]
fn refresh_twice_is_refresh_once() {
    let mut s = State::new(DAY);
    let a = s.add_activity("a".to_string(), 60);
    let b = s.add_activity("b".to_string(), 30);
    s.add_time(a, 20).unwrap();
    s.add_time(b, 40).unwrap();
    s.create_bucket(Bucket::new("Work".to_string(), vec![TodoItem::new("x".to_string())]));
    let next_day = Date { days_from_ce: DAY.days_from_ce + 1 };
    let once = s.refresh_on(next_day);
    let twice_source = once.to_builder();
    let twice = State::from_builder(twice_source, next_day).refresh_on(next_day);
    for st in [&once, &twice] {
        assert_eq!(st.date(), next_day);
        let acts = st.activities();
        assert_eq!(acts.len(), 2);
        assert_eq!((acts[0].id(), acts[0].target_minutes(), acts[0].acheived_minutes()), (a, 60, 0));
        assert_eq!((acts[1].id(), acts[1].target_minutes(), acts[1].acheived_minutes()), (b, 30, 0));
        assert_eq!(names(st), vec!["N/A".to_string(), "Work".to_string()]);
        assert_eq!(texts(&st.get_buckets()[1]), vec!["x".to_string()]);
        assert_eq!(st.next_activity_id(), 2);
    }
}

#[test]
fn create_bucket_twice_merges() {
    let mut s = State::new(DAY);
    assert!(s.create_bucket(Bucket::new("Work".to_string(), vec![TodoItem::new("one".to_string())])));
    assert!(!s.create_bucket(Bucket::new(
        "Work".to_string(),
        vec![TodoItem::new("two".to_string()), TodoItem::new("three".to_string())]
    )));
    assert_eq!(names(&s), vec!["N/A".to_string(), "Work".to_string()]);
    assert_eq!(texts(&s.get_buckets()[1]), vec!["one", "two", "three"]);
}

#[test]
fn bucket_names_are_case_sensitive() {
    let mut s = State::new(DAY);
    assert!(s.create_bucket(Bucket::new("Work".to_string(), vec![])));
    assert!(s.create_bucket(Bucket::new("work".to_string(), vec![])));
    assert_eq!(s.get_buckets().len(), 3);
}

#[test]
fn delete_non_empty_bucket_then_empty() {
    let mut s = State::new(DAY);
    s.create_bucket(Bucket::new("Work".to_string(), vec![TodoItem::new("x".to_string())]));
    assert!(!s.delete_bucket(1));
    assert_eq!(s.get_buckets().len(), 2);
    assert_eq!(s.delete_todo(1, 0), Ok(()));
    assert!(s.delete_bucket(1));
    assert_eq!(names(&s), vec!["N/A".to_string()]);
}

#[test]
fn default_bucket_cannot_be_deleted() {
    let mut s = State::new(DAY);
    assert!(!s.delete_bucket(0));
    assert!(!s.delete_bucket(7));
    assert_eq!(names(&s), vec!["N/A".to_string()]);
}

#[test]
fn swap_todos_errors_and_swap() {
    let mut s = store_with_five_todos();
    assert_eq!(s.swap_todos(0, 2, 2), Err(TodoSwapError::EqualIds));
    assert_eq!(s.swap_todos(0, 0, 10), Err(TodoSwapError::SecondInvalid));
    assert_eq!(s.swap_todos(0, 10, 0), Err(TodoSwapError::FirstInvalid));
    assert_eq!(s.swap_todos(3, 0, 1), Err(TodoSwapError::InvalidBucket));
    assert_eq!(s.swap_todos(0, 0, 4), Ok(()));
    assert_eq!(texts(&s.get_buckets()[0]), vec!["e", "b", "c", "d", "a"]);
}

#[test]
fn delete_todo_errors() {
    let mut s = store_with_five_todos();
    assert_eq!(s.delete_todo(0, 5), Err(TodoDeletionError::InvalidId));
    assert_eq!(s.delete_todo(1, 0), Err(TodoDeletionError::InvalidIdOrBucket));
    assert_eq!(s.delete_todo(0, 1), Ok(()));
    assert_eq!(texts(&s.get_buckets()[0]), vec!["a", "c", "d", "e"]);
}

#[test]
fn move_todo_between_buckets_appends() {
    let mut s = store_with_five_todos();
    s.create_bucket(Bucket::new("Home".to_string(), vec![TodoItem::new("z".to_string())]));
    assert_eq!(s.move_todo_between_buckets(0, 1, 1), Ok(()));
    assert_eq!(texts(&s.get_buckets()[0]), vec!["a", "c", "d", "e"]);
    assert_eq!(texts(&s.get_buckets()[1]), vec!["z", "b"]);
    assert_eq!(s.move_todo_between_buckets(0, 9, 1), Err(TodoDeletionError::InvalidId));
    assert_eq!(s.move_todo_between_buckets(0, 0, 2), Err(TodoDeletionError::InvalidIdOrBucket));
}

#[test]
fn change_bucket_index_moves_and_errors() {
    let mut s = State::new(DAY);
    s.create_bucket(Bucket::new("A".to_string(), vec![]));
    s.create_bucket(Bucket::new("B".to_string(), vec![]));
    assert_eq!(s.change_bucket_index(0, 2), Ok(()));
    assert_eq!(names(&s), vec!["A".to_string(), "B".to_string(), "N/A".to_string()]);
    assert_eq!(s.change_bucket_index(3, 0), Err(BucketSwapError::InvalidSelection));
    assert_eq!(s.change_bucket_index(0, 3), Err(BucketSwapError::InvalidTargetIndex));
}

#[test]
fn add_todo_to_missing_bucket() {
    let mut s = State::new(DAY);
    assert!(!s.add_todo(1, TodoItem::new("x".to_string())));
    assert_eq!(s.get_buckets()[0].todo_count(), 0);
}

#[test]
fn session_minutes_round_toward_zero() {
    let mut s = State::new(DAY);
    let a = s.add_activity("a".to_string(), 60);
    let start = at_minute(100);
    s.start_activity_pomo_at(a, Some(25), start).unwrap();
    let later = Timestamp { millis: start.millis + 2 * 60_000 + 30_000 };
    let earlier = Timestamp { millis: start.millis - 2 * 60_000 - 30_000 };
    assert_eq!(s.current_session_duration_at(later), Some(2));
    assert_eq!(s.current_session_duration_at(earlier), Some(-2));
    assert_eq!(s.current_task_minutes_at(later), Some(2));
    assert_eq!(s.current_task_minutes_at(earlier), Some(0));
    assert_eq!(s.pomo_minutes(), Some(25));
}

#[test]
fn pomodoro_expiry() {
    let mut s = State::new(DAY);
    let a = s.add_activity("a".to_string(), 60);
    s.start_activity_pomo_at(a, Some(25), at_minute(0)).unwrap();
    assert_eq!(s.check_pomodoro_expiry_at(at_minute(24)), None);
    assert_eq!(s.current_id(), Some(a));
    let done = s.check_pomodoro_expiry_at(at_minute(25)).unwrap();
    assert_eq!(done.activity_id, a);
    assert_eq!(done.pomo_minutes, 25);
    assert!(s.current_id().is_none());
    assert_eq!(s.activity_by_id(a).unwrap().acheived_minutes(), 25);
}

#[test]
fn freeform_session_never_expires() {
    let mut s = State::new(DAY);
    let a = s.add_activity("a".to_string(), 60);
    s.start_activity_pomo_at(a, None, at_minute(0)).unwrap();
    assert_eq!(s.check_pomodoro_expiry_at(at_minute(1000)), None);
    assert_eq!(s.current_id(), Some(a));
}
