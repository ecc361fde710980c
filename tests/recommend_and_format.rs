use timetrack::clock::{elapsed_minutes_between, signed_minutes_between, Date, Timestamp};
use timetrack::recommend::{find_recommended_action, find_recommended_action_at, FindRecommendedActionError};
use timetrack::model::ActivityStatus;
use timetrack::state::{pad_name, State};

const DAY: Date = Date { days_from_ce: 739_000 };

fn at_minute(m: i64) -> Timestamp {
    Timestamp { millis: 1_700_000_000_000 + m * 60_000 }
}

#[test]
fn recommends_least_achieved_then_pomodoro_expires() {
    let mut s = State::new(DAY);
    let a = s.add_activity("A".to_string(), 60);
    let b = s.add_activity("B".to_string(), 30);
    s.overwrite_time(b, 10).unwrap();
    let chosen = find_recommended_action_at(&s, at_minute(0)).unwrap();
    assert_eq!(chosen.id(), a);
    s.start_activity_pomo_at(a, Some(25), at_minute(0)).unwrap();
    let done = s.check_pomodoro_expiry_at(at_minute(25)).unwrap();
    assert_eq!(done.activity_id, a);
    assert_eq!(s.activity_by_id(a).unwrap().acheived_minutes(), 25);
    assert!(s.current_id().is_none());
}

#[test]
fn ties_go_to_the_first_activity() {
    let mut s = State::new(DAY);
    let a = s.add_activity("A".to_string(), 60);
    let b = s.add_activity("B".to_string(), 30);
    s.overwrite_time(a, 10).unwrap();
    s.overwrite_time(b, 10).unwrap();
    assert_eq!(find_recommended_action_at(&s, at_minute(0)).unwrap().id(), a);
}

#[test]
fn finished_activities_are_never_recommended() {
    let mut s = State::new(DAY);
    let a = s.add_activity("A".to_string(), 30);
    let b = s.add_activity("B".to_string(), 40);
    s.overwrite_time(a, 0).unwrap();
    s.overwrite_time(b, 5).unwrap();
    s.change_target(a, 0).unwrap();
    assert_eq!(find_recommended_action_at(&s, at_minute(0)).unwrap().id(), b);
    s.overwrite_time(b, 40).unwrap();
    assert!(matches!(find_recommended_action_at(&s, at_minute(0)), Err(FindRecommendedActionError::NoMoreTasks)));
}

#[test]
fn no_activities_no_tasks() {
    let s = State::new(DAY);
    assert!(matches!(find_recommended_action(&s), Err(FindRecommendedActionError::NoMoreTasks)));
}

#[test]
fn ongoing_session_is_reported() {
    let mut s = State::new(DAY);
    let a = s.add_activity("A".to_string(), 30);
    s.overwrite_time(a, 10).unwrap();
    s.start_activity_pomo_at(a, None, at_minute(0)).unwrap();
    match find_recommended_action_at(&s, at_minute(19)) {
        Err(FindRecommendedActionError::Ongoing(x)) => assert_eq!(x.id(), a),
        other => panic!("unexpected {:?}", other),
    }
    match find_recommended_action_at(&s, at_minute(20)) {
        Err(FindRecommendedActionError::OngoingCompleted(x)) => assert_eq!(x.id(), a),
        other => panic!("unexpected {:?}", other),
    }
}

#[test]
fn minutes_between_instants() {
    let t = at_minute(0);
    assert_eq!(elapsed_minutes_between(t, Timestamp { millis: t.millis + 59_999 }), 0);
    assert_eq!(elapsed_minutes_between(t, Timestamp { millis: t.millis + 120_000 }), 2);
    assert_eq!(elapsed_minutes_between(t, Timestamp { millis: t.millis - 120_000 }), 0);
    assert_eq!(signed_minutes_between(t, Timestamp { millis: t.millis - 150_000 }), -2);
    assert_eq!(signed_minutes_between(Timestamp { millis: i64::MIN }, Timestamp { millis: i64::MAX }), 307_445_734_561_825);
}

#[test]
fn clock_reads_plausible_values() {
    let mut s = State::new(Date { days_from_ce: 1 }).refresh();
    assert!(s.date().days_from_ce > 738_000);
    let a = s.add_activity("A".to_string(), 60);
    s.start_activity(a).unwrap();
    assert!(s.current().unwrap().start_time().millis > 1_600_000_000_000);
    assert_eq!(s.current_task_minutes(), Some(0));
    assert_eq!(s.end_activity(false), Ok(()));
    assert_eq!(s.activities()[0].acheived_minutes(), 0);
}

#[test]
fn pad_name_fills_with_spaces() {
    assert_eq!(pad_name("ab", 5), "ab   ");
    assert_eq!(pad_name("abcdef", 3), "abcdef");
    assert_eq!(pad_name("é", 3), "é  ");
}

#[test]
fn activity_lines() {
    let mut s = State::new(DAY);
    let a = s.add_activity("Read".to_string(), 60);
    let b = s.add_activity("Write".to_string(), 30);
    s.overwrite_time(a, 50).unwrap();
    s.overwrite_time(b, 30).unwrap();
    let acts: Vec<_> = s.activities().iter().map(|x| x.id()).collect();
    assert_eq!(acts, vec![a, b]);
    let line = s.format_activity_at(&s.activities()[0], Some(6), at_minute(0));
    assert_eq!(line.status, ActivityStatus::NotDone);
    assert_eq!(line.name, "Read  ");
    assert_eq!((line.remaining, line.target), (10, 60));
    let line = s.format_activity_at(&s.activities()[1], None, at_minute(0));
    assert_eq!(line.status, ActivityStatus::Complete);
    assert_eq!(line.name, "Write");
    assert_eq!(line.remaining, 0);
    s.start_activity_pomo_at(a, None, at_minute(0)).unwrap();
    let line = s.format_activity_at(&s.activities()[0], None, at_minute(4));
    assert_eq!(line.status, ActivityStatus::Ongoing);
    assert_eq!(line.remaining, 6);
    let line = s.format_activity_at(&s.activities()[0], None, at_minute(12));
    assert_eq!(line.status, ActivityStatus::Overwork);
    assert_eq!(line.remaining, 0);
    assert_eq!(ActivityStatus::Overwork.label(), "OVERWORK");
    assert_eq!(ActivityStatus::Ongoing.label(), "ONGOING ");
    assert_eq!(ActivityStatus::NotDone.label(), "NOT DONE");
    assert_eq!(ActivityStatus::Complete.label(), "COMPLETE");
}
