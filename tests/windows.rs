use timetrack::clock::{Date, Timestamp};
use timetrack::dispatch::{App, AppWindow};
use timetrack::keys::{help_handle_key, Key, TextEffect, WindowActionResult};
use timetrack::state::{Bucket, State, TodoItem};
use timetrack::todo::{BucketWidgetPurpose, TodoWidget, TodoWindow};
use timetrack::track::{TimerInputPurpose, TrackWindow, TrackWindowWidget};

const DAY: Date = Date { days_from_ce: 739_000 };

fn at_minute(m: i64) -> Timestamp {
    Timestamp { millis: 1_700_000_000_000 + m * 60_000 }
}

fn texts(bucket: &Bucket) -> Vec<String> {
    bucket.todos().iter().map(|t| t.item().to_string()).collect()
}

#[test]
fn track_tab_cycles_focus() {
    let mut s = State::new(DAY);
    let mut w = TrackWindow::new();
    let order = [
        TrackWindowWidget::TextInput,
        TrackWindowWidget::TimerInput,
        TrackWindowWidget::Ongoing,
        TrackWindowWidget::Activities,
    ];
    for f in order {
        w.handle_event_at(&mut s, Key::Tab, "", at_minute(0));
        assert_eq!(w.focused_widget(), f);
    }
}

#[test]
fn track_adds_activity_from_text_and_timer() {
    let mut s = State::new(DAY);
    let mut w = TrackWindow::new();
    w.handle_event_at(&mut s, Key::Tab, "", at_minute(0));
    let out = w.handle_event_at(&mut s, Key::Char('x'), "", at_minute(0));
    assert_eq!(out.text, TextEffect::Forward);
    let out = w.handle_event_at(&mut s, Key::Enter, "", at_minute(0));
    assert_eq!(out.text, TextEffect::Keep);
    assert_eq!(w.focused_widget(), TrackWindowWidget::TextInput);
    w.handle_event_at(&mut s, Key::Enter, "Read", at_minute(0));
    assert_eq!(w.focused_widget(), TrackWindowWidget::TimerInput);
    w.handle_event_at(&mut s, Key::Up, "Read", at_minute(0));
    w.handle_event_at(&mut s, Key::Up, "Read", at_minute(0));
    w.handle_event_at(&mut s, Key::Down, "Read", at_minute(0));
    assert_eq!(w.timer_input(), 61);
    let out = w.handle_event_at(&mut s, Key::Enter, "Read", at_minute(0));
    assert_eq!(out.text, TextEffect::Clear);
    assert_eq!(w.focused_widget(), TrackWindowWidget::Activities);
    assert_eq!(s.activities_count(), 1);
    assert_eq!(s.activities()[0].name(), "Read");
    assert_eq!(s.activities()[0].target_minutes(), 61);
}

#[test]
fn track_timer_backspace_and_floor() {
    let mut s = State::new(DAY);
    let mut w = TrackWindow::new();
    w.handle_event_at(&mut s, Key::Tab, "", at_minute(0));
    w.handle_event_at(&mut s, Key::Tab, "", at_minute(0));
    w.handle_event_at(&mut s, Key::Backspace, "", at_minute(0));
    assert_eq!(w.timer_input(), 0);
    w.handle_event_at(&mut s, Key::Down, "", at_minute(0));
    assert_eq!(w.timer_input(), 0);
}

#[test]
fn track_space_toggles_session_and_q_exits() {
    let mut s = State::new(DAY);
    let a = s.add_activity("A".to_string(), 60);
    let mut w = TrackWindow::new();
    w.handle_event_at(&mut s, Key::Char(' '), "", at_minute(0));
    assert_eq!(s.current_id(), Some(a));
    w.handle_event_at(&mut s, Key::Char(' '), "", at_minute(7));
    assert!(s.current_id().is_none());
    assert_eq!(s.activities()[0].acheived_minutes(), 7);
    let out = w.handle_event_at(&mut s, Key::Char('q'), "", at_minute(7));
    assert_eq!(out.action, WindowActionResult::Exit);
    let out = w.handle_event_at(&mut s, Key::Char('2'), "", at_minute(7));
    assert_eq!(out.action, WindowActionResult::SecondWindow);
}

#[test]
fn track_register_binds_selected_activity() {
    let mut s = State::new(DAY);
    s.add_activity("A".to_string(), 60);
    let b = s.add_activity("B".to_string(), 60);
    let mut w = TrackWindow::new();
    w.handle_event_at(&mut s, Key::Down, "", at_minute(0));
    w.handle_event_at(&mut s, Key::Down, "", at_minute(0));
    assert_eq!(w.selected_activity(), 1);
    w.handle_event_at(&mut s, Key::Char('r'), "", at_minute(0));
    assert_eq!(w.timer_input_purpose(), TimerInputPurpose::RegisterActivity(b));
    w.handle_event_at(&mut s, Key::Enter, "", at_minute(0));
    assert_eq!(s.activities()[1].acheived_minutes(), 60);
    assert_eq!(s.activities()[0].acheived_minutes(), 0);
    assert_eq!(w.timer_input_purpose(), TimerInputPurpose::NewActivity);
    assert_eq!(w.focused_widget(), TrackWindowWidget::Activities);
}

#[test]
fn track_pomodoro_offer_and_start() {
    let mut s = State::new(DAY);
    let a = s.add_activity("A".to_string(), 60);
    let b = s.add_activity("B".to_string(), 20);
    s.overwrite_time(a, 40).unwrap();
    s.overwrite_time(b, 5).unwrap();
    let mut w = TrackWindow::new();
    w.handle_event_at(&mut s, Key::Char('p'), "", at_minute(0));
    assert_eq!(w.focused_widget(), TrackWindowWidget::TimerInput);
    assert_eq!(w.timer_input(), 15);
    assert_eq!(w.timer_input_purpose(), TimerInputPurpose::StartPomodoro);
    w.handle_event_at(&mut s, Key::Enter, "", at_minute(0));
    assert_eq!(s.current_id(), Some(b));
    assert_eq!(s.pomo_minutes(), Some(15));
    w.handle_event_at(&mut s, Key::Tab, "", at_minute(1));
    w.handle_event_at(&mut s, Key::Tab, "", at_minute(1));
    w.handle_event_at(&mut s, Key::Tab, "", at_minute(1));
    assert_eq!(w.focused_widget(), TrackWindowWidget::Ongoing);
    w.handle_event_at(&mut s, Key::Backspace, "", at_minute(3));
    assert!(s.current_id().is_none());
    assert_eq!(s.activities()[1].acheived_minutes(), 8);
}

#[test]
fn track_pomodoro_offer_is_capped_at_thirty() {
    let mut s = State::new(DAY);
    s.add_activity("A".to_string(), 120);
    let mut w = TrackWindow::new();
    w.handle_event_at(&mut s, Key::Char('p'), "", at_minute(0));
    assert_eq!(w.timer_input(), 30);
}

#[test]
fn track_backspace_deletes_selected() {
    let mut s = State::new(DAY);
    s.add_activity("A".to_string(), 60);
    s.add_activity("B".to_string(), 60);
    let mut w = TrackWindow::new();
    w.handle_event_at(&mut s, Key::Down, "", at_minute(0));
    w.handle_event_at(&mut s, Key::Backspace, "", at_minute(0));
    assert_eq!(s.activities_count(), 1);
    assert_eq!(w.selected_activity(), 0);
    assert_eq!(w.selected_activity_name(&s), Some("A"));
}

#[test]
fn todo_input_adds_todo_and_bucket() {
    let mut s = State::new(DAY);
    let mut w = TodoWindow::new();
    w.handle_event(&mut s, Key::Tab, "");
    assert_eq!(w.focused_widget(), TodoWidget::TodoInput);
    let out = w.handle_event(&mut s, Key::Char('q'), "");
    assert_eq!(out.text, TextEffect::Forward);
    assert_eq!(out.action, WindowActionResult::Continue);
    let out = w.handle_event(&mut s, Key::Enter, "buy milk");
    assert_eq!(out.text, TextEffect::Clear);
    assert_eq!(texts(&s.get_buckets()[0]), vec!["buy milk"]);
    w.handle_event(&mut s, Key::Tab, "");
    w.handle_event(&mut s, Key::Tab, "");
    assert_eq!(w.focused_widget(), TodoWidget::BucketInput);
    w.handle_event(&mut s, Key::Enter, "Work");
    assert_eq!(s.get_buckets().len(), 2);
    assert_eq!(s.get_buckets()[1].name(), "Work");
}

#[test]
fn todo_move_gesture() {
    let mut s = State::new(DAY);
    s.add_todo(0, TodoItem::new("a".to_string()));
    s.add_todo(0, TodoItem::new("b".to_string()));
    s.create_bucket(Bucket::new("Work".to_string(), vec![]));
    let mut w = TodoWindow::new();
    w.handle_event(&mut s, Key::Down, "");
    assert_eq!(w.selected_todo(), 1);
    w.handle_event(&mut s, Key::Char(' '), "");
    assert_eq!(w.focused_widget(), TodoWidget::Buckets);
    assert_eq!(w.bucket_widget_purpose(), BucketWidgetPurpose::Move { selected_bucket: 0, selected_todo: 1 });
    w.handle_event(&mut s, Key::Tab, "");
    assert_eq!(w.focused_widget(), TodoWidget::Buckets);
    w.handle_event(&mut s, Key::Down, "");
    w.handle_event(&mut s, Key::Char(' '), "");
    assert_eq!(w.focused_widget(), TodoWidget::Todos);
    assert_eq!(w.bucket_widget_purpose(), BucketWidgetPurpose::Browse);
    assert_eq!(texts(&s.get_buckets()[0]), vec!["a"]);
    assert_eq!(texts(&s.get_buckets()[1]), vec!["b"]);
}

#[test]
fn todo_reorder_and_delete() {
    let mut s = State::new(DAY);
    for t in ["a", "b", "c"] {
        s.add_todo(0, TodoItem::new(t.to_string()));
    }
    let mut w = TodoWindow::new();
    w.handle_event(&mut s, Key::Right, "");
    assert_eq!(texts(&s.get_buckets()[0]), vec!["b", "a", "c"]);
    assert_eq!(w.selected_todo(), 1);
    w.handle_event(&mut s, Key::Left, "");
    assert_eq!(texts(&s.get_buckets()[0]), vec!["a", "b", "c"]);
    assert_eq!(w.selected_todo(), 0);
    w.handle_event(&mut s, Key::Down, "");
    w.handle_event(&mut s, Key::Down, "");
    w.handle_event(&mut s, Key::Down, "");
    assert_eq!(w.selected_todo(), 2);
    w.handle_event(&mut s, Key::Enter, "");
    assert_eq!(texts(&s.get_buckets()[0]), vec!["a", "b"]);
    assert_eq!(w.selected_todo(), 1);
    assert_eq!(w.get_selected_todo(&s).map(|t| t.item().to_string()), Some("b".to_string()));
}

#[test]
fn todo_bucket_browse_reorders_and_deletes() {
    let mut s = State::new(DAY);
    s.create_bucket(Bucket::new("Work".to_string(), vec![]));
    let mut w = TodoWindow::new();
    w.handle_event(&mut s, Key::Tab, "");
    w.handle_event(&mut s, Key::Tab, "");
    w.handle_event(&mut s, Key::Right, "");
    assert_eq!(s.get_buckets()[1].name(), "N/A");
    assert_eq!(w.selected_bucket(), 1);
    w.handle_event(&mut s, Key::Enter, "");
    assert_eq!(s.get_buckets().len(), 2);
    w.handle_event(&mut s, Key::Up, "");
    w.handle_event(&mut s, Key::Enter, "");
    assert_eq!(s.get_buckets().len(), 1);
    assert_eq!(w.selected_bucket(), 0);
    let out = w.handle_event(&mut s, Key::Char('q'), "");
    assert_eq!(out.action, WindowActionResult::Exit);
}

#[test]
fn help_keys() {
    assert_eq!(help_handle_key(Key::Char('1')), WindowActionResult::FirstWindow);
    assert_eq!(help_handle_key(Key::Char('3')), WindowActionResult::ThirdWindow);
    assert_eq!(help_handle_key(Key::Char('q')), WindowActionResult::Exit);
    assert_eq!(help_handle_key(Key::Enter), WindowActionResult::Continue);
}

#[test]
fn exit_is_held_during_pomodoro() {
    let mut s = State::new(DAY);
    let a = s.add_activity("A".to_string(), 60);
    let mut app = App::new();
    app.handle_window_result(&s, WindowActionResult::SecondWindow);
    assert_eq!(app.current_window, AppWindow::Todo);
    s.start_activity_pomo_at(a, Some(25), at_minute(0)).unwrap();
    app.handle_window_result(&s, WindowActionResult::Exit);
    assert!(!app.exit);
    let done = app.tick_at(&mut s, None, at_minute(30));
    assert_eq!(done.map(|p| p.activity_id), Some(a));
    app.handle_window_result(&s, WindowActionResult::Exit);
    assert!(app.exit);
}

#[test]
fn track_space_ends_any_current_session() {
    let mut s = State::new(DAY);
    let a = s.add_activity("A".to_string(), 60);
    let b = s.add_activity("B".to_string(), 60);
    s.start_activity_pomo_at(b, None, at_minute(0)).unwrap();
    let mut w = TrackWindow::new();
    assert_eq!(w.selected_activity(), 0);
    w.handle_event_at(&mut s, Key::Char(' '), "", at_minute(9));
    assert!(s.current_id().is_none());
    assert_eq!(s.activities()[1].acheived_minutes(), 9);
    assert_eq!(s.activities()[0].acheived_minutes(), 0);
    w.handle_event_at(&mut s, Key::Char(' '), "", at_minute(10));
    assert_eq!(s.current_id(), Some(a));
}

#[test]
fn track_space_keeps_pomodoro_session() {
    let mut s = State::new(DAY);
    s.add_activity("A".to_string(), 60);
    let b = s.add_activity("B".to_string(), 60);
    s.start_activity_pomo_at(b, Some(25), at_minute(0)).unwrap();
    let mut w = TrackWindow::new();
    w.handle_event_at(&mut s, Key::Char(' '), "", at_minute(9));
    assert_eq!(s.current_id(), Some(b));
    assert_eq!(s.activities()[1].acheived_minutes(), 0);
}
