//! The activity window: which widget has focus, what the timer input is for,
//! and what each key does to the store.
use crate::clock::Timestamp;
use crate::keys::{
    act, carry_on, edit, next_index, step_down, step_up, switch_for, window_switch, Key, KeyOutcome,
    TextEffect, WindowActionResult,
};
use crate::model::StateModel;
use crate::recommend::{find_recommended_action_at, recommendation, Recommendation};
use crate::state::{ActivityId, State};
use vstd::prelude::*;

verus! {

/// The widgets of the window, in the order `Tab` visits them.
#[derive(Clone, Copy, Debug, PartialEq, Eq, Structural)]
pub enum TrackWindowWidget {
    Activities,
    TextInput,
    TimerInput,
    Ongoing,
}

/// What the number in the timer input will be used for.
#[derive(Clone, Copy, Debug, PartialEq, Eq, Structural)]
pub enum TimerInputPurpose {
    /// The target of the activity being added.
    NewActivity,
    /// The achieved minutes of this activity.
    OverwriteActivity(ActivityId),
    /// Minutes to add to this activity.
    RegisterActivity(ActivityId),
    /// The new target of this activity.
    ChangeTarget(ActivityId),
    /// The length of a pomodoro session of the recommended activity.
    StartPomodoro,
}

/// A timer purpose, with the activity as its id number.
pub enum PurposeModel {
    NewActivity,
    OverwriteActivity(nat),
    RegisterActivity(nat),
    ChangeTarget(nat),
    StartPomodoro,
}

impl View for TimerInputPurpose {
    type V = PurposeModel;

    open spec fn view(&self) -> PurposeModel {
        match self {
            TimerInputPurpose::NewActivity => PurposeModel::NewActivity,
            TimerInputPurpose::OverwriteActivity(id) => PurposeModel::OverwriteActivity(id@),
            TimerInputPurpose::RegisterActivity(id) => PurposeModel::RegisterActivity(id@),
            TimerInputPurpose::ChangeTarget(id) => PurposeModel::ChangeTarget(id@),
            TimerInputPurpose::StartPomodoro => PurposeModel::StartPomodoro,
        }
    }
}

/// The window, as values.
pub struct TrackView {
    pub focus: TrackWindowWidget,
    pub timer_input: nat,
    pub purpose: PurposeModel,
    pub selected: nat,
}

/// The activity window's state; the text being typed lives with the caller.
#[derive(Debug)]
pub struct TrackWindow {
    focused_widget: TrackWindowWidget,
    timer_input: usize,
    timer_input_purpose: TimerInputPurpose,
    selected_activity: usize,
}

impl View for TrackWindow {
    type V = TrackView;

    closed spec fn view(&self) -> TrackView {
        TrackView {
            focus: self.focused_widget,
            timer_input: self.timer_input as nat,
            purpose: self.timer_input_purpose@,
            selected: self.selected_activity as nat,
        }
    }
}

/// The widget after `f` in `Tab` order.
pub open spec fn next_focus(f: TrackWindowWidget) -> TrackWindowWidget {
    match f {
        TrackWindowWidget::Activities => TrackWindowWidget::TextInput,
        TrackWindowWidget::TextInput => TrackWindowWidget::TimerInput,
        TrackWindowWidget::TimerInput => TrackWindowWidget::Ongoing,
        TrackWindowWidget::Ongoing => TrackWindowWidget::Activities,
    }
}

/// The id of the activity at position `selected`, if there is one.
pub open spec fn selected_id(s: StateModel, selected: nat) -> Option<nat> {
    if selected < s.activities.len() {
        Some(s.activities[selected as int].id)
    } else {
        None
    }
}

/// The session length offered for a recommended activity: what is left of
/// its target, at most 30 minutes.
pub open spec fn offered_minutes(s: StateModel, i: int) -> nat {
    let a = s.activities[i];
    let left: nat = if a.achieved < a.target { (a.target - a.achieved) as nat } else { 0 };
    if left < 30 { left } else { 30 }
}

/// `Enter` in the timer input: the number is used as its purpose says, and
/// focus returns to the activities.
pub open spec fn commit(w: TrackView, s: StateModel, text: Seq<char>, now: Timestamp) -> (TrackView, StateModel, KeyOutcome) {
    let done = TrackView { focus: TrackWindowWidget::Activities, purpose: PurposeModel::NewActivity, ..w };
    match w.purpose {
        PurposeModel::NewActivity => if text.len() == 0 {
            (TrackView { focus: TrackWindowWidget::TextInput, ..w }, s, carry_on())
        } else if s.next_id < usize::MAX {
            (done, s.add_activity(text, w.timer_input).0, edit(TextEffect::Clear))
        } else {
            (w, s, carry_on())
        },
        PurposeModel::OverwriteActivity(id) => (done, s.overwrite_time(id, w.timer_input).0, carry_on()),
        PurposeModel::RegisterActivity(id) => (done, s.add_time(id, w.timer_input).0, carry_on()),
        PurposeModel::ChangeTarget(id) => (done, s.change_target(id, w.timer_input).0, carry_on()),
        PurposeModel::StartPomodoro => (
            done,
            match recommendation(s, now) {
                Recommendation::Activity(i) => s.start_activity_pomo(s.activities[i].id, Some(w.timer_input), now).0,
                _ => s,
            },
            carry_on(),
        ),
    }
}

/// What one key does at instant `now` to the window, the store, and the text
/// buffer (holding `text`).
pub open spec fn track_step(w: TrackView, s: StateModel, key: Key, text: Seq<char>, now: Timestamp) -> (TrackView, StateModel, KeyOutcome) {
    let f = w.focus;
    let sel = selected_id(s, w.selected);
    if key == Key::Tab {
        let nf = next_focus(f);
        (
            TrackView {
                focus: nf,
                purpose: if nf == TrackWindowWidget::Activities { PurposeModel::NewActivity } else { w.purpose },
                ..w
            },
            s,
            carry_on(),
        )
    } else if key == Key::Enter && f == TrackWindowWidget::TextInput {
        if text.len() > 0 {
            (TrackView { focus: TrackWindowWidget::TimerInput, purpose: PurposeModel::NewActivity, ..w }, s, carry_on())
        } else {
            (w, s, carry_on())
        }
    } else if key == Key::Enter && f == TrackWindowWidget::TimerInput {
        commit(w, s, text, now)
    } else if key == Key::Char('q') && f != TrackWindowWidget::TextInput {
        (w, s, act(WindowActionResult::Exit))
    } else if key == Key::Down && f == TrackWindowWidget::Activities {
        (TrackView { selected: step_down(w.selected as int, s.activities.len() as int) as nat, ..w }, s, carry_on())
    } else if key == Key::Down && f == TrackWindowWidget::TimerInput {
        (TrackView { timer_input: step_up(w.timer_input as int) as nat, ..w }, s, carry_on())
    } else if key == Key::Up && f == TrackWindowWidget::Activities {
        (TrackView { selected: step_up(w.selected as int) as nat, ..w }, s, carry_on())
    } else if key == Key::Up && f == TrackWindowWidget::TimerInput {
        (
            TrackView { timer_input: if w.timer_input < usize::MAX { w.timer_input + 1 } else { w.timer_input }, ..w },
            s,
            carry_on(),
        )
    } else if key == Key::Char(' ') && f == TrackWindowWidget::Activities {
        if s.current is Some {
            (w, s.end_activity(false, now).0, carry_on())
        } else {
            match sel {
                Some(id) => (w, s.start_activity_pomo(id, None, now).0, carry_on()),
                None => (w, s, carry_on()),
            }
        }
    } else if key == Key::Backspace && f == TrackWindowWidget::Activities {
        match sel {
            Some(id) => {
                let t = s.delete(id).0;
                let last = if t.activities.len() > 0 { (t.activities.len() - 1) as nat } else { 0 };
                (TrackView { selected: if w.selected < last { w.selected } else { last }, ..w }, t, carry_on())
            },
            None => (w, s, carry_on()),
        }
    } else if key == Key::Backspace && f == TrackWindowWidget::TimerInput {
        (TrackView { timer_input: 0, ..w }, s, carry_on())
    } else if key == Key::Backspace && f == TrackWindowWidget::Ongoing {
        if s.current matches Some(c) && c.pomo is Some {
            (w, s.end_activity(true, now).0, carry_on())
        } else {
            (w, s, carry_on())
        }
    } else if window_switch(key) is Some && f != TrackWindowWidget::TextInput {
        (w, s, act(window_switch(key).unwrap()))
    } else if (key == Key::Char('r') || key == Key::Char('o') || key == Key::Char('c'))
        && f == TrackWindowWidget::Activities {
        match sel {
            Some(id) => (
                TrackView {
                    focus: TrackWindowWidget::TimerInput,
                    purpose: if key == Key::Char('r') {
                        PurposeModel::RegisterActivity(id)
                    } else if key == Key::Char('o') {
                        PurposeModel::OverwriteActivity(id)
                    } else {
                        PurposeModel::ChangeTarget(id)
                    },
                    ..w
                },
                s,
                carry_on(),
            ),
            None => (w, s, carry_on()),
        }
    } else if key == Key::Char('p') && (f == TrackWindowWidget::Activities || f == TrackWindowWidget::Ongoing) {
        match recommendation(s, now) {
            Recommendation::Activity(i) => (
                TrackView {
                    focus: TrackWindowWidget::TimerInput,
                    timer_input: offered_minutes(s, i),
                    purpose: PurposeModel::StartPomodoro,
                    ..w
                },
                s,
                carry_on(),
            ),
            _ => (w, s, carry_on()),
        }
    } else if f == TrackWindowWidget::TextInput {
        (w, s, edit(TextEffect::Forward))
    } else {
        (w, s, carry_on())
    }
}

impl TrackWindow {
    /// Focus on the activities, a 60-minute timer for a new activity, the
    /// first activity selected.
    pub fn new() -> (r: TrackWindow)
        ensures
            r@ == (TrackView {
                focus: TrackWindowWidget::Activities,
                timer_input: 60,
                purpose: PurposeModel::NewActivity,
                selected: 0,
            }),
    {
        TrackWindow {
            focused_widget: TrackWindowWidget::Activities,
            timer_input_purpose: TimerInputPurpose::NewActivity,
            timer_input: 60,
            selected_activity: 0,
        }
    }

    pub fn focused_widget(&self) -> (r: TrackWindowWidget)
        ensures
            r == self@.focus,
    {
        self.focused_widget
    }

    pub fn timer_input(&self) -> (r: usize)
        ensures
            r as nat == self@.timer_input,
    {
        self.timer_input
    }

    pub fn timer_input_purpose(&self) -> (r: TimerInputPurpose)
        ensures
            r@ == self@.purpose,
    {
        self.timer_input_purpose
    }

    pub fn selected_activity(&self) -> (r: usize)
        ensures
            r as nat == self@.selected,
    {
        self.selected_activity
    }

    /// Handles one key now; see `handle_event_at`.
    pub fn handle_event(&mut self, state: &mut State, key: Key, text: &str) -> (r: KeyOutcome)
        requires
            old(state)@.wf(),
        ensures
            final(state)@.wf(),
            exists|now: Timestamp| (final(self)@, final(state)@, r) == track_step(old(self)@, old(state)@, key, text@, now),
    {
        let now = crate::clock::now();
        self.handle_event_at(state, key, text, now)
    }

    /// Handles one key at instant `now`; `text` is what the text input holds.
    pub fn handle_event_at(&mut self, state: &mut State, key: Key, text: &str, now: Timestamp) -> (r: KeyOutcome)
        requires
            old(state)@.wf(),
        ensures
            final(state)@.wf(),
            (final(self)@, final(state)@, r) == track_step(old(self)@, old(state)@, key, text@, now),
    {
        let keep = KeyOutcome { action: WindowActionResult::Continue, text: TextEffect::Keep };
        let f = self.focused_widget;
        if key == Key::Tab {
            self.focused_widget = match f {
                TrackWindowWidget::Activities => TrackWindowWidget::TextInput,
                TrackWindowWidget::TextInput => TrackWindowWidget::TimerInput,
                TrackWindowWidget::TimerInput => TrackWindowWidget::Ongoing,
                TrackWindowWidget::Ongoing => TrackWindowWidget::Activities,
            };
            if self.focused_widget == TrackWindowWidget::Activities {
                self.timer_input_purpose = TimerInputPurpose::NewActivity;
            }
            keep
        } else if key == Key::Enter && f == TrackWindowWidget::TextInput {
            if !text.is_empty() {
                self.timer_input_purpose = TimerInputPurpose::NewActivity;
                self.focused_widget = TrackWindowWidget::TimerInput;
            }
            keep
        } else if key == Key::Enter && f == TrackWindowWidget::TimerInput {
            self.commit(state, text, now)
        } else if key == Key::Char('q') && f != TrackWindowWidget::TextInput {
            KeyOutcome { action: WindowActionResult::Exit, text: TextEffect::Keep }
        } else if key == Key::Down && f == TrackWindowWidget::Activities {
            self.selected_activity = next_index(self.selected_activity, state.activities_count());
            keep
        } else if key == Key::Down && f == TrackWindowWidget::TimerInput {
            self.timer_input = self.timer_input.saturating_sub(1);
            keep
        } else if key == Key::Up && f == TrackWindowWidget::Activities {
            self.selected_activity = self.selected_activity.saturating_sub(1);
            keep
        } else if key == Key::Up && f == TrackWindowWidget::TimerInput {
            self.timer_input = self.timer_input.saturating_add(1);
            keep
        } else if key == Key::Char(' ') && f == TrackWindowWidget::Activities {
            if state.current_id().is_some() {
                let _ = state.end_activity_at(false, now);
            } else if let Some(id) = self.selected_activity_id(state) {
                let _ = state.start_activity_pomo_at(id, None, now);
            }
            keep
        } else if key == Key::Backspace && f == TrackWindowWidget::Activities {
            if let Some(id) = self.selected_activity_id(state) {
                let _ = state.delete(id);
                let last = state.activities_count().saturating_sub(1);
                if self.selected_activity >= last {
                    self.selected_activity = last;
                }
            }
            keep
        } else if key == Key::Backspace && f == TrackWindowWidget::TimerInput {
            self.timer_input = 0;
            keep
        } else if key == Key::Backspace && f == TrackWindowWidget::Ongoing {
            if state.pomo_minutes().is_some() {
                let _ = state.end_activity_at(true, now);
            }
            keep
        } else if switch_for(key).is_some() && f != TrackWindowWidget::TextInput {
            KeyOutcome { action: switch_for(key).unwrap(), text: TextEffect::Keep }
        } else if (key == Key::Char('r') || key == Key::Char('o') || key == Key::Char('c'))
            && f == TrackWindowWidget::Activities {
            if let Some(id) = self.selected_activity_id(state) {
                self.timer_input_purpose = if key == Key::Char('r') {
                    TimerInputPurpose::RegisterActivity(id)
                } else if key == Key::Char('o') {
                    TimerInputPurpose::OverwriteActivity(id)
                } else {
                    TimerInputPurpose::ChangeTarget(id)
                };
                self.focused_widget = TrackWindowWidget::TimerInput;
            }
            keep
        } else if key == Key::Char('p') && (f == TrackWindowWidget::Activities || f == TrackWindowWidget::Ongoing) {
            if let Ok(activity) = find_recommended_action_at(state, now) {
                let left = activity.target_minutes().saturating_sub(activity.acheived_minutes());
                self.focused_widget = TrackWindowWidget::TimerInput;
                self.timer_input = if left < 30 { left } else { 30 };
                self.timer_input_purpose = TimerInputPurpose::StartPomodoro;
            }
            keep
        } else if f == TrackWindowWidget::TextInput {
            KeyOutcome { action: WindowActionResult::Continue, text: TextEffect::Forward }
        } else {
            keep
        }
    }

    /// `Enter` in the timer input (see `commit`).
    fn commit(&mut self, state: &mut State, text: &str, now: Timestamp) -> (r: KeyOutcome)
        requires
            old(state)@.wf(),
            old(self)@.focus == TrackWindowWidget::TimerInput,
        ensures
            final(state)@.wf(),
            (final(self)@, final(state)@, r) == commit(old(self)@, old(state)@, text@, now),
    {
        let keep = KeyOutcome { action: WindowActionResult::Continue, text: TextEffect::Keep };
        match self.timer_input_purpose {
            TimerInputPurpose::NewActivity => {
                if text.is_empty() {
                    self.focused_widget = TrackWindowWidget::TextInput;
                    keep
                } else if state.next_activity_id() < usize::MAX {
                    let _ = state.add_activity(text.to_owned(), self.timer_input);
                    self.focused_widget = TrackWindowWidget::Activities;
                    KeyOutcome { action: WindowActionResult::Continue, text: TextEffect::Clear }
                } else {
                    keep
                }
            },
            TimerInputPurpose::OverwriteActivity(id) => {
                let _ = state.overwrite_time(id, self.timer_input);
                self.focused_widget = TrackWindowWidget::Activities;
                self.timer_input_purpose = TimerInputPurpose::NewActivity;
                keep
            },
            TimerInputPurpose::RegisterActivity(id) => {
                let _ = state.add_time(id, self.timer_input);
                self.focused_widget = TrackWindowWidget::Activities;
                self.timer_input_purpose = TimerInputPurpose::NewActivity;
                keep
            },
            TimerInputPurpose::ChangeTarget(id) => {
                let _ = state.change_target(id, self.timer_input);
                self.focused_widget = TrackWindowWidget::Activities;
                self.timer_input_purpose = TimerInputPurpose::NewActivity;
                keep
            },
            TimerInputPurpose::StartPomodoro => {
                let chosen = match find_recommended_action_at(state, now) {
                    Ok(activity) => Some(activity.id()),
                    Err(_) => None,
                };
                if let Some(id) = chosen {
                    let _ = state.start_activity_pomo_at(id, Some(self.timer_input), now);
                }
                self.focused_widget = TrackWindowWidget::Activities;
                self.timer_input_purpose = TimerInputPurpose::NewActivity;
                keep
            },
        }
    }

    /// The id of the selected activity, if the selection holds one.
    pub fn selected_activity_id(&self, state: &State) -> (r: Option<ActivityId>)
        ensures
            match r {
                Some(id) => selected_id(state@, self@.selected) == Some(id@),
                None => selected_id(state@, self@.selected) is None,
            },
    {
        let activities = state.activities();
        if self.selected_activity < activities.len() {
            Some(activities[self.selected_activity].id())
        } else {
            None
        }
    }

    /// The name of the selected activity, if the selection holds one.
    pub fn selected_activity_name<'a>(&self, state: &'a State) -> (r: Option<&'a str>)
        ensures
            match r {
                Some(n) => self@.selected < state@.activities.len() && n@ == state@.activities[self@.selected as int].name,
                None => self@.selected >= state@.activities.len(),
            },
    {
        let activities = state.activities();
        if self.selected_activity < activities.len() {
            Some(activities[self.selected_activity].name())
        } else {
            None
        }
    }
}

} // verus!
