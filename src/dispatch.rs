//! The application's own decisions around the windows: which window is
//! active, when an exit request is honoured, and the pomodoro expiry check
//! that runs on every tick.
use crate::clock::Timestamp;
use crate::keys::WindowActionResult;
use crate::model::StateModel;
use crate::state::{PomodoroFinished, State};
use vstd::prelude::*;

verus! {

/// The windows, addressed by the digit keys 1 to 3.
#[derive(Clone, Copy, Debug, PartialEq, Eq, Structural)]
pub enum AppWindow {
    Track,
    Todo,
    Help,
}

/// The active window and whether the application is to stop.
#[derive(Clone, Copy, Debug, PartialEq, Eq, Structural)]
pub struct App {
    pub current_window: AppWindow,
    pub exit: bool,
}

/// The application after a window's request: an exit is honoured only while
/// no pomodoro session runs; a switch activates the window it names.
pub open spec fn after_result(app: App, s: StateModel, result: WindowActionResult) -> App {
    match result {
        WindowActionResult::Continue => app,
        WindowActionResult::Exit => App {
            exit: app.exit || !(s.current matches Some(c) && c.pomo is Some),
            ..app
        },
        WindowActionResult::FirstWindow => App { current_window: AppWindow::Track, ..app },
        WindowActionResult::SecondWindow => App { current_window: AppWindow::Todo, ..app },
        WindowActionResult::ThirdWindow => App { current_window: AppWindow::Help, ..app },
    }
}

impl App {
    /// The activity window active, running.
    pub fn new() -> (r: App)
        ensures
            r == (App { current_window: AppWindow::Track, exit: false }),
    {
        App { current_window: AppWindow::Track, exit: false }
    }

    /// Acts on a window's request (see `after_result`).
    pub fn handle_window_result(&mut self, state: &State, result: WindowActionResult)
        ensures
            *final(self) == after_result(*old(self), state@, result),
    {
        match result {
            WindowActionResult::Continue => {},
            WindowActionResult::Exit => {
                if state.pomo_minutes().is_none() {
                    self.exit = true;
                }
            },
            WindowActionResult::FirstWindow => self.current_window = AppWindow::Track,
            WindowActionResult::SecondWindow => self.current_window = AppWindow::Todo,
            WindowActionResult::ThirdWindow => self.current_window = AppWindow::Help,
        }
    }

    /// One tick at instant `now`: the window's request, if a key arrived, is
    /// acted on, then a pomodoro session that ran its course is ended and
    /// reported.
    pub fn tick_at(&mut self, state: &mut State, result: Option<WindowActionResult>, now: Timestamp) -> (r: Option<PomodoroFinished>)
        requires
            old(state)@.wf(),
        ensures
            final(state)@.wf(),
            *final(self) == match result {
                Some(res) => after_result(*old(self), old(state)@, res),
                None => *old(self),
            },
            final(state)@ == old(state)@.check_pomodoro_expiry(now).0,
            match r {
                Some(p) => old(state)@.check_pomodoro_expiry(now).1 == Some((p.activity_id@, p.pomo_minutes as nat)),
                None => old(state)@.check_pomodoro_expiry(now).1 is None,
            },
    {
        if let Some(res) = result {
            self.handle_window_result(state, res);
        }
        state.check_pomodoro_expiry_at(now)
    }

    /// One tick now; see `tick_at`.
    pub fn tick(&mut self, state: &mut State, result: Option<WindowActionResult>) -> (r: Option<PomodoroFinished>)
        requires
            old(state)@.wf(),
        ensures
            final(state)@.wf(),
            *final(self) == match result {
                Some(res) => after_result(*old(self), old(state)@, res),
                None => *old(self),
            },
            exists|now: Timestamp| {
                &&& final(state)@ == old(state)@.check_pomodoro_expiry(now).0
                &&& match r {
                    Some(p) => old(state)@.check_pomodoro_expiry(now).1 == Some((p.activity_id@, p.pomo_minutes as nat)),
                    None => old(state)@.check_pomodoro_expiry(now).1 is None,
                }
            },
    {
        let now = crate::clock::now();
        self.tick_at(state, result, now)
    }
}

} // verus!
