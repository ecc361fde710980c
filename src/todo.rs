//! The todo window: focus, the pending move of a todo to another bucket, and
//! what each key does to the buckets.
use crate::keys::{
    act, carry_on, edit, next_index, step_down, step_up, switch_for, window_switch, Key, KeyOutcome,
    TextEffect, WindowActionResult,
};
use crate::model::{empty_bucket, StateModel};
use crate::state::{Bucket, State, TodoItem};
use vstd::prelude::*;

verus! {

/// The widgets of the window, in the order `Tab` visits them.
#[derive(Clone, Copy, Debug, PartialEq, Eq, Structural)]
pub enum TodoWidget {
    Todos,
    TodoInput,
    Buckets,
    BucketInput,
}

/// What the bucket list is for: browsing, or picking the bucket that a todo
/// moves to.
#[derive(Clone, Copy, Debug, PartialEq, Eq, Structural)]
pub enum BucketWidgetPurpose {
    Browse,
    /// The todo at `selected_todo` of bucket `selected_bucket` is being moved.
    Move { selected_bucket: usize, selected_todo: usize },
}

/// The window, as values.
pub struct TodoView {
    pub focus: TodoWidget,
    pub selected_todo: nat,
    pub selected_bucket: nat,
    pub purpose: BucketWidgetPurpose,
}

/// The todo window's state; the texts being typed live with the caller.
#[derive(Debug)]
pub struct TodoWindow {
    focused_widget: TodoWidget,
    selected_todo: usize,
    selected_bucket: usize,
    bucket_widget_purpose: BucketWidgetPurpose,
}

impl View for TodoWindow {
    type V = TodoView;

    closed spec fn view(&self) -> TodoView {
        TodoView {
            focus: self.focused_widget,
            selected_todo: self.selected_todo as nat,
            selected_bucket: self.selected_bucket as nat,
            purpose: self.bucket_widget_purpose,
        }
    }
}

/// The widget after `f` in `Tab` order.
pub open spec fn next_widget(f: TodoWidget) -> TodoWidget {
    match f {
        TodoWidget::Todos => TodoWidget::TodoInput,
        TodoWidget::TodoInput => TodoWidget::Buckets,
        TodoWidget::Buckets => TodoWidget::BucketInput,
        TodoWidget::BucketInput => TodoWidget::Todos,
    }
}

/// The number of todos in bucket `b` (zero when there is no such bucket).
pub open spec fn bucket_len(s: StateModel, b: int) -> nat {
    if s.valid_bucket(b) {
        s.buckets[b].todos.len()
    } else {
        0
    }
}

/// What one key does to the window, the store, and the text buffer of the
/// focused input (holding `text`).
pub open spec fn todo_step(w: TodoView, s: StateModel, key: Key, text: Seq<char>) -> (TodoView, StateModel, KeyOutcome) {
    let f = w.focus;
    let b = w.selected_bucket as int;
    let sel = w.selected_todo as int;
    let count = bucket_len(s, b) as int;
    let on_list = f == TodoWidget::Todos || f == TodoWidget::Buckets;
    if key == Key::Tab && w.purpose == BucketWidgetPurpose::Browse {
        (TodoView { focus: next_widget(f), ..w }, s, carry_on())
    } else if key == Key::Enter && f == TodoWidget::TodoInput {
        (w, s.add_todo(b, text).0, edit(TextEffect::Clear))
    } else if key == Key::Enter && f == TodoWidget::BucketInput {
        (w, s.create_bucket(empty_bucket(text)).0, edit(TextEffect::Clear))
    } else if key == Key::Enter && f == TodoWidget::Todos {
        if sel < count {
            let t = s.delete_todo(b, sel).0;
            let n = bucket_len(t, b) as int;
            let last = if n > 0 { n - 1 } else { 0 };
            (TodoView { selected_todo: (if sel < last { sel } else { last }) as nat, ..w }, t, carry_on())
        } else {
            (w, s, carry_on())
        }
    } else if key == Key::Enter && f == TodoWidget::Buckets {
        let (t, deleted) = s.delete_bucket(b);
        (if deleted { TodoView { selected_bucket: step_up(b) as nat, ..w } } else { w }, t, carry_on())
    } else if key == Key::Char('q') && on_list {
        (w, s, act(WindowActionResult::Exit))
    } else if key == Key::Down && f == TodoWidget::Todos {
        (TodoView { selected_todo: step_down(sel, count) as nat, ..w }, s, carry_on())
    } else if key == Key::Up && f == TodoWidget::Todos {
        (TodoView { selected_todo: step_up(sel) as nat, ..w }, s, carry_on())
    } else if key == Key::Down && f == TodoWidget::Buckets {
        (
            TodoView { selected_bucket: step_down(b, s.buckets.len() as int) as nat, selected_todo: 0, ..w },
            s,
            carry_on(),
        )
    } else if key == Key::Up && f == TodoWidget::Buckets {
        (TodoView { selected_bucket: step_up(b) as nat, selected_todo: 0, ..w }, s, carry_on())
    } else if key == Key::Left && f == TodoWidget::Todos {
        if sel > 0 && s.swap_todos(b, sel, sel - 1).1 is Ok {
            (TodoView { selected_todo: (sel - 1) as nat, ..w }, s.swap_todos(b, sel, sel - 1).0, carry_on())
        } else {
            (w, s, carry_on())
        }
    } else if key == Key::Right && f == TodoWidget::Todos {
        if count > 1 && sel < count - 1 && s.swap_todos(b, sel, sel + 1).1 is Ok {
            (TodoView { selected_todo: (sel + 1) as nat, ..w }, s.swap_todos(b, sel, sel + 1).0, carry_on())
        } else {
            (w, s, carry_on())
        }
    } else if key == Key::Left && f == TodoWidget::Buckets && w.purpose == BucketWidgetPurpose::Browse {
        if b > 0 && s.change_bucket_index(b, b - 1).1 is Ok {
            (TodoView { selected_bucket: (b - 1) as nat, ..w }, s.change_bucket_index(b, b - 1).0, carry_on())
        } else {
            (w, s, carry_on())
        }
    } else if key == Key::Right && f == TodoWidget::Buckets && w.purpose == BucketWidgetPurpose::Browse {
        if b + 1 < s.buckets.len() && s.change_bucket_index(b, b + 1).1 is Ok {
            (TodoView { selected_bucket: (b + 1) as nat, ..w }, s.change_bucket_index(b, b + 1).0, carry_on())
        } else {
            (w, s, carry_on())
        }
    } else if key == Key::Char(' ') && f == TodoWidget::Todos {
        if sel < count {
            (
                TodoView {
                    focus: TodoWidget::Buckets,
                    purpose: BucketWidgetPurpose::Move {
                        selected_bucket: w.selected_bucket as usize,
                        selected_todo: w.selected_todo as usize,
                    },
                    ..w
                },
                s,
                carry_on(),
            )
        } else {
            (w, s, carry_on())
        }
    } else if key == Key::Char(' ') && f == TodoWidget::Buckets && w.purpose is Move {
        let (ob, ot) = match w.purpose {
            BucketWidgetPurpose::Move { selected_bucket, selected_todo } => (selected_bucket, selected_todo),
            BucketWidgetPurpose::Browse => (0, 0),
        };
        (
            TodoView { purpose: BucketWidgetPurpose::Browse, focus: TodoWidget::Todos, ..w },
            s.move_todo(ob as int, ot as int, b).0,
            carry_on(),
        )
    } else if window_switch(key) is Some && on_list {
        (w, s, act(window_switch(key).unwrap()))
    } else if f == TodoWidget::TodoInput || f == TodoWidget::BucketInput {
        (w, s, edit(TextEffect::Forward))
    } else {
        (w, s, carry_on())
    }
}

impl TodoWindow {
    /// Focus on the todos of the first bucket, browsing.
    pub fn new() -> (r: TodoWindow)
        ensures
            r@ == (TodoView {
                focus: TodoWidget::Todos,
                selected_todo: 0,
                selected_bucket: 0,
                purpose: BucketWidgetPurpose::Browse,
            }),
    {
        TodoWindow {
            focused_widget: TodoWidget::Todos,
            selected_todo: 0,
            selected_bucket: 0,
            bucket_widget_purpose: BucketWidgetPurpose::Browse,
        }
    }

    pub fn focused_widget(&self) -> (r: TodoWidget)
        ensures
            r == self@.focus,
    {
        self.focused_widget
    }

    pub fn selected_todo(&self) -> (r: usize)
        ensures
            r as nat == self@.selected_todo,
    {
        self.selected_todo
    }

    pub fn selected_bucket(&self) -> (r: usize)
        ensures
            r as nat == self@.selected_bucket,
    {
        self.selected_bucket
    }

    pub fn bucket_widget_purpose(&self) -> (r: BucketWidgetPurpose)
        ensures
            r == self@.purpose,
    {
        self.bucket_widget_purpose
    }

    /// The selected bucket, if the selection holds one.
    pub fn get_selected_bucket<'a>(&self, state: &'a State) -> (r: Option<&'a Bucket>)
        ensures
            match r {
                Some(b) => state@.valid_bucket(self@.selected_bucket as int) && b@ == state@.buckets[self@.selected_bucket as int],
                None => !state@.valid_bucket(self@.selected_bucket as int),
            },
    {
        let buckets = state.get_buckets();
        if self.selected_bucket < buckets.len() {
            Some(&buckets[self.selected_bucket])
        } else {
            None
        }
    }

    /// The selected todo, if the selections hold one.
    pub fn get_selected_todo<'a>(&self, state: &'a State) -> (r: Option<&'a TodoItem>)
        ensures
            match r {
                Some(t) => self@.selected_todo < bucket_len(state@, self@.selected_bucket as int)
                    && t@ == state@.buckets[self@.selected_bucket as int].todos[self@.selected_todo as int],
                None => self@.selected_todo >= bucket_len(state@, self@.selected_bucket as int),
            },
    {
        match self.get_selected_bucket(state) {
            Some(b) => {
                let todos = b.todos();
                if self.selected_todo < todos.len() {
                    Some(&todos[self.selected_todo])
                } else {
                    None
                }
            },
            None => None,
        }
    }

    /// The number of todos in the selected bucket.
    fn selected_bucket_len(&self, state: &State) -> (r: usize)
        ensures
            r as nat == bucket_len(state@, self@.selected_bucket as int),
    {
        match self.get_selected_bucket(state) {
            Some(b) => b.todo_count(),
            None => 0,
        }
    }

    /// Handles one key; `text` is what the focused text input holds.
    pub fn handle_event(&mut self, state: &mut State, key: Key, text: &str) -> (r: KeyOutcome)
        requires
            old(state)@.wf(),
        ensures
            final(state)@.wf(),
            (final(self)@, final(state)@, r) == todo_step(old(self)@, old(state)@, key, text@),
    {
        let keep = KeyOutcome { action: WindowActionResult::Continue, text: TextEffect::Keep };
        let f = self.focused_widget;
        let b = self.selected_bucket;
        let sel = self.selected_todo;
        let count = self.selected_bucket_len(state);
        let on_list = f == TodoWidget::Todos || f == TodoWidget::Buckets;
        if key == Key::Tab && self.bucket_widget_purpose == BucketWidgetPurpose::Browse {
            self.focused_widget = match f {
                TodoWidget::Todos => TodoWidget::TodoInput,
                TodoWidget::TodoInput => TodoWidget::Buckets,
                TodoWidget::Buckets => TodoWidget::BucketInput,
                TodoWidget::BucketInput => TodoWidget::Todos,
            };
            keep
        } else if key == Key::Enter && f == TodoWidget::TodoInput {
            let _ = state.add_todo(b, TodoItem::new(text.to_owned()));
            KeyOutcome { action: WindowActionResult::Continue, text: TextEffect::Clear }
        } else if key == Key::Enter && f == TodoWidget::BucketInput {
            let bucket = Bucket::new(text.to_owned(), Vec::new());
            proof {
                assert(bucket@.todos =~= empty_bucket(text@).todos);
            }
            let _ = state.create_bucket(bucket);
            KeyOutcome { action: WindowActionResult::Continue, text: TextEffect::Clear }
        } else if key == Key::Enter && f == TodoWidget::Todos {
            if sel < count {
                let _ = state.delete_todo(b, sel);
                let last = self.selected_bucket_len(state).saturating_sub(1);
                if sel >= last {
                    self.selected_todo = last;
                }
            }
            keep
        } else if key == Key::Enter && f == TodoWidget::Buckets {
            if state.delete_bucket(b) {
                self.selected_bucket = b.saturating_sub(1);
            }
            keep
        } else if key == Key::Char('q') && on_list {
            KeyOutcome { action: WindowActionResult::Exit, text: TextEffect::Keep }
        } else if key == Key::Down && f == TodoWidget::Todos {
            self.selected_todo = next_index(sel, count);
            keep
        } else if key == Key::Up && f == TodoWidget::Todos {
            self.selected_todo = sel.saturating_sub(1);
            keep
        } else if key == Key::Down && f == TodoWidget::Buckets {
            self.selected_bucket = next_index(b, state.get_buckets().len());
            self.selected_todo = 0;
            keep
        } else if key == Key::Up && f == TodoWidget::Buckets {
            self.selected_bucket = b.saturating_sub(1);
            self.selected_todo = 0;
            keep
        } else if key == Key::Left && f == TodoWidget::Todos {
            if sel > 0 {
                if state.swap_todos(b, sel, sel - 1).is_ok() {
                    self.selected_todo = sel - 1;
                }
            }
            keep
        } else if key == Key::Right && f == TodoWidget::Todos {
            if count > 1 && sel < count - 1 {
                if state.swap_todos(b, sel, sel + 1).is_ok() {
                    self.selected_todo = sel + 1;
                }
            }
            keep
        } else if key == Key::Left && f == TodoWidget::Buckets
            && self.bucket_widget_purpose == BucketWidgetPurpose::Browse {
            if b > 0 {
                if state.change_bucket_index(b, b - 1).is_ok() {
                    self.selected_bucket = b - 1;
                }
            }
            keep
        } else if key == Key::Right && f == TodoWidget::Buckets
            && self.bucket_widget_purpose == BucketWidgetPurpose::Browse {
            if b < state.get_buckets().len() - 1 {
                if state.change_bucket_index(b, b + 1).is_ok() {
                    self.selected_bucket = b + 1;
                }
            }
            keep
        } else if key == Key::Char(' ') && f == TodoWidget::Todos {
            if sel < count {
                self.focused_widget = TodoWidget::Buckets;
                self.bucket_widget_purpose = BucketWidgetPurpose::Move { selected_bucket: b, selected_todo: sel };
            }
            keep
        } else if key == Key::Char(' ') && f == TodoWidget::Buckets && self.bucket_widget_purpose != BucketWidgetPurpose::Browse {
            if let BucketWidgetPurpose::Move { selected_bucket, selected_todo } = self.bucket_widget_purpose {
                let _ = state.move_todo_between_buckets(selected_bucket, selected_todo, b);
            }
            self.bucket_widget_purpose = BucketWidgetPurpose::Browse;
            self.focused_widget = TodoWidget::Todos;
            keep
        } else if switch_for(key).is_some() && on_list {
            KeyOutcome { action: switch_for(key).unwrap(), text: TextEffect::Keep }
        } else if f == TodoWidget::TodoInput || f == TodoWidget::BucketInput {
            KeyOutcome { action: WindowActionResult::Continue, text: TextEffect::Forward }
        } else {
            keep
        }
    }
}

} // verus!
