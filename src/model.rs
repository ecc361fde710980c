//! The store as mathematical values: what each operation does to it, its
//! invariants, and the proofs that every operation keeps them.
use crate::clock::{elapsed_minutes, minutes_between, saturating_sum, Date, Timestamp};
use crate::state::{
    default_bucket_name, BucketSwapError, DeletionError, EndActivityError, StartActivityError, TodoDeletionError,
    TodoSwapError,
};
use vstd::prelude::*;

verus! {

/// What an activity is, as values.
pub struct ActivityModel {
    pub id: nat,
    pub name: Seq<char>,
    pub target: nat,
    pub achieved: nat,
}

/// What a bucket is, as values.
pub struct BucketModel {
    pub name: Seq<char>,
    pub todos: Seq<Seq<char>>,
}

/// What a session is, as values.
pub struct SessionModel {
    pub activity_id: nat,
    pub start: Timestamp,
    pub pomo: Option<nat>,
}

/// The whole store, as values.
pub struct StateModel {
    pub date: Date,
    pub activities: Seq<ActivityModel>,
    pub next_id: nat,
    pub current: Option<SessionModel>,
    pub buckets: Seq<BucketModel>,
}

/// Some activity of the list has this id.
pub open spec fn has_id(acts: Seq<ActivityModel>, id: nat) -> bool {
    exists|i: int| 0 <= i < acts.len() && acts[i].id == id
}

/// No two activities of the list share an id.
pub open spec fn ids_unique(acts: Seq<ActivityModel>) -> bool {
    forall|i: int, j: int|
        0 <= i < acts.len() && 0 <= j < acts.len() && i != j ==> #[trigger] acts[i].id != #[trigger] acts[j].id
}

/// The invariants on activities: ids are unique and none exceeds the
/// counter, and the session refers to an existing activity.
pub open spec fn activities_wf(acts: Seq<ActivityModel>, next_id: nat, current: Option<SessionModel>) -> bool {
    &&& forall|i: int| 0 <= i < acts.len() ==> #[trigger] acts[i].id <= next_id
    &&& ids_unique(acts)
    &&& (current matches Some(c) ==> has_id(acts, c.activity_id))
}

/// Some bucket of the list has this name.
pub open spec fn has_name(buckets: Seq<BucketModel>, name: Seq<char>) -> bool {
    exists|i: int| 0 <= i < buckets.len() && buckets[i].name == name
}

/// No two buckets of the list share a name.
pub open spec fn names_unique(buckets: Seq<BucketModel>) -> bool {
    forall|i: int, j: int|
        0 <= i < buckets.len() && 0 <= j < buckets.len() && i != j
            ==> #[trigger] buckets[i].name != #[trigger] buckets[j].name
}

/// The invariants on buckets: names are unique and the default bucket exists.
pub open spec fn buckets_wf(buckets: Seq<BucketModel>) -> bool {
    &&& names_unique(buckets)
    &&& has_name(buckets, default_bucket_name())
}

/// Where the bucket with this name stands in the list (meaningful when it exists).
pub open spec fn name_index(buckets: Seq<BucketModel>, name: Seq<char>) -> int {
    choose|i: int| 0 <= i < buckets.len() && buckets[i].name == name
}

/// The list with `bucket` added: appended when its name is new, else its
/// todos appended to those of the bucket of that name.
pub open spec fn merged(buckets: Seq<BucketModel>, bucket: BucketModel) -> Seq<BucketModel> {
    if has_name(buckets, bucket.name) {
        let i = name_index(buckets, bucket.name);
        buckets.update(i, BucketModel { name: bucket.name, todos: buckets[i].todos + bucket.todos })
    } else {
        buckets.push(bucket)
    }
}

/// Merging keeps names unique, keeps every name, and holds the merged name.
pub proof fn lemma_merged(buckets: Seq<BucketModel>, bucket: BucketModel)
    requires
        names_unique(buckets),
    ensures
        names_unique(merged(buckets, bucket)),
        has_name(merged(buckets, bucket), bucket.name),
        forall|n: Seq<char>| has_name(buckets, n) ==> #[trigger] has_name(merged(buckets, bucket), n),
        has_name(buckets, bucket.name) ==> merged(buckets, bucket).len() == buckets.len(),
{
    let m = merged(buckets, bucket);
    if has_name(buckets, bucket.name) {
        let i = name_index(buckets, bucket.name);
        assert(m[i].name == bucket.name);
        assert forall|n: Seq<char>| has_name(buckets, n) implies #[trigger] has_name(m, n) by {
            let k = choose|k: int| 0 <= k < buckets.len() && buckets[k].name == n;
            assert(m[k].name == n);
        }
        assert forall|x: int, y: int| 0 <= x < m.len() && 0 <= y < m.len() && x != y
            implies #[trigger] m[x].name != #[trigger] m[y].name by {
            assert(buckets[x].name != buckets[y].name);
        }
    } else {
        assert(m[buckets.len() as int].name == bucket.name);
        assert forall|n: Seq<char>| has_name(buckets, n) implies #[trigger] has_name(m, n) by {
            let k = choose|k: int| 0 <= k < buckets.len() && buckets[k].name == n;
            assert(m[k].name == n);
        }
    }
}

impl StateModel {
    /// Some activity has this id.
    pub open spec fn has_activity(self, id: nat) -> bool {
        has_id(self.activities, id)
    }

    /// Where the activity with this id stands (meaningful when it exists).
    pub open spec fn index_of(self, id: nat) -> int {
        choose|i: int| 0 <= i < self.activities.len() && self.activities[i].id == id
    }

    /// Some bucket has this name.
    pub open spec fn has_bucket(self, name: Seq<char>) -> bool {
        has_name(self.buckets, name)
    }

    /// The invariants of the store: activity ids are unique and none
    /// exceeds the counter, the session refers to an existing activity,
    /// bucket names are unique and the default bucket exists.
    pub open spec fn wf(self) -> bool {
        activities_wf(self.activities, self.next_id, self.current) && buckets_wf(self.buckets)
    }

    /// `add_activity`: a new activity with the next id and nothing achieved.
    pub open spec fn add_activity(self, name: Seq<char>, target: nat) -> (StateModel, nat) {
        let id = self.next_id + 1;
        (
            StateModel {
                activities: self.activities.push(ActivityModel { id, name, target, achieved: 0 }),
                next_id: id,
                ..self
            },
            id,
        )
    }

    /// The session is of the activity with this id.
    pub open spec fn is_current(self, id: nat) -> bool {
        self.current matches Some(c) && c.activity_id == id
    }

    /// `delete`: removes the activity; ends its session if it is a freeform
    /// one, and refuses while it is in a pomodoro session.
    pub open spec fn delete(self, id: nat) -> (StateModel, Result<(), DeletionError>) {
        if !self.has_activity(id) {
            (self, Err(DeletionError::InvalidId))
        } else if self.is_current(id) && self.current.unwrap().pomo is Some {
            (self, Err(DeletionError::PomoOngoing))
        } else {
            (
                StateModel {
                    activities: self.activities.remove(self.index_of(id)),
                    current: if self.is_current(id) { None } else { self.current },
                    ..self
                },
                Ok(()),
            )
        }
    }

    /// `start_activity_pomo` at instant `now`.
    pub open spec fn start_activity_pomo(self, id: nat, pomo: Option<nat>, now: Timestamp) -> (StateModel, Result<(), StartActivityError>) {
        if self.current is Some {
            (self, Err(StartActivityError::AlreadyOngoing))
        } else if !self.has_activity(id) {
            (self, Err(StartActivityError::InvalidId))
        } else {
            (StateModel { current: Some(SessionModel { activity_id: id, start: now, pomo }), ..self }, Ok(()))
        }
    }

    /// The activities with `minutes` added to what the one with this id achieved.
    pub open spec fn credited(self, id: nat, minutes: nat) -> Seq<ActivityModel> {
        if self.has_activity(id) {
            let i = self.index_of(id);
            let a = self.activities[i];
            self.activities.update(i, ActivityModel { achieved: saturating_sum(a.achieved, minutes), ..a })
        } else {
            self.activities
        }
    }

    /// `end_activity` at instant `now`.
    pub open spec fn end_activity(self, override_pomo: bool, now: Timestamp) -> (StateModel, Result<(), EndActivityError>) {
        match self.current {
            None => (self, Err(EndActivityError::NoCurrentActivity)),
            Some(c) => if !override_pomo && c.pomo is Some {
                (self, Err(EndActivityError::PomoOngoing))
            } else {
                (
                    StateModel {
                        activities: self.credited(c.activity_id, elapsed_minutes(c.start, now)),
                        current: None,
                        ..self
                    },
                    Ok(()),
                )
            },
        }
    }

    /// `add_time`.
    pub open spec fn add_time(self, id: nat, minutes: nat) -> (StateModel, Result<(), ()>) {
        if self.has_activity(id) {
            (StateModel { activities: self.credited(id, minutes), ..self }, Ok(()))
        } else {
            (self, Err(()))
        }
    }

    /// `overwrite_time`.
    pub open spec fn overwrite_time(self, id: nat, minutes: nat) -> (StateModel, Result<(), ()>) {
        if self.has_activity(id) {
            let i = self.index_of(id);
            (
                StateModel {
                    activities: self.activities.update(i, ActivityModel { achieved: minutes, ..self.activities[i] }),
                    ..self
                },
                Ok(()),
            )
        } else {
            (self, Err(()))
        }
    }

    /// `change_target`.
    pub open spec fn change_target(self, id: nat, minutes: nat) -> (StateModel, Result<(), ()>) {
        if self.has_activity(id) {
            let i = self.index_of(id);
            (
                StateModel {
                    activities: self.activities.update(i, ActivityModel { target: minutes, ..self.activities[i] }),
                    ..self
                },
                Ok(()),
            )
        } else {
            (self, Err(()))
        }
    }

    /// `refresh` on day `today`: nothing achieved, everything else kept.
    pub open spec fn refresh(self, today: Date) -> StateModel {
        StateModel {
            date: today,
            activities: self.activities.map_values(|a: ActivityModel| ActivityModel { achieved: 0, ..a }),
            ..self
        }
    }
}

impl StateModel {
    /// Whole minutes the session has run at `now`, rounded toward zero.
    pub open spec fn session_minutes(self, now: Timestamp) -> Option<int> {
        match self.current {
            Some(c) => Some(minutes_between(c.start, now)),
            None => None,
        }
    }

    /// What the expiry check does at `now`: a pomodoro session whose length
    /// has run out is ended (with its time credited) and reported as
    /// (activity id, pomodoro minutes); anything else is left as it is.
    pub open spec fn check_pomodoro_expiry(self, now: Timestamp) -> (StateModel, Option<(nat, nat)>) {
        match self.current {
            Some(c) => match c.pomo {
                Some(p) => if minutes_between(c.start, now) >= p {
                    (self.end_activity(true, now).0, Some((c.activity_id, p)))
                } else {
                    (self, None)
                },
                None => (self, None),
            },
            None => (self, None),
        }
    }

    /// The minutes an activity counts as achieved at `now`: its own, plus
    /// those of the session when it is the ongoing one (capped at `usize::MAX`).
    pub open spec fn achieved_at(self, a: ActivityModel, now: Timestamp) -> nat {
        match self.current {
            Some(c) => if c.activity_id == a.id {
                saturating_sum(a.achieved, elapsed_minutes(c.start, now))
            } else {
                a.achieved
            },
            None => a.achieved,
        }
    }

    /// How an activity's line reads at `now`.
    pub open spec fn activity_line(self, a: ActivityModel, max_name_length: Option<nat>, now: Timestamp) -> LineModel {
        let achieved = self.achieved_at(a, now);
        let ongoing = self.is_current(a.id);
        LineModel {
            status: if ongoing {
                if achieved < a.target { ActivityStatus::Ongoing } else { ActivityStatus::Overwork }
            } else {
                if achieved < a.target { ActivityStatus::NotDone } else { ActivityStatus::Complete }
            },
            name: match max_name_length {
                Some(w) => padded(a.name, w),
                None => a.name,
            },
            remaining: if achieved < a.target { (a.target - achieved) as nat } else { 0 },
            target: a.target,
        }
    }
}

/// `name` followed by spaces up to `width` characters (unchanged when it is
/// already that long).
pub open spec fn padded(name: Seq<char>, width: nat) -> Seq<char> {
    if name.len() < width {
        name + Seq::new((width - name.len()) as nat, |i: int| ' ')
    } else {
        name
    }
}

/// Where an activity stands against its target.
#[derive(Clone, Copy, Debug, PartialEq, Eq, Structural)]
pub enum ActivityStatus {
    /// Ongoing, target not reached yet.
    Ongoing,
    /// Ongoing, target reached.
    Overwork,
    /// Not ongoing, target not reached.
    NotDone,
    /// Not ongoing, target reached.
    Complete,
}

impl ActivityStatus {
    /// The fixed-width label shown for the status.
    pub fn label(&self) -> (r: &'static str)
        ensures
            r@ == match self {
                ActivityStatus::Ongoing => "ONGOING "@,
                ActivityStatus::Overwork => "OVERWORK"@,
                ActivityStatus::NotDone => "NOT DONE"@,
                ActivityStatus::Complete => "COMPLETE"@,
            },
    {
        match self {
            ActivityStatus::Ongoing => "ONGOING ",
            ActivityStatus::Overwork => "OVERWORK",
            ActivityStatus::NotDone => "NOT DONE",
            ActivityStatus::Complete => "COMPLETE",
        }
    }
}

/// An activity's line, as values.
pub struct LineModel {
    pub status: ActivityStatus,
    pub name: Seq<char>,
    pub remaining: nat,
    pub target: nat,
}

impl StateModel {
    /// The store with bucket `b`'s todos replaced.
    pub open spec fn with_todos(self, b: int, todos: Seq<Seq<char>>) -> StateModel {
        StateModel { buckets: self.buckets.update(b, BucketModel { name: self.buckets[b].name, todos }), ..self }
    }

    /// `b` is the index of a bucket.
    pub open spec fn valid_bucket(self, b: int) -> bool {
        0 <= b < self.buckets.len()
    }

    /// `create_bucket`: a bucket with a new name is appended; one with a taken
    /// name has its todos appended to those of the existing bucket.
    pub open spec fn create_bucket(self, bucket: BucketModel) -> (StateModel, bool) {
        (StateModel { buckets: merged(self.buckets, bucket), ..self }, !self.has_bucket(bucket.name))
    }

    /// `delete_bucket`: only an empty bucket other than the default one goes.
    pub open spec fn delete_bucket(self, index: int) -> (StateModel, bool) {
        if self.valid_bucket(index) && self.buckets[index].name != default_bucket_name()
            && self.buckets[index].todos.len() == 0 {
            (StateModel { buckets: self.buckets.remove(index), ..self }, true)
        } else {
            (self, false)
        }
    }

    /// `change_bucket_index`: the bucket at `from` moves to position `to`.
    pub open spec fn change_bucket_index(self, from: int, to: int) -> (StateModel, Result<(), BucketSwapError>) {
        if !self.valid_bucket(from) {
            (self, Err(BucketSwapError::InvalidSelection))
        } else if !self.valid_bucket(to) {
            (self, Err(BucketSwapError::InvalidTargetIndex))
        } else {
            (StateModel { buckets: self.buckets.remove(from).insert(to, self.buckets[from]), ..self }, Ok(()))
        }
    }

    /// `swap_todos`: exchanges two todos of one bucket.
    pub open spec fn swap_todos(self, b: int, first: int, second: int) -> (StateModel, Result<(), TodoSwapError>) {
        if !self.valid_bucket(b) {
            (self, Err(TodoSwapError::InvalidBucket))
        } else {
            let t = self.buckets[b].todos;
            if !(0 <= first < t.len()) {
                (self, Err(TodoSwapError::FirstInvalid))
            } else if !(0 <= second < t.len()) {
                (self, Err(TodoSwapError::SecondInvalid))
            } else if first == second {
                (self, Err(TodoSwapError::EqualIds))
            } else {
                (self.with_todos(b, t.update(first, t[second]).update(second, t[first])), Ok(()))
            }
        }
    }

    /// `delete_todo`: removes one todo of a bucket.
    pub open spec fn delete_todo(self, b: int, index: int) -> (StateModel, Result<(), TodoDeletionError>) {
        if !self.valid_bucket(b) {
            (self, Err(TodoDeletionError::InvalidIdOrBucket))
        } else if !(0 <= index < self.buckets[b].todos.len()) {
            (self, Err(TodoDeletionError::InvalidId))
        } else {
            (self.with_todos(b, self.buckets[b].todos.remove(index)), Ok(()))
        }
    }

    /// `move_todo_between_buckets`: a todo leaves its bucket and is appended
    /// to the destination bucket.
    pub open spec fn move_todo(self, b: int, index: int, dest: int) -> (StateModel, Result<(), TodoDeletionError>) {
        if !self.valid_bucket(b) || !self.valid_bucket(dest) {
            (self, Err(TodoDeletionError::InvalidIdOrBucket))
        } else if !(0 <= index < self.buckets[b].todos.len()) {
            (self, Err(TodoDeletionError::InvalidId))
        } else {
            let item = self.buckets[b].todos[index];
            let s1 = self.with_todos(b, self.buckets[b].todos.remove(index));
            (s1.with_todos(dest, s1.buckets[dest].todos.push(item)), Ok(()))
        }
    }

    /// `add_todo`: appends a todo to a bucket.
    pub open spec fn add_todo(self, b: int, item: Seq<char>) -> (StateModel, bool) {
        if self.valid_bucket(b) {
            (self.with_todos(b, self.buckets[b].todos.push(item)), true)
        } else {
            (self, false)
        }
    }
}

/// Buckets with the same names, in the same order, keep the invariants.
pub proof fn lemma_same_names_wf(bs: Seq<BucketModel>, cs: Seq<BucketModel>)
    requires
        buckets_wf(bs),
        cs.len() == bs.len(),
        forall|i: int| 0 <= i < bs.len() ==> #[trigger] cs[i].name == bs[i].name,
    ensures
        buckets_wf(cs),
{
    let d = choose|i: int| 0 <= i < bs.len() && bs[i].name == default_bucket_name();
    assert(cs[d].name == default_bucket_name());
    assert forall|i: int, j: int| 0 <= i < cs.len() && 0 <= j < cs.len() && i != j
        implies #[trigger] cs[i].name != #[trigger] cs[j].name by {
        assert(bs[i].name != bs[j].name);
    }
}

/// Replacing one bucket's todos keeps the invariants and the names.
pub proof fn lemma_with_todos_wf(s: StateModel, b: int, todos: Seq<Seq<char>>)
    requires
        s.wf(),
        s.valid_bucket(b),
    ensures
        s.with_todos(b, todos).wf(),
        s.with_todos(b, todos).next_id == s.next_id,
        s.with_todos(b, todos).buckets.len() == s.buckets.len(),
        forall|i: int| 0 <= i < s.buckets.len() ==> #[trigger] s.with_todos(b, todos).buckets[i].name == s.buckets[i].name,
{
    lemma_same_names_wf(s.buckets, s.with_todos(b, todos).buckets);
}

/// Every bucket operation keeps the invariants and the counter.
pub proof fn lemma_bucket_ops_wf(s: StateModel, bucket: BucketModel, b: int, i: int, j: int, item: Seq<char>)
    requires
        s.wf(),
    ensures
        s.create_bucket(bucket).0.wf(),
        s.delete_bucket(b).0.wf(),
        s.change_bucket_index(i, j).0.wf(),
        s.swap_todos(b, i, j).0.wf(),
        s.delete_todo(b, i).0.wf(),
        s.move_todo(b, i, j).0.wf(),
        s.add_todo(b, item).0.wf(),
        s.create_bucket(bucket).0.next_id == s.next_id,
        s.delete_bucket(b).0.next_id == s.next_id,
        s.change_bucket_index(i, j).0.next_id == s.next_id,
        s.swap_todos(b, i, j).0.next_id == s.next_id,
        s.delete_todo(b, i).0.next_id == s.next_id,
        s.move_todo(b, i, j).0.next_id == s.next_id,
        s.add_todo(b, item).0.next_id == s.next_id,
{
    let d = choose|k: int| 0 <= k < s.buckets.len() && s.buckets[k].name == default_bucket_name();
    lemma_merged(s.buckets, bucket);
    // delete
    if s.delete_bucket(b).1 {
        let t = s.delete_bucket(b).0;
        if d < b {
            assert(t.buckets[d].name == default_bucket_name());
        } else {
            assert(t.buckets[d - 1].name == default_bucket_name());
        }
    }
    // move a bucket
    if s.change_bucket_index(i, j).1 is Ok {
        let t = s.change_bucket_index(i, j).0.buckets;
        let r = s.buckets.remove(i);
        let f = |k: int| if k == j { i } else {
            let k2 = if k < j { k } else { k - 1 };
            if k2 < i { k2 } else { k2 + 1 }
        };
        assert forall|k: int| 0 <= k < t.len() implies #[trigger] t[k] == s.buckets[f(k)] && 0 <= f(k) < s.buckets.len() by {
            if k == j {
            } else if k < j {
                assert(t[k] == r[k]);
            } else {
                assert(t[k] == r[k - 1]);
            }
        }
        assert forall|x: int, y: int| 0 <= x < t.len() && 0 <= y < t.len() && x != y
            implies #[trigger] t[x].name != #[trigger] t[y].name by {
            assert(t[x] == s.buckets[f(x)]);
            assert(t[y] == s.buckets[f(y)]);
        }
        let e = if d == i { j } else {
            let k2 = if d < i { d } else { d - 1 };
            if k2 < j { k2 } else { k2 + 1 }
        };
        assert(t[e] == s.buckets[f(e)]);
        assert(t[e].name == default_bucket_name());
    }
    // todos
    if s.valid_bucket(b) {
        lemma_with_todos_wf(s, b, s.buckets[b].todos.push(item));
        if 0 <= i < s.buckets[b].todos.len() {
            lemma_with_todos_wf(s, b, s.buckets[b].todos.remove(i));
            if 0 <= j < s.buckets[b].todos.len() {
                let t = s.buckets[b].todos;
                lemma_with_todos_wf(s, b, t.update(i, t[j]).update(j, t[i]));
            }
        }
    }
    if s.valid_bucket(b) && s.valid_bucket(j) && 0 <= i < s.buckets[b].todos.len() {
        let s1 = s.with_todos(b, s.buckets[b].todos.remove(i));
        lemma_with_todos_wf(s, b, s.buckets[b].todos.remove(i));
        lemma_with_todos_wf(s1, j, s1.buckets[j].todos.push(s.buckets[b].todos[i]));
    }
}

/// Facts about where an id stands among the activities.
pub proof fn lemma_index_of(s: StateModel, id: nat, i: int)
    requires
        ids_unique(s.activities),
        0 <= i < s.activities.len(),
        s.activities[i].id == id,
    ensures
        s.has_activity(id),
        s.index_of(id) == i,
{
}

/// Adding an activity keeps the invariants.
pub proof fn lemma_add_activity_wf(s: StateModel, name: Seq<char>, target: nat)
    requires
        s.wf(),
    ensures
        s.add_activity(name, target).0.wf(),
        s.add_activity(name, target).0.next_id > s.next_id,
{
    let t = s.add_activity(name, target).0;
    assert forall|i: int| 0 <= i < s.activities.len() implies t.activities[i] == s.activities[i] by {}
    if let Some(c) = s.current {
        let k = choose|k: int| 0 <= k < s.activities.len() && s.activities[k].id == c.activity_id;
        assert(t.activities[k].id == c.activity_id);
    }
}

/// The activity with this id stays where it was, or one place earlier when
/// the activity at `i`, which has another id, is removed.
proof fn lemma_has_activity_after_remove(s: StateModel, i: int, id: nat)
    requires
        s.wf(),
        0 <= i < s.activities.len(),
        s.has_activity(id),
        s.activities[i].id != id,
    ensures
        (StateModel { activities: s.activities.remove(i), ..s }).has_activity(id),
{
    let k = s.index_of(id);
    let t = s.activities.remove(i);
    if k < i {
        assert(t[k].id == id);
    } else {
        assert(t[k - 1].id == id);
    }
}

/// Replacing an activity by one with the same id keeps the invariants.
proof fn lemma_same_ids_wf(s: StateModel, acts: Seq<ActivityModel>)
    requires
        s.wf(),
        acts.len() == s.activities.len(),
        forall|i: int| 0 <= i < acts.len() ==> #[trigger] acts[i].id == s.activities[i].id,
    ensures
        (StateModel { activities: acts, ..s }).wf(),
        forall|id: nat| #[trigger] s.has_activity(id) ==> (StateModel { activities: acts, ..s }).has_activity(id)
            && (StateModel { activities: acts, ..s }).index_of(id) == s.index_of(id),
{
    let t = StateModel { activities: acts, ..s };
    assert forall|id: nat| #[trigger] s.has_activity(id) implies t.has_activity(id) && t.index_of(id) == s.index_of(id) by {
        let k = s.index_of(id);
        assert(t.activities[k].id == id);
        lemma_index_of(t, id, k);
    }
    if let Some(c) = s.current {
        assert(s.has_activity(c.activity_id));
    }
    assert forall|i: int, j: int|
        0 <= i < acts.len() && 0 <= j < acts.len() && i != j implies #[trigger] acts[i].id != #[trigger] acts[j].id by {
        assert(s.activities[i].id != s.activities[j].id);
    }
}

/// Deleting an activity keeps the invariants and the counter.
pub proof fn lemma_delete_wf(s: StateModel, id: nat)
    requires
        s.wf(),
    ensures
        s.delete(id).0.wf(),
        s.delete(id).0.next_id == s.next_id,
{
    if s.delete(id).1 is Ok {
        let t = s.delete(id).0;
        let i = s.index_of(id);
        if let Some(c) = t.current {
            assert(c.activity_id != id);
            lemma_has_activity_after_remove(s, i, c.activity_id);
        }
    }
}

/// Starting a session keeps the invariants and the counter.
pub proof fn lemma_start_wf(s: StateModel, id: nat, pomo: Option<nat>, now: Timestamp)
    requires
        s.wf(),
    ensures
        s.start_activity_pomo(id, pomo, now).0.wf(),
        s.start_activity_pomo(id, pomo, now).0.next_id == s.next_id,
{
}

/// Crediting minutes to an activity changes no id.
proof fn lemma_credited_ids(s: StateModel, id: nat, minutes: nat)
    requires
        s.wf(),
    ensures
        s.credited(id, minutes).len() == s.activities.len(),
        forall|i: int| 0 <= i < s.activities.len() ==> #[trigger] s.credited(id, minutes)[i].id == s.activities[i].id,
{
}

/// Ending a session keeps the invariants and the counter.
pub proof fn lemma_end_wf(s: StateModel, override_pomo: bool, now: Timestamp)
    requires
        s.wf(),
    ensures
        s.end_activity(override_pomo, now).0.wf(),
        s.end_activity(override_pomo, now).0.next_id == s.next_id,
{
    if let Some(c) = s.current {
        let m = elapsed_minutes(c.start, now);
        lemma_credited_ids(s, c.activity_id, m);
        lemma_same_ids_wf(StateModel { current: None, ..s }, s.credited(c.activity_id, m));
    }
}

/// Adding, overwriting time or changing a target keeps the invariants and the counter.
pub proof fn lemma_minutes_wf(s: StateModel, id: nat, minutes: nat)
    requires
        s.wf(),
    ensures
        s.add_time(id, minutes).0.wf(),
        s.overwrite_time(id, minutes).0.wf(),
        s.change_target(id, minutes).0.wf(),
        s.add_time(id, minutes).0.next_id == s.next_id,
        s.overwrite_time(id, minutes).0.next_id == s.next_id,
        s.change_target(id, minutes).0.next_id == s.next_id,
{
    lemma_credited_ids(s, id, minutes);
    lemma_same_ids_wf(s, s.credited(id, minutes));
    lemma_same_ids_wf(s, s.overwrite_time(id, minutes).0.activities);
    lemma_same_ids_wf(s, s.change_target(id, minutes).0.activities);
}

/// Refreshing keeps the invariants and the counter.
pub proof fn lemma_refresh_wf(s: StateModel, today: Date)
    requires
        s.wf(),
    ensures
        s.refresh(today).wf(),
        s.refresh(today).next_id == s.next_id,
{
    lemma_same_ids_wf(StateModel { date: today, ..s }, s.refresh(today).activities);
}

/// The list with each of `items` merged in, in order (see `merged`).
pub open spec fn merge_all(acc: Seq<BucketModel>, items: Seq<BucketModel>) -> Seq<BucketModel>
    decreases items.len(),
{
    if items.len() == 0 {
        acc
    } else {
        merged(merge_all(acc, items.drop_last()), items.last())
    }
}

/// The list with each of `items` merged in, in order, where a bucket of its
/// name already exists; the others are dropped.
pub open spec fn merge_present_all(acc: Seq<BucketModel>, items: Seq<BucketModel>) -> Seq<BucketModel>
    decreases items.len(),
{
    if items.len() == 0 {
        acc
    } else {
        let prev = merge_present_all(acc, items.drop_last());
        if has_name(prev, items.last().name) {
            merged(prev, items.last())
        } else {
            prev
        }
    }
}

/// The activities without those whose id an earlier one already has.
pub open spec fn kept_activities(acts: Seq<ActivityModel>) -> Seq<ActivityModel>
    decreases acts.len(),
{
    if acts.len() == 0 {
        Seq::empty()
    } else {
        let prev = kept_activities(acts.drop_last());
        if has_id(prev, acts.last().id) {
            prev
        } else {
            prev.push(acts.last())
        }
    }
}

/// The largest id of the activities (zero when there are none).
pub open spec fn max_id(acts: Seq<ActivityModel>) -> nat
    decreases acts.len(),
{
    if acts.len() == 0 {
        0
    } else {
        let m = max_id(acts.drop_last());
        if acts.last().id > m {
            acts.last().id
        } else {
            m
        }
    }
}

/// No id exceeds `max_id`.
pub proof fn lemma_max_id(acts: Seq<ActivityModel>)
    ensures
        forall|i: int| 0 <= i < acts.len() ==> #[trigger] acts[i].id <= max_id(acts),
    decreases acts.len(),
{
    if acts.len() > 0 {
        lemma_max_id(acts.drop_last());
        assert forall|i: int| 0 <= i < acts.len() implies #[trigger] acts[i].id <= max_id(acts) by {
            if i < acts.len() - 1 {
                assert(acts[i] == acts.drop_last()[i]);
            }
        }
    }
}

/// The kept activities have unique ids.
pub proof fn lemma_kept_unique(acts: Seq<ActivityModel>)
    ensures
        ids_unique(kept_activities(acts)),
    decreases acts.len(),
{
    if acts.len() > 0 {
        lemma_kept_unique(acts.drop_last());
    }
}

/// Merging a list in keeps names unique and every name present.
pub proof fn lemma_merge_all(acc: Seq<BucketModel>, items: Seq<BucketModel>)
    requires
        names_unique(acc),
    ensures
        names_unique(merge_all(acc, items)),
        names_unique(merge_present_all(acc, items)),
        forall|n: Seq<char>| has_name(acc, n) ==> #[trigger] has_name(merge_all(acc, items), n),
        forall|n: Seq<char>| has_name(acc, n) ==> #[trigger] has_name(merge_present_all(acc, items), n),
    decreases items.len(),
{
    if items.len() > 0 {
        lemma_merge_all(acc, items.drop_last());
        lemma_merged(merge_all(acc, items.drop_last()), items.last());
        lemma_merged(merge_present_all(acc, items.drop_last()), items.last());
    }
}

/// A bucket of this name with no todos.
pub open spec fn empty_bucket(name: Seq<char>) -> BucketModel {
    BucketModel { name, todos: Seq::empty() }
}

/// Activities with unique ids are all kept.
pub proof fn lemma_kept_all(acts: Seq<ActivityModel>)
    requires
        ids_unique(acts),
    ensures
        kept_activities(acts) == acts,
    decreases acts.len(),
{
    if acts.len() > 0 {
        let init = acts.drop_last();
        lemma_kept_all(init);
        assert(!has_id(init, acts.last().id)) by {
            if has_id(init, acts.last().id) {
                let k = choose|k: int| 0 <= k < init.len() && init[k].id == acts.last().id;
                assert(acts[k].id == acts[acts.len() - 1].id);
            }
        }
        assert(init.push(acts.last()) =~= acts);
    }
}

/// No id above `n` gives a largest id of at most `n`.
pub proof fn lemma_max_id_at_most(acts: Seq<ActivityModel>, n: nat)
    requires
        forall|i: int| 0 <= i < acts.len() ==> #[trigger] acts[i].id <= n,
    ensures
        max_id(acts) <= n,
    decreases acts.len(),
{
    if acts.len() > 0 {
        let init = acts.drop_last();
        assert forall|i: int| 0 <= i < init.len() implies #[trigger] init[i].id <= n by {
            assert(init[i] == acts[i]);
        }
        lemma_max_id_at_most(init, n);
    }
}

/// Buckets with unique names, merged one by one into nothing, come out as they were.
pub proof fn lemma_merge_all_unique(bs: Seq<BucketModel>)
    requires
        names_unique(bs),
    ensures
        merge_all(Seq::empty(), bs) == bs,
    decreases bs.len(),
{
    if bs.len() > 0 {
        let init = bs.drop_last();
        assert(names_unique(init)) by {
            assert forall|i: int, j: int| 0 <= i < init.len() && 0 <= j < init.len() && i != j
                implies #[trigger] init[i].name != #[trigger] init[j].name by {
                assert(bs[i].name != bs[j].name);
            }
        }
        lemma_merge_all_unique(init);
        assert(!has_name(init, bs.last().name)) by {
            if has_name(init, bs.last().name) {
                let k = choose|k: int| 0 <= k < init.len() && init[k].name == bs.last().name;
                assert(bs[k].name == bs[bs.len() - 1].name);
            }
        }
        assert(init.push(bs.last()) =~= bs);
    }
}

/// Merging an empty bucket whose name is present changes nothing.
pub proof fn lemma_merge_empty_present(bs: Seq<BucketModel>, name: Seq<char>)
    requires
        has_name(bs, name),
    ensures
        merged(bs, empty_bucket(name)) == bs,
{
    let i = name_index(bs, name);
    assert(bs[i].todos + Seq::<Seq<char>>::empty() =~= bs[i].todos);
    assert(merged(bs, empty_bucket(name)) =~= bs);
}

} // verus!
