//! The domain entities (activities, sessions, todos, buckets) and the state
//! store that owns them and enforces their invariants.
use crate::clock::{elapsed_minutes, elapsed_minutes_between, saturating_sum, signed_minutes_between, Date, Timestamp};
use crate::model::{
    empty_bucket, has_id, has_name, kept_activities, lemma_add_activity_wf, lemma_bucket_ops_wf, lemma_delete_wf,
    lemma_end_wf, lemma_index_of, lemma_kept_all, lemma_kept_unique, lemma_max_id, lemma_max_id_at_most,
    lemma_merge_all_unique, lemma_merge_empty_present, lemma_merged, lemma_minutes_wf, lemma_refresh_wf,
    lemma_start_wf, max_id, merge_all, merge_present_all, merged, name_index, names_unique, padded, ActivityModel,
    ActivityStatus, BucketModel, LineModel, SessionModel, StateModel,
};
use vstd::prelude::*;

verus! {

/// The name of the bucket that always exists and can never be deleted.
pub const DEFAULT_BUCKET_NAME: &'static str = "N/A";

/// The reserved default bucket name, as characters.
pub open spec fn default_bucket_name() -> Seq<char> {
    DEFAULT_BUCKET_NAME@
}

/// Identifies an activity; handed out by the state store in increasing order.
#[derive(Clone, Copy, Debug, PartialEq, Eq, Structural)]
pub struct ActivityId(usize);

impl View for ActivityId {
    type V = nat;

    closed spec fn view(&self) -> nat {
        self.0 as nat
    }
}

impl ActivityId {
    /// The id with the given number (as persisted).
    pub fn from_raw(raw: usize) -> (r: ActivityId)
        ensures
            r@ == raw as nat,
    {
        ActivityId(raw)
    }

    /// The number of this id (as persisted).
    pub fn raw(&self) -> (r: usize)
        ensures
            r as nat == self@,
    {
        self.0
    }
}

/// A trackable task with a daily target in minutes.
#[derive(Debug)]
pub struct Activity {
    target_minutes: usize,
    acheived_minutes: usize,
    name: String,
    id: ActivityId,
}

impl View for Activity {
    type V = ActivityModel;

    closed spec fn view(&self) -> ActivityModel {
        ActivityModel {
            id: self.id@,
            name: self.name@,
            target: self.target_minutes as nat,
            achieved: self.acheived_minutes as nat,
        }
    }
}

impl Activity {
    /// The activity with the given fields (as persisted).
    pub fn from_parts(id: ActivityId, name: String, target_minutes: usize, acheived_minutes: usize) -> (r: Activity)
        ensures
            r@ == (ActivityModel {
                id: id@,
                name: name@,
                target: target_minutes as nat,
                achieved: acheived_minutes as nat,
            }),
    {
        Activity { target_minutes, acheived_minutes, name, id }
    }

    pub fn name(&self) -> (r: &str)
        ensures
            r@ == self@.name,
    {
        self.name.as_str()
    }

    pub fn id(&self) -> (r: ActivityId)
        ensures
            r@ == self@.id,
    {
        self.id
    }

    pub fn target_minutes(&self) -> (r: usize)
        ensures
            r as nat == self@.target,
    {
        self.target_minutes
    }

    pub fn acheived_minutes(&self) -> (r: usize)
        ensures
            r as nat == self@.achieved,
    {
        self.acheived_minutes
    }

    /// The same activity with nothing achieved.
    pub fn with_acheived_reset(self) -> (r: Activity)
        ensures
            r@ == (ActivityModel { achieved: 0, ..self@ }),
    {
        Activity { acheived_minutes: 0, ..self }
    }

    pub fn set_target_minutes(&mut self, target_minutes: usize)
        ensures
            final(self)@ == (ActivityModel { target: target_minutes as nat, ..old(self)@ }),
    {
        self.target_minutes = target_minutes;
    }
}

impl Clone for Activity {
    fn clone(&self) -> (r: Activity)
        ensures
            r@ == self@,
    {
        Activity {
            target_minutes: self.target_minutes,
            acheived_minutes: self.acheived_minutes,
            name: self.name.clone(),
            id: self.id,
        }
    }
}

/// A todo item of the oldest stored layouts, which named its bucket itself.
#[derive(Debug)]
pub struct TodoItemOld {
    pub item: String,
    pub bucket: Option<String>,
}

/// A todo item: a line of text.
#[derive(Debug)]
pub struct TodoItem(String);

impl View for TodoItem {
    type V = Seq<char>;

    closed spec fn view(&self) -> Seq<char> {
        self.0@
    }
}

impl TodoItem {
    pub fn new(item: String) -> (r: TodoItem)
        ensures
            r@ == item@,
    {
        TodoItem(item)
    }

    pub fn item(&self) -> (r: &str)
        ensures
            r@ == self@,
    {
        self.0.as_str()
    }
}

impl Clone for TodoItem {
    fn clone(&self) -> (r: TodoItem)
        ensures
            r@ == self@,
    {
        TodoItem(self.0.clone())
    }
}

/// The texts of a list of todo items.
pub open spec fn todo_texts(todos: Seq<TodoItem>) -> Seq<Seq<char>> {
    todos.map_values(|t: TodoItem| t@)
}

/// A named, ordered group of todo items.
#[derive(Debug)]
pub struct Bucket {
    name: String,
    todos: Vec<TodoItem>,
}

impl View for Bucket {
    type V = BucketModel;

    closed spec fn view(&self) -> BucketModel {
        BucketModel { name: self.name@, todos: todo_texts(self.todos@) }
    }
}

impl Bucket {
    pub fn new(name: String, todos: Vec<TodoItem>) -> (r: Bucket)
        ensures
            r@ == (BucketModel { name: name@, todos: todo_texts(todos@) }),
    {
        Bucket { name, todos }
    }

    pub fn name(&self) -> (r: &str)
        ensures
            r@ == self@.name,
    {
        self.name.as_str()
    }

    pub fn todos(&self) -> (r: &Vec<TodoItem>)
        ensures
            todo_texts(r@) == self@.todos,
    {
        &self.todos
    }

    pub fn set_name(&mut self, name: String)
        ensures
            final(self)@ == (BucketModel { name: name@, todos: old(self)@.todos }),
    {
        self.name = name;
    }

    pub fn todos_mut(&mut self) -> (r: &mut Vec<TodoItem>)
        ensures
            todo_texts(r@) == old(self)@.todos,
            final(self)@ == (BucketModel { name: old(self)@.name, todos: todo_texts(final(r)@) }),
    {
        &mut self.todos
    }

    pub fn push_todo(&mut self, todo: TodoItem)
        ensures
            final(self)@ == (BucketModel { name: old(self)@.name, todos: old(self)@.todos.push(todo@) }),
    {
        self.todos.push(todo);
        proof {
            assert(todo_texts(self.todos@) =~= old(self)@.todos.push(todo@));
        }
    }

    /// The number of todos in the bucket.
    pub fn todo_count(&self) -> (r: usize)
        ensures
            r as nat == self@.todos.len(),
    {
        self.todos.len()
    }
}

impl Clone for Bucket {
    fn clone(&self) -> (r: Bucket)
        ensures
            r@ == self@,
    {
        let mut todos: Vec<TodoItem> = Vec::new();
        let mut i: usize = 0;
        while i < self.todos.len()
            invariant
                i <= self.todos@.len(),
                todos@.len() == i,
                forall|j: int| 0 <= j < i ==> todos@[j]@ == self.todos@[j]@,
            decreases self.todos@.len() - i,
        {
            todos.push(self.todos[i].clone());
            i += 1;
        }
        proof {
            assert(todo_texts(todos@) =~= todo_texts(self.todos@));
        }
        Bucket { name: self.name.clone(), todos }
    }
}

/// The optional length of a session, as a mathematical value.
pub open spec fn pomo_model(p: Option<usize>) -> Option<nat> {
    match p {
        Some(m) => Some(m as nat),
        None => None,
    }
}

/// The ongoing session: which activity, since when, and for a pomodoro
/// session its length in minutes.
#[derive(Clone, Copy, Debug)]
pub struct CurrentActionInfo {
    activity_id: ActivityId,
    start_time: Timestamp,
    pomo_minutes: Option<usize>,
}

impl View for CurrentActionInfo {
    type V = SessionModel;

    closed spec fn view(&self) -> SessionModel {
        SessionModel {
            activity_id: self.activity_id@,
            start: self.start_time,
            pomo: pomo_model(self.pomo_minutes),
        }
    }
}

impl CurrentActionInfo {
    pub fn new(activity_id: ActivityId, start_time: Timestamp, pomo_minutes: Option<usize>) -> (r: CurrentActionInfo)
        ensures
            r@ == (SessionModel { activity_id: activity_id@, start: start_time, pomo: pomo_model(pomo_minutes) }),
    {
        CurrentActionInfo { activity_id, start_time, pomo_minutes }
    }

    pub fn activity_id(&self) -> (r: ActivityId)
        ensures
            r@ == self@.activity_id,
    {
        self.activity_id
    }

    pub fn start_time(&self) -> (r: Timestamp)
        ensures
            r == self@.start,
    {
        self.start_time
    }

    pub fn pomo_minutes(&self) -> (r: Option<usize>)
        ensures
            pomo_model(r) == self@.pomo,
    {
        self.pomo_minutes
    }
}

#[derive(Clone, Copy, Debug, PartialEq, Eq, Structural)]
pub enum TodoDeletionError {
    /// No todo at that index.
    InvalidId,
    /// No bucket at that index.
    InvalidIdOrBucket,
}

#[derive(Clone, Copy, Debug, PartialEq, Eq, Structural)]
pub enum TodoSwapError {
    SecondInvalid,
    FirstInvalid,
    EqualIds,
    InvalidBucket,
}

#[derive(Clone, Copy, Debug, PartialEq, Eq, Structural)]
pub enum BucketSwapError {
    InvalidSelection,
    InvalidTargetIndex,
}

#[derive(Clone, Copy, Debug, PartialEq, Eq, Structural)]
pub enum StartActivityError {
    /// There is already another activity in progress
    AlreadyOngoing,
    InvalidId,
}

#[derive(Clone, Copy, Debug, PartialEq, Eq, Structural)]
pub enum EndActivityError {
    PomoOngoing,
    NoCurrentActivity,
}

#[derive(Clone, Copy, Debug, PartialEq, Eq, Structural)]
pub enum DeletionError {
    PomoOngoing,
    InvalidId,
}

/// A pomodoro session that ran its course and was ended.
#[derive(Clone, Copy, Debug, PartialEq, Eq, Structural)]
pub struct PomodoroFinished {
    pub activity_id: ActivityId,
    pub pomo_minutes: usize,
}

/// The parts of an activity's line: status, (padded) name, minutes remaining
/// and target.
#[derive(Debug)]
pub struct ActivityLine {
    pub status: ActivityStatus,
    pub name: String,
    pub remaining: usize,
    pub target: usize,
}

impl View for ActivityLine {
    type V = LineModel;

    open spec fn view(&self) -> LineModel {
        LineModel {
            status: self.status,
            name: self.name@,
            remaining: self.remaining as nat,
            target: self.target as nat,
        }
    }
}

/// The optional width, as a mathematical value.
pub open spec fn width_model(w: Option<usize>) -> Option<nat> {
    match w {
        Some(w) => Some(w as nat),
        None => None,
    }
}

/// `name` padded with spaces to `width` characters.
pub fn pad_name(name: &str, width: usize) -> (r: String)
    ensures
        r@ == padded(name@, width as nat),
{
    let mut r = name.to_owned();
    let len = name.unicode_len();
    let mut i: usize = len;
    while i < width
        invariant
            len == name@.len(),
            len <= i <= width || (len >= width && i == len),
            r@ == name@ + Seq::new((i - len) as nat, |k: int| ' '),
        decreases width - i,
    {
        r.append(" ");
        i += 1;
        proof {
            reveal_strlit(" ");
            assert(r@ =~= name@ + Seq::new((i - len) as nat, |k: int| ' '));
        }
    }
    proof {
        if len >= width {
            assert(r@ =~= name@);
        }
    }
    r
}

/// Where the bucket with this name stands in the list.
fn bucket_index_by_name(buckets: &Vec<Bucket>, name: &String) -> (r: Option<usize>)
    requires
        names_unique(bucket_models(buckets@)),
    ensures
        r matches Some(i) ==> has_name(bucket_models(buckets@), name@)
            && i as int == name_index(bucket_models(buckets@), name@),
        r is None ==> !has_name(bucket_models(buckets@), name@),
{
    let ghost bs = bucket_models(buckets@);
    let mut i: usize = 0;
    while i < buckets.len()
        invariant
            bs == bucket_models(buckets@),
            names_unique(bs),
            i <= buckets@.len(),
            forall|j: int| 0 <= j < i ==> bs[j].name != name@,
        decreases buckets@.len() - i,
    {
        if buckets[i].name == *name {
            proof {
                assert(bs[i as int].name == name@);
            }
            return Some(i);
        }
        i += 1;
    }
    None
}

/// Adds `bucket` to the list (see `merged`). True if it was appended.
fn merge_into(buckets: &mut Vec<Bucket>, bucket: Bucket) -> (r: bool)
    requires
        names_unique(bucket_models(old(buckets)@)),
    ensures
        bucket_models(final(buckets)@) == merged(bucket_models(old(buckets)@), bucket@),
        r == !has_name(bucket_models(old(buckets)@), bucket@.name),
{
    match bucket_index_by_name(buckets, &bucket.name) {
        Some(i) => {
            let Bucket { name: _, todos: mut extra } = bucket;
            buckets[i].todos.append(&mut extra);
            proof {
                let m = merged(bucket_models(old(buckets)@), bucket@);
                assert(bucket_models(buckets@)[i as int].todos =~= m[i as int].todos);
                assert(bucket_models(buckets@) =~= m);
            }
            false
        },
        None => {
            buckets.push(bucket);
            proof {
                assert(bucket_models(buckets@) =~= merged(bucket_models(old(buckets)@), bucket@));
            }
            true
        },
    }
}

/// The stored record, with every field optional so that the layouts of
/// earlier versions still load.
#[derive(Debug)]
pub struct StateBuilder {
    pub date: Option<Date>,
    pub activities: Option<Vec<Activity>>,
    pub next_activity_id: Option<usize>,
    pub current: Option<CurrentActionInfo>,
    /// Todos of the oldest layout, before buckets existed.
    pub todo: Option<Vec<String>>,
    pub todo_v2: Option<Vec<TodoItemOld>>,
    pub buckets: Option<Vec<String>>,
    pub buckets_v2: Option<Vec<Bucket>>,
}

/// The bucket an old-layout todo names, holding just that todo.
pub open spec fn old_todo_bucket(t: TodoItemOld) -> BucketModel {
    BucketModel {
        name: match t.bucket {
            Some(b) => b@,
            None => default_bucket_name(),
        },
        todos: seq![t.item@],
    }
}

/// The default bucket holding just this todo.
pub open spec fn default_todo_bucket(t: String) -> BucketModel {
    BucketModel { name: default_bucket_name(), todos: seq![t@] }
}

impl StateBuilder {
    /// The stored activities, as values.
    pub open spec fn activity_list(self) -> Seq<ActivityModel> {
        match self.activities {
            Some(v) => activity_models(v@),
            None => Seq::empty(),
        }
    }

    /// The counter as stored, or else one past the largest stored id (zero
    /// when no activities were stored).
    pub open spec fn stored_next_id(self) -> nat {
        match self.next_activity_id {
            Some(n) => n as nat,
            None => match self.activities {
                Some(v) => saturating_sum(max_id(activity_models(v@)), 1),
                None => 0,
            },
        }
    }

    /// The buckets after migration: the stored buckets, then the bucket names
    /// of the older layout, then the default bucket if it is missing, then the
    /// oldest todos into the default bucket, then the older layout's todos
    /// into the bucket they name (dropped when it does not exist).
    pub open spec fn loaded_buckets(self) -> Seq<BucketModel> {
        let stored = match self.buckets_v2 {
            Some(v) => bucket_models(v@),
            None => Seq::empty(),
        };
        let names = match self.buckets {
            Some(v) => v@.map_values(|n: String| empty_bucket(n@)),
            None => Seq::empty(),
        };
        let oldest = match self.todo {
            Some(v) => v@.map_values(|t: String| default_todo_bucket(t)),
            None => Seq::empty(),
        };
        let older = match self.todo_v2 {
            Some(v) => v@.map_values(|t: TodoItemOld| old_todo_bucket(t)),
            None => Seq::empty(),
        };
        let b = merged(merge_all(merge_all(Seq::empty(), stored), names), empty_bucket(default_bucket_name()));
        merge_present_all(merge_all(b, oldest), older)
    }

    /// The store this record loads into on day `today`: activities whose id
    /// an earlier one has are dropped, the counter is at least the largest
    /// id, a session of a missing activity is dropped, and a missing day is
    /// `today`.
    pub open spec fn loaded(self, today: Date) -> StateModel {
        let acts = kept_activities(self.activity_list());
        StateModel {
            date: match self.date {
                Some(d) => d,
                None => today,
            },
            activities: acts,
            next_id: if self.stored_next_id() >= max_id(acts) { self.stored_next_id() } else { max_id(acts) },
            current: match self.current {
                Some(c) => if has_id(acts, c@.activity_id) { Some(c@) } else { None },
                None => None,
            },
            buckets: self.loaded_buckets(),
        }
    }
}

/// Where the first activity with this id stands in the list.
fn position_of(acts: &Vec<Activity>, id: ActivityId) -> (r: Option<usize>)
    ensures
        r matches Some(i) ==> i < acts@.len() && acts@[i as int]@.id == id@,
        r is None ==> !has_id(activity_models(acts@), id@),
{
    let mut i: usize = 0;
    while i < acts.len()
        invariant
            i <= acts@.len(),
            forall|j: int| 0 <= j < i ==> acts@[j]@.id != id@,
        decreases acts@.len() - i,
    {
        if acts[i].id == id {
            return Some(i);
        }
        i += 1;
    }
    proof {
        assert forall|j: int| 0 <= j < acts@.len() implies activity_models(acts@)[j].id != id@ by {
            assert(acts@[j]@.id != id@);
        }
    }
    None
}

/// The largest id of the activities (zero when there are none).
fn largest_id(acts: &Vec<Activity>) -> (r: usize)
    ensures
        r as nat == max_id(activity_models(acts@)),
{
    let ghost ms = activity_models(acts@);
    let mut m: usize = 0;
    let mut i: usize = 0;
    while i < acts.len()
        invariant
            ms == activity_models(acts@),
            i <= acts@.len(),
            m as nat == max_id(ms.subrange(0, i as int)),
        decreases acts@.len() - i,
    {
        proof {
            assert(ms.subrange(0, i + 1).drop_last() =~= ms.subrange(0, i as int));
        }
        if acts[i].id.0 > m {
            m = acts[i].id.0;
        }
        i += 1;
    }
    proof {
        assert(ms.subrange(0, i as int) =~= ms);
    }
    m
}

/// The store: activities, the ongoing session, buckets of todos, and the day
/// they belong to.
#[derive(Debug)]
pub struct State {
    date: Date,
    activities: Vec<Activity>,
    next_activity_id: usize,
    current: Option<CurrentActionInfo>,
    buckets: Vec<Bucket>,
}

/// The optional session, as values.
pub open spec fn session_model(c: Option<CurrentActionInfo>) -> Option<SessionModel> {
    match c {
        Some(c) => Some(c@),
        None => None,
    }
}

/// A list of activities, as values.
pub open spec fn activity_models(v: Seq<Activity>) -> Seq<ActivityModel> {
    v.map_values(|a: Activity| a@)
}

/// A list of buckets, as values.
pub open spec fn bucket_models(v: Seq<Bucket>) -> Seq<BucketModel> {
    v.map_values(|b: Bucket| b@)
}

impl View for State {
    type V = StateModel;

    closed spec fn view(&self) -> StateModel {
        StateModel {
            date: self.date,
            activities: activity_models(self.activities@),
            next_id: self.next_activity_id as nat,
            current: session_model(self.current),
            buckets: bucket_models(self.buckets@),
        }
    }
}

impl State {
    /// An empty store for day `date`, holding only the default bucket.
    pub fn new(date: Date) -> (r: State)
        ensures
            r@.wf(),
            r@ == (StateModel {
                date,
                activities: Seq::empty(),
                next_id: 0,
                current: None,
                buckets: seq![BucketModel { name: default_bucket_name(), todos: Seq::empty() }],
            }),
    {
        let mut buckets: Vec<Bucket> = Vec::new();
        buckets.push(Bucket::new(String::from_str(DEFAULT_BUCKET_NAME), Vec::new()));
        let r = State { date, activities: Vec::new(), next_activity_id: 0, current: None, buckets };
        proof {
            assert(todo_texts(Seq::<TodoItem>::empty()) =~= Seq::empty());
            assert(r@.activities =~= Seq::empty());
            assert(r@.buckets =~= seq![BucketModel { name: default_bucket_name(), todos: Seq::empty() }]);
            assert(r@.buckets[0].name == default_bucket_name());
        }
        r
    }

    pub fn add_activity(&mut self, name: String, target_minutes: usize) -> (r: ActivityId)
        requires
            old(self)@.wf(),
            old(self)@.next_id < usize::MAX,
        ensures
            final(self)@.wf(),
            (final(self)@, r@) == old(self)@.add_activity(name@, target_minutes as nat),
    {
        let id = self.new_activity_id();
        let activity = Activity { target_minutes, acheived_minutes: 0, name, id };
        self.activities.push(activity);
        proof {
            let (m, _) = old(self)@.add_activity(name@, target_minutes as nat);
            assert(self@.activities =~= m.activities);
            assert(self@.activities[self@.activities.len() - 1].id == id@);
            lemma_add_activity_wf(old(self)@, name@, target_minutes as nat);
        }
        id
    }

    fn new_activity_id(&mut self) -> (r: ActivityId)
        requires
            old(self).next_activity_id < usize::MAX,
        ensures
            r@ == old(self).next_activity_id + 1,
            final(self).next_activity_id == old(self).next_activity_id + 1,
            final(self).activities == old(self).activities,
            final(self).current == old(self).current,
            final(self).buckets == old(self).buckets,
            final(self).date == old(self).date,
    {
        let id = ActivityId(self.next_activity_id + 1);
        self.next_activity_id += 1;
        id
    }

    pub fn activities(&self) -> (r: &Vec<Activity>)
        ensures
            activity_models(r@) == self@.activities,
    {
        &self.activities
    }

    fn get_index_by_id(&self, id: ActivityId) -> (r: Option<usize>)
        requires
            self@.wf(),
        ensures
            r matches Some(i) ==> self@.has_activity(id@) && i as int == self@.index_of(id@),
            r is None ==> !self@.has_activity(id@),
    {
        let mut i: usize = 0;
        while i < self.activities.len()
            invariant
                self@.wf(),
                i <= self.activities@.len(),
                forall|j: int| 0 <= j < i ==> self@.activities[j].id != id@,
            decreases self.activities@.len() - i,
        {
            if self.activities[i].id == id {
                proof {
                    lemma_index_of(self@, id@, i as int);
                }
                return Some(i);
            }
            i += 1;
        }
        None
    }

    pub fn delete(&mut self, id: ActivityId) -> (r: Result<(), DeletionError>)
        requires
            old(self)@.wf(),
        ensures
            final(self)@.wf(),
            (final(self)@, r) == old(self)@.delete(id@),
    {
        proof {
            lemma_delete_wf(self@, id@);
        }
        if let Some(index) = self.get_index_by_id(id) {
            if let Some(current) = self.current {
                if current.activity_id == id {
                    if current.pomo_minutes.is_some() {
                        return Err(DeletionError::PomoOngoing);
                    }
                    self.current = None;
                }
            }
            self.activities.remove(index);
            proof {
                assert(self@.activities =~= old(self)@.activities.remove(index as int));
                assert(self@.current == old(self)@.delete(id@).0.current);
            }
            Ok(())
        } else {
            Err(DeletionError::InvalidId)
        }
    }

    pub fn current_id(&self) -> (r: Option<ActivityId>)
        ensures
            r matches Some(id) ==> self@.current matches Some(c) && c.activity_id == id@,
            r is None <==> self@.current is None,
    {
        match self.current {
            Some(c) => Some(c.activity_id),
            None => None,
        }
    }

    /// The ongoing session, if any.
    pub fn current(&self) -> (r: Option<CurrentActionInfo>)
        ensures
            session_model(r) == self@.current,
    {
        self.current
    }

    /// `start_activity_pomo` without a pomodoro length.
    pub fn start_activity(&mut self, id: ActivityId) -> (r: Result<(), StartActivityError>)
        requires
            old(self)@.wf(),
        ensures
            final(self)@.wf(),
            exists|now: Timestamp| (final(self)@, r) == old(self)@.start_activity_pomo(id@, None, now),
    {
        self.start_activity_pomo(id, None)
    }

    /// Starts a session of the activity at the current instant; a pomodoro
    /// session when `pomo_minutes` is given.
    pub fn start_activity_pomo(&mut self, id: ActivityId, pomo_minutes: Option<usize>) -> (r: Result<(), StartActivityError>)
        requires
            old(self)@.wf(),
        ensures
            final(self)@.wf(),
            exists|now: Timestamp| (final(self)@, r) == old(self)@.start_activity_pomo(id@, pomo_model(pomo_minutes), now),
    {
        let now = crate::clock::now();
        self.start_activity_pomo_at(id, pomo_minutes, now)
    }

    /// Starts a session of the activity at instant `now`.
    pub fn start_activity_pomo_at(&mut self, id: ActivityId, pomo_minutes: Option<usize>, now: Timestamp) -> (r: Result<(), StartActivityError>)
        requires
            old(self)@.wf(),
        ensures
            final(self)@.wf(),
            (final(self)@, r) == old(self)@.start_activity_pomo(id@, pomo_model(pomo_minutes), now),
    {
        proof {
            lemma_start_wf(self@, id@, pomo_model(pomo_minutes), now);
        }
        if self.current.is_some() {
            Err(StartActivityError::AlreadyOngoing)
        } else if self.get_index_by_id(id).is_some() {
            self.current = Some(CurrentActionInfo::new(id, now, pomo_minutes));
            Ok(())
        } else {
            Err(StartActivityError::InvalidId)
        }
    }

    /// Adds `minutes` to what the activity at `index` achieved, capped at `usize::MAX`.
    fn credit(&mut self, index: usize, minutes: usize)
        requires
            old(self)@.wf(),
            index < old(self)@.activities.len(),
        ensures
            final(self)@ == (StateModel {
                activities: old(self)@.credited(old(self)@.activities[index as int].id, minutes as nat),
                ..old(self)@
            }),
    {
        proof {
            lemma_index_of(self@, self@.activities[index as int].id, index as int);
        }
        let achieved = self.activities[index].acheived_minutes;
        self.activities[index].acheived_minutes = achieved.saturating_add(minutes);
        proof {
            let a = old(self)@.activities[index as int];
            assert(self@.activities =~= old(self)@.credited(a.id, minutes as nat));
        }
    }

    /// Ends the session at the current instant; see `end_activity_at`.
    pub fn end_activity(&mut self, override_pomo: bool) -> (r: Result<(), EndActivityError>)
        requires
            old(self)@.wf(),
        ensures
            final(self)@.wf(),
            exists|now: Timestamp| (final(self)@, r) == old(self)@.end_activity(override_pomo, now),
    {
        let now = crate::clock::now();
        self.end_activity_at(override_pomo, now)
    }

    /// Ends the session at instant `now`, adding its whole minutes to the
    /// activity; a pomodoro session ends only when `override_pomo` is set.
    pub fn end_activity_at(&mut self, override_pomo: bool, now: Timestamp) -> (r: Result<(), EndActivityError>)
        requires
            old(self)@.wf(),
        ensures
            final(self)@.wf(),
            (final(self)@, r) == old(self)@.end_activity(override_pomo, now),
    {
        proof {
            lemma_end_wf(self@, override_pomo, now);
        }
        if let Some(current) = self.current {
            if !override_pomo && current.pomo_minutes.is_some() {
                return Err(EndActivityError::PomoOngoing);
            }
            let minutes = elapsed_minutes_between(current.start_time, now);
            if let Some(index) = self.get_index_by_id(current.activity_id) {
                self.credit(index, minutes);
            }
            self.current = None;
            Ok(())
        } else {
            Err(EndActivityError::NoCurrentActivity)
        }
    }

    /// Adds minutes to what the activity achieved, capped at `usize::MAX`.
    pub fn add_time(&mut self, id: ActivityId, minutes: usize) -> (r: Result<(), ()>)
        requires
            old(self)@.wf(),
        ensures
            final(self)@.wf(),
            (final(self)@, r) == old(self)@.add_time(id@, minutes as nat),
    {
        proof {
            lemma_minutes_wf(self@, id@, minutes as nat);
        }
        if let Some(index) = self.get_index_by_id(id) {
            self.credit(index, minutes);
            Ok(())
        } else {
            Err(())
        }
    }

    /// Sets what the activity achieved.
    pub fn overwrite_time(&mut self, id: ActivityId, minutes: usize) -> (r: Result<(), ()>)
        requires
            old(self)@.wf(),
        ensures
            final(self)@.wf(),
            (final(self)@, r) == old(self)@.overwrite_time(id@, minutes as nat),
    {
        proof {
            lemma_minutes_wf(self@, id@, minutes as nat);
        }
        if let Some(index) = self.get_index_by_id(id) {
            self.activities[index].acheived_minutes = minutes;
            proof {
                assert(self@.activities =~= old(self)@.overwrite_time(id@, minutes as nat).0.activities);
            }
            Ok(())
        } else {
            Err(())
        }
    }

    /// Sets the activity's target.
    pub fn change_target(&mut self, id: ActivityId, minutes: usize) -> (r: Result<(), ()>)
        requires
            old(self)@.wf(),
        ensures
            final(self)@.wf(),
            (final(self)@, r) == old(self)@.change_target(id@, minutes as nat),
    {
        proof {
            lemma_minutes_wf(self@, id@, minutes as nat);
        }
        if let Some(index) = self.get_index_by_id(id) {
            self.activities[index].set_target_minutes(minutes);
            proof {
                assert(self@.activities =~= old(self)@.change_target(id@, minutes as nat).0.activities);
            }
            Ok(())
        } else {
            Err(())
        }
    }

    pub fn date(&self) -> (r: Date)
        ensures
            r == self@.date,
    {
        self.date
    }

    /// The store with every activity's achieved minutes reset and the day set
    /// to today; see `refresh_on`.
    pub fn refresh(self) -> (r: State)
        requires
            self@.wf(),
        ensures
            r@.wf(),
            exists|today: Date| r@ == self@.refresh(today),
    {
        let today = crate::clock::today();
        self.refresh_on(today)
    }

    /// The daily reset: nothing achieved, the day set to `today`, targets,
    /// ids, session, todos and buckets kept.
    pub fn refresh_on(self, today: Date) -> (r: State)
        requires
            self@.wf(),
        ensures
            r@.wf(),
            r@ == self@.refresh(today),
    {
        proof {
            lemma_refresh_wf(self@, today);
        }
        let mut r = self;
        r.date = today;
        let mut i: usize = 0;
        while i < r.activities.len()
            invariant
                i <= r@.activities.len(),
                r@.activities.len() == self@.activities.len(),
                r@.date == today,
                r@.next_id == self@.next_id,
                r@.current == self@.current,
                r@.buckets == self@.buckets,
                forall|j: int| 0 <= j < i ==> #[trigger] r.activities@[j]@ == (ActivityModel { achieved: 0, ..self@.activities[j] }),
                forall|j: int| i <= j < r@.activities.len() ==> #[trigger] r.activities@[j]@ == self@.activities[j],
            decreases r@.activities.len() - i,
        {
            proof {
                assert(r.activities@[i as int]@ == self@.activities[i as int]);
            }
            r.activities.set(i, r.activities[i].clone().with_acheived_reset());
            i += 1;
        }
        proof {
            assert(r@.activities =~= self@.refresh(today).activities);
        }
        r
    }

    /// Whole minutes the session has run so far, floored at zero.
    pub fn current_task_minutes(&self) -> (r: Option<usize>)
        ensures
            r is Some <==> self@.current is Some,
            r matches Some(m) ==> exists|now: Timestamp| m as nat == elapsed_minutes(self@.current.unwrap().start, now),
    {
        let now = crate::clock::now();
        self.current_task_minutes_at(now)
    }

    /// Whole minutes the session has run at `now`, floored at zero.
    pub fn current_task_minutes_at(&self, now: Timestamp) -> (r: Option<usize>)
        ensures
            r is Some <==> self@.current is Some,
            r matches Some(m) ==> m as nat == elapsed_minutes(self@.current.unwrap().start, now),
    {
        match self.current {
            Some(c) => Some(elapsed_minutes_between(c.start_time, now)),
            None => None,
        }
    }

    pub fn activity_by_id(&self, id: ActivityId) -> (r: Option<&Activity>)
        requires
            self@.wf(),
        ensures
            r is None <==> !self@.has_activity(id@),
            r matches Some(a) ==> a@ == self@.activities[self@.index_of(id@)],
    {
        match self.get_index_by_id(id) {
            Some(i) => Some(&self.activities[i]),
            None => None,
        }
    }

    /// Signed whole minutes the session has run so far, rounded toward zero.
    pub fn current_session_duration(&self) -> (r: Option<i64>)
        ensures
            r is Some <==> self@.current is Some,
            r matches Some(m) ==> exists|now: Timestamp| self@.session_minutes(now) == Some(m as int),
    {
        let now = crate::clock::now();
        self.current_session_duration_at(now)
    }

    /// Signed whole minutes the session has run at `now`, rounded toward zero.
    pub fn current_session_duration_at(&self, now: Timestamp) -> (r: Option<i64>)
        ensures
            match r {
                Some(m) => self@.session_minutes(now) == Some(m as int),
                None => self@.session_minutes(now) is None,
            },
    {
        match self.current {
            Some(c) => Some(signed_minutes_between(c.start_time, now)),
            None => None,
        }
    }

    /// The activity of the ongoing session.
    pub fn current_activity(&self) -> (r: Option<&Activity>)
        requires
            self@.wf(),
        ensures
            r is None <==> self@.current is None,
            r matches Some(a) ==> a@ == self@.activities[self@.index_of(self@.current.unwrap().activity_id)],
    {
        match self.current {
            Some(c) => self.activity_by_id(c.activity_id),
            None => None,
        }
    }

    pub fn activities_count(&self) -> (r: usize)
        ensures
            r as nat == self@.activities.len(),
    {
        self.activities.len()
    }

    /// The length of the ongoing pomodoro session, if one is ongoing.
    pub fn pomo_minutes(&self) -> (r: Option<usize>)
        ensures
            pomo_model(r) == match self@.current {
                Some(c) => c.pomo,
                None => None,
            },
    {
        match self.current {
            Some(c) => c.pomo_minutes,
            None => None,
        }
    }

    /// Ends a pomodoro session whose length has run out by now; see
    /// `check_pomodoro_expiry_at`.
    pub fn check_pomodoro_expiry(&mut self) -> (r: Option<PomodoroFinished>)
        requires
            old(self)@.wf(),
        ensures
            final(self)@.wf(),
            exists|now: Timestamp| {
                &&& final(self)@ == old(self)@.check_pomodoro_expiry(now).0
                &&& match r {
                    Some(p) => old(self)@.check_pomodoro_expiry(now).1 == Some((p.activity_id@, p.pomo_minutes as nat)),
                    None => old(self)@.check_pomodoro_expiry(now).1 is None,
                }
            },
    {
        let now = crate::clock::now();
        self.check_pomodoro_expiry_at(now)
    }

    /// At `now`, ends a pomodoro session that has run for at least its length
    /// (crediting its time) and reports it.
    pub fn check_pomodoro_expiry_at(&mut self, now: Timestamp) -> (r: Option<PomodoroFinished>)
        requires
            old(self)@.wf(),
        ensures
            final(self)@.wf(),
            final(self)@ == old(self)@.check_pomodoro_expiry(now).0,
            match r {
                Some(p) => old(self)@.check_pomodoro_expiry(now).1 == Some((p.activity_id@, p.pomo_minutes as nat)),
                None => old(self)@.check_pomodoro_expiry(now).1 is None,
            },
    {
        if let Some(c) = self.current {
            if let Some(p) = c.pomo_minutes {
                if signed_minutes_between(c.start_time, now) as i128 >= p as i128 {
                    let _ = self.end_activity_at(true, now);
                    return Some(PomodoroFinished { activity_id: c.activity_id, pomo_minutes: p });
                }
            }
        }
        None
    }

    /// The parts of the activity's line now; see `format_activity_at`.
    pub fn format_activity(&self, activity: &Activity, max_name_length: Option<usize>) -> (r: ActivityLine)
        ensures
            exists|now: Timestamp| r@ == self@.activity_line(activity@, width_model(max_name_length), now),
    {
        let now = crate::clock::now();
        self.format_activity_at(activity, max_name_length, now)
    }

    /// The parts of the activity's line at `now`: its status against the
    /// target (counting the session when it is the ongoing one), its name
    /// padded to `max_name_length`, and the minutes remaining out of the target.
    pub fn format_activity_at(&self, activity: &Activity, max_name_length: Option<usize>, now: Timestamp) -> (r: ActivityLine)
        ensures
            r@ == self@.activity_line(activity@, width_model(max_name_length), now),
    {
        let ongoing = match self.current {
            Some(c) => c.activity_id == activity.id,
            None => false,
        };
        let acheived = if ongoing {
            match self.current_task_minutes_at(now) {
                Some(m) => activity.acheived_minutes.saturating_add(m),
                None => activity.acheived_minutes,
            }
        } else {
            activity.acheived_minutes
        };
        let target = activity.target_minutes;
        let remaining = target.saturating_sub(acheived);
        let status = if ongoing {
            if acheived < target {
                ActivityStatus::Ongoing
            } else {
                ActivityStatus::Overwork
            }
        } else if acheived < target {
            ActivityStatus::NotDone
        } else {
            ActivityStatus::Complete
        };
        let name = match max_name_length {
            Some(w) => pad_name(activity.name.as_str(), w),
            None => activity.name.clone(),
        };
        ActivityLine { status, name, remaining, target }
    }

    /// The buckets, in display order.
    pub fn get_buckets(&self) -> (r: &Vec<Bucket>)
        ensures
            bucket_models(r@) == self@.buckets,
    {
        &self.buckets
    }

    /// Adds a bucket, or, when its name is taken, appends its todos to those
    /// of the existing bucket. True if the bucket was added.
    pub fn create_bucket(&mut self, bucket: Bucket) -> (r: bool)
        requires
            old(self)@.wf(),
        ensures
            final(self)@.wf(),
            (final(self)@, r) == old(self)@.create_bucket(bucket@),
    {
        proof {
            lemma_bucket_ops_wf(self@, bucket@, 0, 0, 0, Seq::empty());
        }
        let added = merge_into(&mut self.buckets, bucket);
        added
    }

    /// Deletes the bucket at `index` if it is empty and not the default one.
    /// True if it was deleted.
    pub fn delete_bucket(&mut self, index: usize) -> (r: bool)
        requires
            old(self)@.wf(),
        ensures
            final(self)@.wf(),
            (final(self)@, r) == old(self)@.delete_bucket(index as int),
    {
        proof {
            lemma_bucket_ops_wf(self@, self@.buckets[0], index as int, 0, 0, Seq::empty());
        }
        let default_name = String::from_str(DEFAULT_BUCKET_NAME);
        if index < self.buckets.len() && self.buckets[index].name != default_name
            && self.buckets[index].todos.len() == 0 {
            self.buckets.remove(index);
            proof {
                assert(self@.buckets =~= old(self)@.buckets.remove(index as int));
            }
            true
        } else {
            false
        }
    }

    /// Moves the bucket at `original_index` to position `new_index`.
    pub fn change_bucket_index(&mut self, original_index: usize, new_index: usize) -> (r: Result<(), BucketSwapError>)
        requires
            old(self)@.wf(),
        ensures
            final(self)@.wf(),
            (final(self)@, r) == old(self)@.change_bucket_index(original_index as int, new_index as int),
    {
        proof {
            lemma_bucket_ops_wf(self@, self@.buckets[0], 0, original_index as int, new_index as int, Seq::empty());
        }
        if original_index >= self.buckets.len() {
            Err(BucketSwapError::InvalidSelection)
        } else if new_index >= self.buckets.len() {
            Err(BucketSwapError::InvalidTargetIndex)
        } else {
            let bucket = self.buckets.remove(original_index);
            self.buckets.insert(new_index, bucket);
            proof {
                assert(self@.buckets =~= old(self)@.buckets.remove(original_index as int).insert(
                    new_index as int,
                    old(self)@.buckets[original_index as int],
                ));
            }
            Ok(())
        }
    }

    /// Exchanges the todos at `first` and `second` in bucket `bucket`.
    pub fn swap_todos(&mut self, bucket: usize, first: usize, second: usize) -> (r: Result<(), TodoSwapError>)
        requires
            old(self)@.wf(),
        ensures
            final(self)@.wf(),
            (final(self)@, r) == old(self)@.swap_todos(bucket as int, first as int, second as int),
    {
        proof {
            lemma_bucket_ops_wf(self@, self@.buckets[0], bucket as int, first as int, second as int, Seq::empty());
        }
        if bucket >= self.buckets.len() {
            return Err(TodoSwapError::InvalidBucket);
        }
        let n = self.buckets[bucket].todos.len();
        if first >= n {
            Err(TodoSwapError::FirstInvalid)
        } else if second >= n {
            Err(TodoSwapError::SecondInvalid)
        } else if first == second {
            Err(TodoSwapError::EqualIds)
        } else {
            let a = self.buckets[bucket].todos[first].clone();
            let b = self.buckets[bucket].todos[second].clone();
            self.buckets[bucket].todos.set(first, b);
            self.buckets[bucket].todos.set(second, a);
            proof {
                let m = old(self)@.swap_todos(bucket as int, first as int, second as int).0;
                assert(self@.buckets[bucket as int].todos =~= m.buckets[bucket as int].todos);
                assert(self@.buckets =~= m.buckets);
            }
            Ok(())
        }
    }

    /// Removes the todo at `index` of bucket `bucket`.
    pub fn delete_todo(&mut self, bucket: usize, index: usize) -> (r: Result<(), TodoDeletionError>)
        requires
            old(self)@.wf(),
        ensures
            final(self)@.wf(),
            (final(self)@, r) == old(self)@.delete_todo(bucket as int, index as int),
    {
        proof {
            lemma_bucket_ops_wf(self@, self@.buckets[0], bucket as int, index as int, 0, Seq::empty());
        }
        if bucket >= self.buckets.len() {
            Err(TodoDeletionError::InvalidIdOrBucket)
        } else if index >= self.buckets[bucket].todos.len() {
            Err(TodoDeletionError::InvalidId)
        } else {
            self.buckets[bucket].todos.remove(index);
            proof {
                let m = old(self)@.delete_todo(bucket as int, index as int).0;
                assert(self@.buckets[bucket as int].todos =~= m.buckets[bucket as int].todos);
                assert(self@.buckets =~= m.buckets);
            }
            Ok(())
        }
    }

    /// Moves the todo at `index` of bucket `bucket` to the end of bucket `dest`.
    pub fn move_todo_between_buckets(&mut self, bucket: usize, index: usize, dest: usize) -> (r: Result<(), TodoDeletionError>)
        requires
            old(self)@.wf(),
        ensures
            final(self)@.wf(),
            (final(self)@, r) == old(self)@.move_todo(bucket as int, index as int, dest as int),
    {
        proof {
            lemma_bucket_ops_wf(self@, self@.buckets[0], bucket as int, index as int, dest as int, Seq::empty());
        }
        if bucket >= self.buckets.len() || dest >= self.buckets.len() {
            Err(TodoDeletionError::InvalidIdOrBucket)
        } else if index >= self.buckets[bucket].todos.len() {
            Err(TodoDeletionError::InvalidId)
        } else {
            let item = self.buckets[bucket].todos.remove(index);
            proof {
                let s1 = old(self)@.with_todos(bucket as int, old(self)@.buckets[bucket as int].todos.remove(index as int));
                assert(self@.buckets[bucket as int].todos =~= s1.buckets[bucket as int].todos);
                assert(self@.buckets =~= s1.buckets);
            }
            let ghost mid = self@;
            self.buckets[dest].todos.push(item);
            proof {
                let m = mid.with_todos(dest as int, mid.buckets[dest as int].todos.push(item@));
                assert(self@.buckets[dest as int].todos =~= m.buckets[dest as int].todos);
                assert(self@.buckets =~= m.buckets);
            }
            Ok(())
        }
    }

    /// Appends a todo to bucket `bucket`. True if that bucket exists.
    pub fn add_todo(&mut self, bucket: usize, todo: TodoItem) -> (r: bool)
        requires
            old(self)@.wf(),
        ensures
            final(self)@.wf(),
            (final(self)@, r) == old(self)@.add_todo(bucket as int, todo@),
    {
        proof {
            lemma_bucket_ops_wf(self@, self@.buckets[0], bucket as int, 0, 0, todo@);
        }
        if bucket < self.buckets.len() {
            self.buckets[bucket].push_todo(todo);
            proof {
                assert(self@.buckets =~= old(self)@.add_todo(bucket as int, todo@).0.buckets);
            }
            true
        } else {
            false
        }
    }

    /// The store that a stored record loads into on day `today` (see
    /// `StateBuilder::loaded`).
    pub fn from_builder(value: StateBuilder, today: Date) -> (r: State)
        ensures
            r@.wf(),
            r@ == value.loaded(today),
    {
        let ghost v = value;
        let had_activities = value.activities.is_some();
        // activities, without repeated ids
        let list: Vec<Activity> = match value.activities {
            Some(list) => list,
            None => Vec::new(),
        };
        let ghost ls = activity_models(list@);
        proof {
            assert(ls == v.activity_list());
        }
        let mut activities: Vec<Activity> = Vec::new();
        let mut i: usize = 0;
        while i < list.len()
            invariant
                ls == activity_models(list@),
                i <= list@.len(),
                activity_models(activities@) == kept_activities(ls.subrange(0, i as int)),
            decreases list@.len() - i,
        {
            proof {
                assert(ls.subrange(0, i + 1).drop_last() =~= ls.subrange(0, i as int));
            }
            let found = position_of(&activities, list[i].id);
            match found {
                None => {
                    activities.push(list[i].clone());
                    proof {
                        assert(activity_models(activities@) =~= kept_activities(ls.subrange(0, i + 1)));
                    }
                },
                Some(k) => {
                    proof {
                        assert(activity_models(activities@)[k as int].id == ls[i as int].id);
                    }
                },
            }
            i += 1;
        }
        proof {
            assert(ls.subrange(0, i as int) =~= ls);
        }
        let kept_max = largest_id(&activities);
        let stored_next = match value.next_activity_id {
            Some(n) => n,
            None => if !had_activities {
                0
            } else {
                largest_id(&list).saturating_add(1)
            },
        };
        let next_activity_id = if stored_next >= kept_max { stored_next } else { kept_max };
        let current = match value.current {
            Some(c) => match position_of(&activities, c.activity_id) {
                Some(k) => {
                    proof {
                        assert(activity_models(activities@)[k as int].id == c@.activity_id);
                    }
                    Some(c)
                },
                None => None,
            },
            None => None,
        };
        let date = match value.date {
            Some(d) => d,
            None => today,
        };

        // buckets, in the order of the layouts' history
        let mut buckets: Vec<Bucket> = Vec::new();
        let stored: Vec<Bucket> = match value.buckets_v2 {
            Some(b) => b,
            None => Vec::new(),
        };
        let ghost st = bucket_models(stored@);
        let mut i: usize = 0;
        while i < stored.len()
            invariant
                st == bucket_models(stored@),
                i <= stored@.len(),
                names_unique(bucket_models(buckets@)),
                bucket_models(buckets@) == merge_all(Seq::empty(), st.subrange(0, i as int)),
            decreases stored@.len() - i,
        {
            proof {
                assert(st.subrange(0, i + 1).drop_last() =~= st.subrange(0, i as int));
                lemma_merged(bucket_models(buckets@), st[i as int]);
            }
            merge_into(&mut buckets, stored[i].clone());
            i += 1;
        }
        proof {
            assert(st.subrange(0, i as int) =~= st);
        }
        let ghost b1 = bucket_models(buckets@);
        let names: Vec<String> = match value.buckets {
            Some(n) => n,
            None => Vec::new(),
        };
        let ghost ns = names@.map_values(|n: String| empty_bucket(n@));
        let mut i: usize = 0;
        while i < names.len()
            invariant
                ns == names@.map_values(|n: String| empty_bucket(n@)),
                i <= names@.len(),
                names_unique(bucket_models(buckets@)),
                bucket_models(buckets@) == merge_all(b1, ns.subrange(0, i as int)),
            decreases names@.len() - i,
        {
            proof {
                assert(ns.subrange(0, i + 1).drop_last() =~= ns.subrange(0, i as int));
                lemma_merged(bucket_models(buckets@), ns[i as int]);
            }
            let b = Bucket::new(names[i].clone(), Vec::new());
            proof {
                assert(b@.todos =~= ns[i as int].todos);
            }
            merge_into(&mut buckets, b);
            i += 1;
        }
        proof {
            assert(ns.subrange(0, i as int) =~= ns);
            lemma_merged(bucket_models(buckets@), empty_bucket(default_bucket_name()));
        }
        let d = Bucket::new(String::from_str(DEFAULT_BUCKET_NAME), Vec::new());
        proof {
            assert(d@.todos =~= empty_bucket(default_bucket_name()).todos);
        }
        merge_into(&mut buckets, d);
        let ghost b2 = bucket_models(buckets@);
        let oldest: Vec<String> = match value.todo {
            Some(t) => t,
            None => Vec::new(),
        };
        let ghost os = oldest@.map_values(|t: String| default_todo_bucket(t));
        let mut i: usize = 0;
        while i < oldest.len()
            invariant
                os == oldest@.map_values(|t: String| default_todo_bucket(t)),
                i <= oldest@.len(),
                names_unique(bucket_models(buckets@)),
                has_name(bucket_models(buckets@), default_bucket_name()),
                bucket_models(buckets@) == merge_all(b2, os.subrange(0, i as int)),
            decreases oldest@.len() - i,
        {
            proof {
                assert(os.subrange(0, i + 1).drop_last() =~= os.subrange(0, i as int));
                lemma_merged(bucket_models(buckets@), os[i as int]);
            }
            let b = Bucket::new(String::from_str(DEFAULT_BUCKET_NAME), vec![TodoItem::new(oldest[i].clone())]);
            proof {
                assert(b@.todos =~= os[i as int].todos);
            }
            merge_into(&mut buckets, b);
            i += 1;
        }
        proof {
            assert(os.subrange(0, i as int) =~= os);
        }
        let ghost b3 = bucket_models(buckets@);
        let older: Vec<TodoItemOld> = match value.todo_v2 {
            Some(t) => t,
            None => Vec::new(),
        };
        let ghost es = older@.map_values(|t: TodoItemOld| old_todo_bucket(t));
        let mut i: usize = 0;
        while i < older.len()
            invariant
                es == older@.map_values(|t: TodoItemOld| old_todo_bucket(t)),
                i <= older@.len(),
                names_unique(bucket_models(buckets@)),
                has_name(bucket_models(buckets@), default_bucket_name()),
                bucket_models(buckets@) == merge_present_all(b3, es.subrange(0, i as int)),
            decreases older@.len() - i,
        {
            proof {
                assert(es.subrange(0, i + 1).drop_last() =~= es.subrange(0, i as int));
                lemma_merged(bucket_models(buckets@), es[i as int]);
            }
            let name = match &older[i].bucket {
                Some(n) => n.clone(),
                None => String::from_str(DEFAULT_BUCKET_NAME),
            };
            if bucket_index_by_name(&buckets, &name).is_some() {
                let b = Bucket::new(name, vec![TodoItem::new(older[i].item.clone())]);
                proof {
                    assert(b@.todos =~= es[i as int].todos);
                }
                merge_into(&mut buckets, b);
            }
            i += 1;
        }
        proof {
            assert(es.subrange(0, i as int) =~= es);
        }
        let r = State { date, activities, next_activity_id, current, buckets };
        proof {
            lemma_kept_unique(v.activity_list());
            lemma_max_id(r@.activities);
            assert(r@.buckets == v.loaded_buckets());
            assert(r@.activities == v.loaded(today).activities);
            assert(r@.date == v.loaded(today).date);
            assert(r@.current == v.loaded(today).current);
            assert(r@.next_id == v.loaded(today).next_id);
            assert(r@ == v.loaded(today));
        }
        r
    }

    /// Loads a stored record on the current day; see `load`.
    pub fn load_today(value: StateBuilder) -> (r: State)
        ensures
            r@.wf(),
            exists|today: Date| r@ == (if value.loaded(today).date == today {
                value.loaded(today)
            } else {
                value.loaded(today).refresh(today)
            }),
    {
        let today = crate::clock::today();
        State::load(value, today)
    }

    /// Loads a stored record on day `today`: a record of another day is
    /// refreshed (its achieved minutes reset).
    pub fn load(value: StateBuilder, today: Date) -> (r: State)
        ensures
            r@.wf(),
            r@ == (if value.loaded(today).date == today {
                value.loaded(today)
            } else {
                value.loaded(today).refresh(today)
            }),
    {
        let state = State::from_builder(value, today);
        if state.date == today {
            state
        } else {
            state.refresh_on(today)
        }
    }

    /// The record that stores this state, in the current layout.
    pub fn to_builder(&self) -> (r: StateBuilder)
        ensures
            r.date == Some(self@.date),
            r.activities matches Some(v) && activity_models(v@) == self@.activities,
            r.next_activity_id == Some(self@.next_id as usize),
            session_model(r.current) == self@.current,
            r.todo is None,
            r.todo_v2 is None,
            r.buckets is None,
            r.buckets_v2 matches Some(v) && bucket_models(v@) == self@.buckets,
    {
        let mut activities: Vec<Activity> = Vec::new();
        let mut i: usize = 0;
        while i < self.activities.len()
            invariant
                i <= self.activities@.len(),
                activities@.len() == i,
                forall|j: int| 0 <= j < i ==> #[trigger] activities@[j]@ == self.activities@[j]@,
            decreases self.activities@.len() - i,
        {
            activities.push(self.activities[i].clone());
            i += 1;
        }
        let mut buckets: Vec<Bucket> = Vec::new();
        let mut i: usize = 0;
        while i < self.buckets.len()
            invariant
                i <= self.buckets@.len(),
                buckets@.len() == i,
                forall|j: int| 0 <= j < i ==> #[trigger] buckets@[j]@ == self.buckets@[j]@,
            decreases self.buckets@.len() - i,
        {
            buckets.push(self.buckets[i].clone());
            i += 1;
        }
        proof {
            assert(activity_models(activities@) =~= self@.activities);
            assert(bucket_models(buckets@) =~= self@.buckets);
        }
        StateBuilder {
            date: Some(self.date),
            activities: Some(activities),
            next_activity_id: Some(self.next_activity_id),
            current: self.current,
            todo: None,
            todo_v2: None,
            buckets: None,
            buckets_v2: Some(buckets),
        }
    }

    /// The id counter: the last id handed out (zero before any).
    pub fn next_activity_id(&self) -> (r: usize)
        ensures
            r as nat == self@.next_id,
    {
        self.next_activity_id
    }
}

/// A saved record loads back into the very state that was saved: the
/// record that `to_builder` writes for a store, loaded on any day, is that
/// store.
pub proof fn lemma_saved_record_loads_back(state: State, record: StateBuilder, today: Date)
    requires
        state@.wf(),
        record.date == Some(state@.date),
        record.activities matches Some(v) && activity_models(v@) == state@.activities,
        record.next_activity_id == Some(state@.next_id as usize),
        session_model(record.current) == state@.current,
        record.todo is None,
        record.todo_v2 is None,
        record.buckets is None,
        record.buckets_v2 matches Some(v) && bucket_models(v@) == state@.buckets,
    ensures
        record.loaded(today) == state@,
{
    let s = state@;
    assert(s.next_id <= usize::MAX);
    lemma_kept_all(s.activities);
    lemma_max_id_at_most(s.activities, s.next_id);
    lemma_merge_all_unique(s.buckets);
    lemma_merge_empty_present(s.buckets, default_bucket_name());
    assert(record.activity_list() == s.activities);
    assert(record.loaded_buckets() == s.buckets);
    if let Some(c) = s.current {
        assert(has_id(s.activities, c.activity_id));
    }
    assert(record.loaded(today).current == s.current);
}

} // verus!
