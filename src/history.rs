//! What holds of the store across any sequence of its operations.
use crate::clock::{elapsed_minutes, saturating_sum, Date, Timestamp};
use crate::model::{
    empty_bucket, lemma_add_activity_wf, lemma_bucket_ops_wf, lemma_delete_wf, lemma_end_wf, lemma_minutes_wf,
    lemma_refresh_wf, lemma_start_wf, ActivityModel, BucketModel, StateModel,
};
use crate::state::{default_bucket_name, EndActivityError, StartActivityError};
use vstd::prelude::*;

verus! {

/// One operation of the store, with its arguments.
pub enum Op {
    AddActivity { name: Seq<char>, target: nat },
    Delete { id: nat },
    Start { id: nat, pomo: Option<nat>, now: Timestamp },
    End { override_pomo: bool, now: Timestamp },
    AddTime { id: nat, minutes: nat },
    OverwriteTime { id: nat, minutes: nat },
    ChangeTarget { id: nat, minutes: nat },
    Refresh { today: Date },
    CheckPomodoroExpiry { now: Timestamp },
    CreateBucket { bucket: BucketModel },
    DeleteBucket { index: int },
    MoveBucket { from: int, to: int },
    SwapTodos { bucket: int, first: int, second: int },
    DeleteTodo { bucket: int, index: int },
    MoveTodo { bucket: int, index: int, dest: int },
    AddTodo { bucket: int, item: Seq<char> },
}

/// The store after one operation.
pub open spec fn apply(s: StateModel, op: Op) -> StateModel {
    match op {
        Op::AddActivity { name, target } => s.add_activity(name, target).0,
        Op::Delete { id } => s.delete(id).0,
        Op::Start { id, pomo, now } => s.start_activity_pomo(id, pomo, now).0,
        Op::End { override_pomo, now } => s.end_activity(override_pomo, now).0,
        Op::AddTime { id, minutes } => s.add_time(id, minutes).0,
        Op::OverwriteTime { id, minutes } => s.overwrite_time(id, minutes).0,
        Op::ChangeTarget { id, minutes } => s.change_target(id, minutes).0,
        Op::Refresh { today } => s.refresh(today),
        Op::CheckPomodoroExpiry { now } => s.check_pomodoro_expiry(now).0,
        Op::CreateBucket { bucket } => s.create_bucket(bucket).0,
        Op::DeleteBucket { index } => s.delete_bucket(index).0,
        Op::MoveBucket { from, to } => s.change_bucket_index(from, to).0,
        Op::SwapTodos { bucket, first, second } => s.swap_todos(bucket, first, second).0,
        Op::DeleteTodo { bucket, index } => s.delete_todo(bucket, index).0,
        Op::MoveTodo { bucket, index, dest } => s.move_todo(bucket, index, dest).0,
        Op::AddTodo { bucket, item } => s.add_todo(bucket, item).0,
    }
}

/// The store after a sequence of operations, applied in order.
pub open spec fn apply_all(s: StateModel, ops: Seq<Op>) -> StateModel
    decreases ops.len(),
{
    if ops.len() == 0 {
        s
    } else {
        apply(apply_all(s, ops.drop_last()), ops.last())
    }
}

/// Every operation keeps the invariants and never lowers the id counter.
pub proof fn lemma_apply_wf(s: StateModel, op: Op)
    requires
        s.wf(),
    ensures
        apply(s, op).wf(),
        apply(s, op).next_id >= s.next_id,
{
    match op {
        Op::AddActivity { name, target } => lemma_add_activity_wf(s, name, target),
        Op::Delete { id } => lemma_delete_wf(s, id),
        Op::Start { id, pomo, now } => lemma_start_wf(s, id, pomo, now),
        Op::End { override_pomo, now } => lemma_end_wf(s, override_pomo, now),
        Op::AddTime { id, minutes } => lemma_minutes_wf(s, id, minutes),
        Op::OverwriteTime { id, minutes } => lemma_minutes_wf(s, id, minutes),
        Op::ChangeTarget { id, minutes } => lemma_minutes_wf(s, id, minutes),
        Op::Refresh { today } => lemma_refresh_wf(s, today),
        Op::CheckPomodoroExpiry { now } => lemma_end_wf(s, true, now),
        Op::CreateBucket { bucket } => lemma_bucket_ops_wf(s, bucket, 0, 0, 0, Seq::empty()),
        Op::DeleteBucket { index } => lemma_bucket_ops_wf(s, empty_bucket(Seq::empty()), index, 0, 0, Seq::empty()),
        Op::MoveBucket { from, to } => lemma_bucket_ops_wf(s, empty_bucket(Seq::empty()), 0, from, to, Seq::empty()),
        Op::SwapTodos { bucket, first, second } =>
            lemma_bucket_ops_wf(s, empty_bucket(Seq::empty()), bucket, first, second, Seq::empty()),
        Op::DeleteTodo { bucket, index } =>
            lemma_bucket_ops_wf(s, empty_bucket(Seq::empty()), bucket, index, 0, Seq::empty()),
        Op::MoveTodo { bucket, index, dest } =>
            lemma_bucket_ops_wf(s, empty_bucket(Seq::empty()), bucket, index, dest, Seq::empty()),
        Op::AddTodo { bucket, item } => lemma_bucket_ops_wf(s, empty_bucket(Seq::empty()), bucket, 0, 0, item),
    }
}

/// Any sequence of operations keeps the invariants and never lowers the id counter.
pub proof fn lemma_apply_all_wf(s: StateModel, ops: Seq<Op>)
    requires
        s.wf(),
    ensures
        apply_all(s, ops).wf(),
        apply_all(s, ops).next_id >= s.next_id,
    decreases ops.len(),
{
    if ops.len() > 0 {
        lemma_apply_all_wf(s, ops.drop_last());
        lemma_apply_wf(apply_all(s, ops.drop_last()), ops.last());
    }
}

/// Ids handed out by `add_activity` strictly increase: whatever operations
/// (deletions included) run between two additions, the second id is larger
/// than the first, and neither is held by an activity present when it is
/// handed out, so an id is never reused.
pub proof fn lemma_activity_ids_increase(
    s: StateModel,
    name1: Seq<char>,
    target1: nat,
    ops: Seq<Op>,
    name2: Seq<char>,
    target2: nat,
)
    requires
        s.wf(),
    ensures
        ({
            let (s1, id1) = s.add_activity(name1, target1);
            let s2 = apply_all(s1, ops);
            let (_, id2) = s2.add_activity(name2, target2);
            &&& id1 < id2
            &&& !s.has_activity(id1)
            &&& !s2.has_activity(id2)
        }),
{
    let (s1, id1) = s.add_activity(name1, target1);
    lemma_add_activity_wf(s, name1, target1);
    lemma_apply_all_wf(s1, ops);
}

/// After any sequence of operations exactly one bucket has the default
/// name, and deleting that bucket does nothing.
pub proof fn lemma_default_bucket_stays(s: StateModel, ops: Seq<Op>)
    requires
        s.wf(),
    ensures
        ({
            let t = apply_all(s, ops);
            &&& exists|i: int| 0 <= i < t.buckets.len() && t.buckets[i].name == default_bucket_name()
            &&& forall|i: int, j: int|
                0 <= i < t.buckets.len() && 0 <= j < t.buckets.len() && t.buckets[i].name == default_bucket_name()
                    && t.buckets[j].name == default_bucket_name() ==> i == j
            &&& forall|i: int| 0 <= i < t.buckets.len() && t.buckets[i].name == default_bucket_name()
                ==> #[trigger] t.delete_bucket(i) == (t, false)
        }),
{
    lemma_apply_all_wf(s, ops);
}

/// No session starts while one is ongoing; ending without override fails
/// with `PomoOngoing` exactly when the session is a pomodoro one, and
/// otherwise succeeds, clears the session and adds the session's whole
/// minutes (floored at zero) to its activity.
pub proof fn lemma_session_rules(s: StateModel, id: nat, pomo: Option<nat>, now: Timestamp)
    requires
        s.wf(),
    ensures
        s.current is Some ==> s.start_activity_pomo(id, pomo, now) == (s, Err::<(), _>(StartActivityError::AlreadyOngoing)),
        s.current matches Some(c) ==> (s.end_activity(false, now).1 == Err::<(), _>(EndActivityError::PomoOngoing)
            <==> c.pomo is Some),
        s.current is Some && s.current.unwrap().pomo is None ==> ({
            let c = s.current.unwrap();
            let (t, r) = s.end_activity(false, now);
            let i = s.index_of(c.activity_id);
            &&& r is Ok
            &&& t.current is None
            &&& t.activities.len() == s.activities.len()
            &&& t.activities[i] == (ActivityModel {
                achieved: saturating_sum(s.activities[i].achieved, elapsed_minutes(c.start, now)),
                ..s.activities[i]
            })
            &&& forall|j: int| 0 <= j < s.activities.len() && j != i ==> t.activities[j] == s.activities[j]
        }),
{
    if let Some(c) = s.current {
        assert(s.has_activity(c.activity_id));
    }
}

/// Refreshing twice on the same day is the same as refreshing once, and a
/// refresh keeps every activity's id, name and target (zeroing only what it
/// achieved), the counter, the session and all buckets with their todos.
pub proof fn lemma_refresh_idempotent(s: StateModel, today: Date)
    ensures
        s.refresh(today).refresh(today) == s.refresh(today),
        s.refresh(today).activities.len() == s.activities.len(),
        forall|i: int| 0 <= i < s.activities.len() ==> {
            let a = #[trigger] s.refresh(today).activities[i];
            a.id == s.activities[i].id && a.name == s.activities[i].name && a.target == s.activities[i].target
                && a.achieved == 0
        },
        s.refresh(today).next_id == s.next_id,
        s.refresh(today).current == s.current,
        s.refresh(today).buckets == s.buckets,
        s.refresh(today).date == today,
{
    assert(s.refresh(today).refresh(today).activities =~= s.refresh(today).activities);
}

} // verus!
