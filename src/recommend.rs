//! The "what to work on next" decision.
use crate::clock::{elapsed_minutes, elapsed_minutes_between, Timestamp};
use crate::model::{ActivityModel, StateModel};
use crate::state::{Activity, State};
use vstd::prelude::*;

verus! {

/// The activity has not reached its target.
pub open spec fn unfinished(a: ActivityModel) -> bool {
    a.achieved < a.target
}

/// `i` is the first of the unfinished activities with the fewest achieved minutes.
pub open spec fn is_recommended(acts: Seq<ActivityModel>, i: int) -> bool {
    &&& 0 <= i < acts.len()
    &&& unfinished(acts[i])
    &&& forall|j: int| 0 <= j < acts.len() && unfinished(#[trigger] acts[j]) ==> acts[i].achieved <= acts[j].achieved
    &&& forall|j: int| 0 <= j < i && unfinished(#[trigger] acts[j]) ==> acts[j].achieved > acts[i].achieved
}

/// The decision, by index into the activities.
pub enum Recommendation {
    /// Work on this activity next.
    Activity(int),
    /// Every activity has reached its target.
    NoMoreTasks,
    /// This activity's session is ongoing and has not reached the target.
    Ongoing(int),
    /// This activity's session is ongoing and, counting it, the target is reached.
    OngoingCompleted(int),
}

/// What to work on next at `now`: while a session is ongoing, its activity
/// and whether (counting the session) its target is reached; else the first
/// unfinished activity with the fewest achieved minutes, if any.
pub open spec fn recommendation(s: StateModel, now: Timestamp) -> Recommendation {
    match s.current {
        Some(c) => {
            let i = s.index_of(c.activity_id);
            let a = s.activities[i];
            if a.achieved + elapsed_minutes(c.start, now) >= a.target {
                Recommendation::OngoingCompleted(i)
            } else {
                Recommendation::Ongoing(i)
            }
        },
        None => if exists|i: int| is_recommended(s.activities, i) {
            Recommendation::Activity(choose|i: int| is_recommended(s.activities, i))
        } else {
            Recommendation::NoMoreTasks
        },
    }
}

/// At most one index is the recommended one.
pub proof fn lemma_recommended_unique(acts: Seq<ActivityModel>, i: int, k: int)
    requires
        is_recommended(acts, i),
        is_recommended(acts, k),
    ensures
        i == k,
{
    if i < k {
        assert(acts[i].achieved > acts[k].achieved);
    } else if k < i {
        assert(acts[k].achieved > acts[i].achieved);
    }
}

/// The engine never recommends an activity that reached its target: a
/// recommended activity is unfinished, and an activity whose target is
/// reached is only ever reported as the ongoing session (`OngoingCompleted`).
pub proof fn lemma_recommendation_unfinished(s: StateModel, now: Timestamp)
    requires
        s.wf(),
    ensures
        match recommendation(s, now) {
            Recommendation::Activity(i) => 0 <= i < s.activities.len() && unfinished(s.activities[i])
                && s.current is None,
            Recommendation::Ongoing(i) => 0 <= i < s.activities.len() && unfinished(s.activities[i])
                && s.is_current(s.activities[i].id),
            Recommendation::OngoingCompleted(i) => 0 <= i < s.activities.len()
                && s.is_current(s.activities[i].id),
            Recommendation::NoMoreTasks => s.current is None
                && forall|j: int| 0 <= j < s.activities.len() ==> !unfinished(#[trigger] s.activities[j]),
        },
{
    match s.current {
        Some(c) => {
            assert(s.has_activity(c.activity_id));
        },
        None => {
            if !exists|i: int| is_recommended(s.activities, i) {
                assert forall|j: int| 0 <= j < s.activities.len() implies !unfinished(#[trigger] s.activities[j]) by {
                    if unfinished(s.activities[j]) {
                        // the first unfinished one with the fewest minutes would be recommended
                        lemma_some_recommended(s.activities, j);
                    }
                }
            }
        },
    }
}

/// When some activity is unfinished, one is recommended.
pub proof fn lemma_some_recommended(acts: Seq<ActivityModel>, j: int)
    requires
        0 <= j < acts.len(),
        unfinished(acts[j]),
    ensures
        exists|i: int| is_recommended(acts, i),
    decreases acts.len(),
{
    let n = acts.len() - 1;
    let last = acts[n];
    let init = acts.drop_last();
    if exists|k: int| 0 <= k < n && unfinished(acts[k]) {
        let k = choose|k: int| 0 <= k < n && unfinished(acts[k]);
        assert(init[k] == acts[k]);
        lemma_some_recommended(init, k);
        let i = choose|i: int| is_recommended(init, i);
        assert(init[i] == acts[i]);
        if unfinished(last) && last.achieved < acts[i].achieved {
            assert forall|k: int| 0 <= k < n && unfinished(#[trigger] acts[k]) implies acts[k].achieved > last.achieved by {
                assert(init[k] == acts[k]);
            }
            assert(is_recommended(acts, n));
        } else {
            assert forall|k: int| 0 <= k < acts.len() && unfinished(#[trigger] acts[k]) implies acts[i].achieved <= acts[k].achieved by {
                if k < n {
                    assert(init[k] == acts[k]);
                }
            }
            assert forall|k: int| 0 <= k < i && unfinished(#[trigger] acts[k]) implies acts[k].achieved > acts[i].achieved by {
                assert(init[k] == acts[k]);
            }
            assert(is_recommended(acts, i));
        }
    } else {
        assert(is_recommended(acts, n));
    }
}

/// The outcomes other than a recommended activity.
#[derive(Debug)]
pub enum FindRecommendedActionError<'a> {
    NoMoreTasks,
    Ongoing(&'a Activity),
    OngoingCompleted(&'a Activity),
}

/// What to work on next, now; see `find_recommended_action_at`.
pub fn find_recommended_action<'a>(current_state: &'a State) -> (r: Result<&'a Activity, FindRecommendedActionError<'a>>)
    requires
        current_state@.wf(),
    ensures
        exists|now: Timestamp| matches_recommendation(current_state@, r, now),
{
    let now = crate::clock::now();
    find_recommended_action_at(current_state, now)
}

/// The outcome `r` is the decision `recommendation(s, now)`.
pub open spec fn matches_recommendation(
    s: StateModel,
    r: Result<&Activity, FindRecommendedActionError>,
    now: Timestamp,
) -> bool {
    match recommendation(s, now) {
        Recommendation::Activity(i) => r matches Ok(a) && a@ == s.activities[i],
        Recommendation::NoMoreTasks => r matches Err(FindRecommendedActionError::NoMoreTasks),
        Recommendation::Ongoing(i) => r matches Err(FindRecommendedActionError::Ongoing(a)) && a@ == s.activities[i],
        Recommendation::OngoingCompleted(i) => r matches Err(FindRecommendedActionError::OngoingCompleted(a))
            && a@ == s.activities[i],
    }
}

/// What to work on next at `now` (see `recommendation`).
pub fn find_recommended_action_at<'a>(current_state: &'a State, now: Timestamp) -> (r: Result<&'a Activity, FindRecommendedActionError<'a>>)
    requires
        current_state@.wf(),
    ensures
        matches_recommendation(current_state@, r, now),
{
    let ghost s = current_state@;
    if let Some(current) = current_state.current() {
        let task = match current_state.activity_by_id(current.activity_id()) {
            Some(a) => a,
            None => {
                proof {
                    assert(s.has_activity(current@.activity_id));
                }
                return Err(FindRecommendedActionError::NoMoreTasks);
            },
        };
        let elapsed = elapsed_minutes_between(current.start_time(), now);
        if task.acheived_minutes() >= task.target_minutes()
            || elapsed >= task.target_minutes() - task.acheived_minutes() {
            Err(FindRecommendedActionError::OngoingCompleted(task))
        } else {
            Err(FindRecommendedActionError::Ongoing(task))
        }
    } else {
        let activities = current_state.activities();
        let mut best: Option<usize> = None;
        let mut i: usize = 0;
        while i < activities.len()
            invariant
                s == current_state@,
                crate::state::activity_models(activities@) == s.activities,
                i <= activities@.len(),
                match best {
                    Some(b) => b < i && is_recommended(s.activities.subrange(0, i as int), b as int),
                    None => forall|j: int| 0 <= j < i ==> !unfinished(#[trigger] s.activities[j]),
                },
            decreases activities@.len() - i,
        {
            let a = &activities[i];
            let sub = Ghost(s.activities.subrange(0, i + 1));
            proof {
                assert(sub@[i as int] == s.activities[i as int]);
                assert forall|j: int| 0 <= j < i implies #[trigger] sub@[j] == s.activities.subrange(0, i as int)[j] by {}
            }
            if a.acheived_minutes() < a.target_minutes() {
                match best {
                    Some(b) => {
                        if a.acheived_minutes() < activities[b].acheived_minutes() {
                            best = Some(i);
                        }
                    },
                    None => {
                        best = Some(i);
                    },
                }
            }
            i += 1;
        }
        proof {
            assert(s.activities.subrange(0, i as int) =~= s.activities);
        }
        match best {
            Some(b) => {
                proof {
                    lemma_recommended_unique(s.activities, b as int, choose|k: int| is_recommended(s.activities, k));
                }
                Ok(&activities[b])
            },
            None => {
                proof {
                    assert forall|k: int| !is_recommended(s.activities, k) by {}
                }
                Err(FindRecommendedActionError::NoMoreTasks)
            },
        }
    }
}

} // verus!
