//! Task view classification: the Today, Postponed and DoneSince views over a
//! user's tasks, each a filter predicate and an ordering evaluated at one
//! instant.
//!
//! The Today/Postponed boundary is 23:59:59 of the *process-local* calendar
//! day, not the requesting user's zone; the strict `<=` versus `>` split at
//! that boundary makes the two views an exact partition of the user's open,
//! active tasks.

use vstd::prelude::*;

use crate::models::Task;
use crate::seq_facts::lemma_filter_distinct_keys;
use crate::time::{end_of_today_epoch_seconds, valid_instant, SECS_PER_DAY};

verus! {

broadcast use vstd::seq_lib::group_to_multiset_ensures;

/// A view request as it arrives from the query string.
#[derive(Clone, Copy, Debug, PartialEq, Eq, Structural)]
pub enum TaskSetType {
    Today,
    Postponed,
    Done,
}

impl Default for TaskSetType {
    /// The view requested when the query names none.
    fn default() -> (r: Self)
        ensures
            r == TaskSetType::Today,
    {
        TaskSetType::Today
    }
}

/// Parses the `q` query value; every other string is refused.
pub fn parse_task_set_type(text: &str) -> (r: Option<TaskSetType>)
    ensures
        match r {
            Some(TaskSetType::Today) => text@ == "today"@,
            Some(TaskSetType::Postponed) => text@ == "postponed"@,
            Some(TaskSetType::Done) => text@ == "done"@,
            None => text@ != "today"@ && text@ != "postponed"@ && text@ != "done"@,
        },
{
    if crate::models::str_eq(text, "today") {
        Some(TaskSetType::Today)
    } else if crate::models::str_eq(text, "postponed") {
        Some(TaskSetType::Postponed)
    } else if crate::models::str_eq(text, "done") {
        Some(TaskSetType::Done)
    } else {
        None
    }
}

/// A fully-determined view: DoneSince carries its horizon, the earliest
/// completion instant still shown.
#[derive(Clone, Copy, Debug, PartialEq, Eq, Structural)]
pub enum TaskSet {
    Today,
    Postponed,
    DoneSince(i64),
}

/// The horizon used when none is supplied: fourteen days before `now`.
pub open spec fn spec_default_horizon(now: int) -> int {
    now - 14 * 86400
}

/// The default DoneSince horizon, `now` minus fourteen days.
pub fn default_horizon(now: i64) -> (r: i64)
    requires
        valid_instant(now as int),
    ensures
        r as int == spec_default_horizon(now as int),
{
    now - 14 * SECS_PER_DAY
}

/// Turns the parsed query pair into a view: a days count is meaningful only
/// for the Done view, where it sets the horizon that many days before `now`;
/// omitting it there falls back to the fourteen-day default.
pub fn task_set_from_query(typ: TaskSetType, days: Option<u8>, now: i64) -> (r: Option<
    TaskSet,
>)
    requires
        valid_instant(now as int),
    ensures
        match (typ, days) {
            (TaskSetType::Today, None) => r == Some(TaskSet::Today),
            (TaskSetType::Postponed, None) => r == Some(TaskSet::Postponed),
            (TaskSetType::Done, Some(d)) => match r {
                Some(TaskSet::DoneSince(h)) => h as int == now as int - d as int * 86400,
                _ => false,
            },
            (TaskSetType::Done, None) => match r {
                Some(TaskSet::DoneSince(h)) => h as int == spec_default_horizon(now as int),
                _ => false,
            },
            _ => r is None,
        },
{
    match (typ, days) {
        (TaskSetType::Today, None) => Some(TaskSet::Today),
        (TaskSetType::Postponed, None) => Some(TaskSet::Postponed),
        (TaskSetType::Done, Some(d)) => Some(TaskSet::DoneSince(now - (d as i64) * SECS_PER_DAY)),
        (TaskSetType::Done, None) => Some(TaskSet::DoneSince(default_horizon(now))),
        _ => None,
    }
}

/// Owned by the user, open, and active: the population the Today and
/// Postponed views split between them.
pub open spec fn open_active_owned(t: Task, user_id: i64) -> bool {
    &&& t.user_id == user_id
    &&& t.is_open()
    &&& t.active
}

/// Membership in the Today view: open, active, owned, and scheduled no
/// later than the end of the current day.
pub open spec fn today_matches(t: Task, user_id: i64, end_of_today: int) -> bool {
    open_active_owned(t, user_id) && t.scheduled_for <= end_of_today
}

/// Membership in the Postponed view: open, active, owned, and scheduled
/// strictly after the end of the current day.
pub open spec fn postponed_matches(t: Task, user_id: i64, end_of_today: int) -> bool {
    open_active_owned(t, user_id) && t.scheduled_for > end_of_today
}

/// Membership in the DoneSince view: owned and completed at or after the
/// horizon.
pub open spec fn done_since_matches(t: Task, user_id: i64, horizon: int) -> bool {
    t.user_id == user_id && match t.done_at {
        Some(d) => d >= horizon,
        None => false,
    }
}

/// Membership in a view.
pub open spec fn view_matches(t: Task, user_id: i64, set: TaskSet, end_of_today: int) -> bool {
    match set {
        TaskSet::Today => today_matches(t, user_id, end_of_today),
        TaskSet::Postponed => postponed_matches(t, user_id, end_of_today),
        TaskSet::DoneSince(h) => done_since_matches(t, user_id, h as int),
    }
}

/// The ascending sort key of a view: Today orders by the explicit `order`
/// field, Postponed by the scheduled instant, DoneSince by the completion
/// instant *descending*, hence its negation here.
pub open spec fn view_key(t: Task, set: TaskSet) -> int {
    match set {
        TaskSet::Today => t.order as int,
        TaskSet::Postponed => t.scheduled_for as int,
        TaskSet::DoneSince(_) => match t.done_at {
            Some(d) => -(d as int),
            None => 0,
        },
    }
}

fn view_matches_exec(t: &Task, user_id: i64, set: &TaskSet, end_of_today: i64) -> (b: bool)
    ensures
        b == view_matches(*t, user_id, *set, end_of_today as int),
{
    match set {
        TaskSet::Today => t.user_id == user_id && t.done_at.is_none() && t.active
            && t.scheduled_for <= end_of_today,
        TaskSet::Postponed => t.user_id == user_id && t.done_at.is_none() && t.active
            && t.scheduled_for > end_of_today,
        TaskSet::DoneSince(h) => t.user_id == user_id && match t.done_at {
            Some(d) => d >= *h,
            None => false,
        },
    }
}

fn key_le(a: &Task, b: &Task, set: &TaskSet) -> (r: bool)
    requires
        match *set {
            TaskSet::DoneSince(_) => a.done_at is Some && b.done_at is Some,
            _ => true,
        },
    ensures
        r == (view_key(*a, *set) <= view_key(*b, *set)),
{
    match set {
        TaskSet::Today => a.order <= b.order,
        TaskSet::Postponed => a.scheduled_for <= b.scheduled_for,
        TaskSet::DoneSince(_) => match (a.done_at, b.done_at) {
            (Some(x), Some(y)) => x >= y,
            _ => true,
        },
    }
}

/// Selects and orders a user's tasks for one view, evaluated against the
/// given day boundary.  The result holds exactly the matching tasks — as a
/// multiset, so ties in the sort key keep no further promise of order — and
/// is sorted ascending by the view's key.
pub fn select_tasks(tasks: &Vec<Task>, user_id: i64, set: &TaskSet, end_of_today: i64) -> (r:
    Vec<Task>)
    ensures
        r@.to_multiset() == tasks@.filter(
            |t: Task| view_matches(t, user_id, *set, end_of_today as int),
        ).to_multiset(),
        forall|i: int|
            0 <= i < r@.len() ==> view_matches(#[trigger] r@[i], user_id, *set, end_of_today as int),
        forall|i: int, j: int|
            0 <= i < j < r@.len() ==> view_key(r@[i], *set) <= view_key(r@[j], *set),
{
    let ghost pred = |t: Task| view_matches(t, user_id, *set, end_of_today as int);
    let mut rest: Vec<Task> = Vec::new();
    let mut i: usize = 0;
    while i < tasks.len()
        invariant
            i <= tasks.len(),
            rest@ =~= tasks@.subrange(0, i as int).filter(pred),
            pred == (|t: Task| view_matches(t, user_id, *set, end_of_today as int)),
        decreases tasks.len() - i,
    {
        proof {
            reveal(Seq::filter);
            assert(tasks@.subrange(0, i + 1 as int).drop_last() =~= tasks@.subrange(0, i as int));
            assert(tasks@.subrange(0, i + 1 as int).last() == tasks@[i as int]);
        }
        if view_matches_exec(&tasks[i], user_id, set, end_of_today) {
            rest.push(tasks[i].clone());
        }
        i += 1;
    }
    proof {
        assert(tasks@.subrange(0, tasks@.len() as int) =~= tasks@);
    }
    let ghost all = rest@;
    let mut out: Vec<Task> = Vec::new();
    while rest.len() > 0
        invariant
            pred == (|t: Task| view_matches(t, user_id, *set, end_of_today as int)),
            out@.to_multiset().add(rest@.to_multiset()) =~= all.to_multiset(),
            forall|p: int| 0 <= p < rest@.len() ==> pred(#[trigger] rest@[p]),
            forall|p: int| 0 <= p < out@.len() ==> pred(#[trigger] out@[p]),
            forall|p: int, q: int|
                0 <= p < q < out@.len() ==> view_key(out@[p], *set) <= view_key(out@[q], *set),
            forall|p: int, q: int|
                0 <= p < out@.len() && 0 <= q < rest@.len() ==> view_key(out@[p], *set) <= view_key(
                    rest@[q],
                    *set,
                ),
        decreases rest.len(),
    {
        let mut m: usize = 0;
        let mut j: usize = 1;
        while j < rest.len()
            invariant
                m < j <= rest@.len(),
                rest@.len() > 0,
                pred == (|t: Task| view_matches(t, user_id, *set, end_of_today as int)),
                forall|p: int| 0 <= p < rest@.len() ==> pred(#[trigger] rest@[p]),
                forall|p: int| 0 <= p < j ==> view_key(rest@[m as int], *set) <= view_key(
                    #[trigger] rest@[p],
                    *set,
                ),
            decreases rest.len() - j,
        {
            if !key_le(&rest[m], &rest[j], set) {
                m = j;
            }
            j += 1;
        }
        let picked = rest.remove(m);
        out.push(picked);
        proof {
            assert(out@.drop_last() =~= out@.subrange(0, out@.len() - 1));
        }
    }
    proof {
        assert(rest@.to_multiset().len() == 0);
        assert(out@.to_multiset().add(rest@.to_multiset()) =~= out@.to_multiset());
    }
    out
}

impl TaskSet {
    /// Selects this view's tasks against the current process-local day
    /// boundary: the classification of `select_tasks` evaluated at whatever
    /// boundary the clock gave.
    pub fn query(&self, tasks: &Vec<Task>, user_id: i64) -> (r: Vec<Task>)
        ensures
            exists|eot: int|
                {
                    &&& valid_instant(eot)
                    &&& r@.to_multiset() == tasks@.filter(
                        |t: Task| view_matches(t, user_id, *self, eot),
                    ).to_multiset()
                    &&& forall|i: int|
                        0 <= i < r@.len() ==> view_matches(#[trigger] r@[i], user_id, *self, eot)
                    &&& forall|i: int, j: int|
                        0 <= i < j < r@.len() ==> view_key(r@[i], *self) <= view_key(
                            r@[j],
                            *self,
                        )
                },
    {
        let end_of_today = end_of_today_epoch_seconds();
        select_tasks(tasks, user_id, self, end_of_today)
    }
}

/// When no two tasks were completed at the same instant, the DoneSince view
/// is ordered *strictly* descending by completion instant: the hypotheses
/// are exactly what `select_tasks` ensures of its result for that view.
/// (With two tasks completed at one instant, strictness is unattainable and
/// only the non-strict descent of `select_tasks` holds.)
pub proof fn lemma_done_view_strictly_descending(
    tasks: Seq<Task>,
    user_id: i64,
    horizon: int,
    r: Seq<Task>,
)
    requires
        forall|i: int, j: int|
            0 <= i < j < tasks.len() ==> match (
                (#[trigger] tasks[i]).done_at,
                (#[trigger] tasks[j]).done_at,
            ) {
                (Some(a), Some(b)) => a != b,
                _ => true,
            },
        r.to_multiset() == tasks.filter(
            |t: Task| done_since_matches(t, user_id, horizon),
        ).to_multiset(),
        forall|i: int| 0 <= i < r.len() ==> done_since_matches(#[trigger] r[i], user_id, horizon),
        forall|i: int, j: int|
            0 <= i < j < r.len() ==> view_key(r[i], TaskSet::DoneSince(0)) <= view_key(
                r[j],
                TaskSet::DoneSince(0),
            ),
    ensures
        forall|i: int, j: int|
            0 <= i < j < r.len() ==> match ((#[trigger] r[i]).done_at, (#[trigger] r[j]).done_at) {
                (Some(a), Some(b)) => a > b,
                _ => false,
            },
{
    broadcast use vstd::seq_lib::group_filter_ensures;

    let pred = |t: Task| done_since_matches(t, user_id, horizon);
    let done_key = |t: Task| match t.done_at {
        Some(d) => Some(d as int),
        None => None,
    };
    let filt = tasks.filter(pred);
    lemma_filter_distinct_keys(tasks, pred, done_key);
    assert forall|p: int, q: int| 0 <= p < q < filt.len() implies filt[p] != filt[q] by {
        assert(pred(filt[p]));
        assert(pred(filt[q]));
    }
    assert(filt.no_duplicates());
    filt.lemma_multiset_has_no_duplicates();
    r.lemma_multiset_has_no_duplicates_conv();
    assert forall|i: int, j: int| 0 <= i < j < r.len() implies match (
        (#[trigger] r[i]).done_at,
        (#[trigger] r[j]).done_at,
    ) {
        (Some(a), Some(b)) => a > b,
        _ => false,
    } by {
        let a = r[i].done_at->0;
        let b = r[j].done_at->0;
        assert(-(a as int) <= -(b as int));
        if a == b {
            assert(r[i] != r[j]);
            assert(r.to_multiset().contains(r[i]));
            assert(r.to_multiset().contains(r[j]));
            assert(filt.contains(r[i]));
            assert(filt.contains(r[j]));
            let p = choose|p: int| 0 <= p < filt.len() && filt[p] == r[i];
            let q = choose|q: int| 0 <= q < filt.len() && filt[q] == r[j];
            assert(p != q);
            assert(false);
        }
    }
}

/// The Today and Postponed views, taken at one instant over one user's
/// tasks, exactly partition the open, active, owned tasks: no task is in
/// both, and together they hold each such task exactly once.
pub proof fn lemma_today_postponed_partition(tasks: Seq<Task>, user_id: i64, end_of_today: int)
    ensures
        forall|t: Task|
            !(today_matches(t, user_id, end_of_today) && postponed_matches(
                t,
                user_id,
                end_of_today,
            )),
        forall|t: Task|
            open_active_owned(t, user_id) <==> (today_matches(t, user_id, end_of_today)
                || postponed_matches(t, user_id, end_of_today)),
        tasks.filter(|t: Task| today_matches(t, user_id, end_of_today)).to_multiset().add(
            tasks.filter(|t: Task| postponed_matches(t, user_id, end_of_today)).to_multiset(),
        ) =~= tasks.filter(|t: Task| open_active_owned(t, user_id)).to_multiset(),
    decreases tasks.len(),
{
    reveal(Seq::filter);
    let today = |t: Task| today_matches(t, user_id, end_of_today);
    let post = |t: Task| postponed_matches(t, user_id, end_of_today);
    let both = |t: Task| open_active_owned(t, user_id);
    if tasks.len() == 0 {
        assert(tasks.filter(today).to_multiset().add(tasks.filter(post).to_multiset())
            =~= tasks.filter(both).to_multiset());
    } else {
        let prefix = tasks.drop_last();
        let last = tasks.last();
        lemma_today_postponed_partition(prefix, user_id, end_of_today);
        assert(tasks.filter(today).to_multiset().add(tasks.filter(post).to_multiset())
            =~= tasks.filter(both).to_multiset());
    }
}

} // verus!
