//! Staleness pruning: find the externally-sourced tasks of one user that
//! have gone stale — still open yet overdue in the user's zone — and delete
//! each such task together with its external half, atomically.
//!
//! The pass resolves the user, resolves the user's zone (fatally, with no
//! default), classifies every open linked task of the named source against
//! the current instant, and then either reports the candidates (dry run, or
//! nothing stale) or removes exactly the stale pairs in one transaction.

use vstd::prelude::*;

use crate::errors::HibiError;
use crate::models::{spec_hask_newtype, to_hask_newtype, str_eq, ExtTask, Task, User};
use crate::seq_facts::{
    lemma_filter_congruence, lemma_filter_distinct_keys, lemma_filter_length_partition,
};
use crate::store::{
    find_ext_index, open_pair_task, same_state, transact_delete, Store,
};
use crate::time::{
    is_overdue_at, now_epoch_seconds, spec_overdue, valid_instant, valid_offset,
};

verus! {

broadcast use
    vstd::seq_lib::group_filter_ensures,
    vstd::seq_lib::lemma_seq_contains_after_push,
;

/// What one pruning pass found and did.
#[derive(Clone, Copy, Debug, PartialEq, Eq, Structural)]
pub struct PruneReport {
    pub candidate_count: usize,
    pub deleted_task_count: usize,
    pub deleted_ext_task_count: usize,
    pub dry_run: bool,
}

/// Some user of the store carries this identity.
pub open spec fn has_user(users: Seq<User>, ident: Seq<char>) -> bool {
    exists|i: int| 0 <= i < users.len() && (#[trigger] users[i]).ident@ == ident
}

/// The stored (Haskell-newtype encoded) source name that a plain source
/// name selects.
pub open spec fn source_hask_of(source: Seq<char>) -> Seq<char> {
    spec_hask_newtype("ExternalSourceName"@, source)
}

/// Stale: owned by the user, open, linked to an external row of the wanted
/// source, and overdue at `now` under the user's offset.
pub open spec fn stale_task(
    t: Task,
    uid: i64,
    exts: Seq<ExtTask>,
    src: Seq<char>,
    off: int,
    now: int,
) -> bool {
    open_pair_task(t, uid, exts, Some(src)) && spec_overdue(t.scheduled_for as int, off, now)
}

/// The external half of a stale pair: owned by the user and linked from a
/// stale task.
pub open spec fn stale_ext(
    e: ExtTask,
    uid: i64,
    tasks: Seq<Task>,
    exts: Seq<ExtTask>,
    src: Seq<char>,
    off: int,
    now: int,
) -> bool {
    e.user_id == uid && exists|i: int|
        0 <= i < tasks.len() && stale_task(#[trigger] tasks[i], uid, exts, src, off, now)
            && tasks[i].ext_task_id == Some(e.id)
}

/// What a successful pass promises, relative to the store as it stood: the
/// report counts the stale pairs; a dry run, or a pass that found nothing
/// stale, leaves the store untouched and deletes nothing; otherwise exactly
/// the stale tasks and exactly their external halves are gone, and the
/// deletion counts say so.
pub open spec fn prune_outcome_ok(
    before: Store,
    after: Store,
    u: User,
    rep: PruneReport,
    dry_run: bool,
    source: Seq<char>,
    now: int,
) -> bool {
    let off = u.spec_offset();
    let src = source_hask_of(source);
    &&& rep.dry_run == dry_run
    &&& rep.candidate_count == before.tasks@.filter(
        |t: Task| stale_task(t, u.id, before.ext_tasks@, src, off, now),
    ).len()
    &&& if dry_run || rep.candidate_count == 0 {
        &&& same_state(after, before)
        &&& rep.deleted_task_count == 0
        &&& rep.deleted_ext_task_count == 0
    } else {
        &&& after.users@ == before.users@
        &&& after.tasks@ == before.tasks@.filter(
            |t: Task| !stale_task(t, u.id, before.ext_tasks@, src, off, now),
        )
        &&& after.ext_tasks@ == before.ext_tasks@.filter(
            |e: ExtTask| !stale_ext(e, u.id, before.tasks@, before.ext_tasks@, src, off, now),
        )
        &&& rep.deleted_task_count == rep.candidate_count
        &&& rep.deleted_ext_task_count == before.ext_tasks@.filter(
            |e: ExtTask| stale_ext(e, u.id, before.tasks@, before.ext_tasks@, src, off, now),
        ).len()
    }
}

/// The whole contract of one pruning pass evaluated at instant `now`:
/// no user of that identity means `UserNotFound` and an untouched store; a
/// user whose zone string does not resolve means `InvalidTimeZone` and an
/// untouched store; otherwise the pass succeeds with `prune_outcome_ok`.
pub open spec fn prune_result_ok(
    before: Store,
    after: Store,
    r: Result<PruneReport, HibiError>,
    ident: Seq<char>,
    source: Seq<char>,
    dry_run: bool,
    now: int,
) -> bool {
    match r {
        Ok(rep) => {
            &&& has_user(before.users@, ident)
            &&& forall|i: int|
                0 <= i < before.users@.len() && (#[trigger] before.users@[i]).ident@ == ident
                    ==> before.users@[i].zone_ok() && prune_outcome_ok(
                    before,
                    after,
                    before.users@[i],
                    rep,
                    dry_run,
                    source,
                    now,
                )
        },
        Err(e) => match e {
            HibiError::UserNotFound => !has_user(before.users@, ident) && same_state(
                after,
                before,
            ),
            HibiError::InvalidTimeZone => {
                &&& has_user(before.users@, ident)
                &&& forall|i: int|
                    0 <= i < before.users@.len() && (#[trigger] before.users@[i]).ident@ == ident
                        ==> !before.users@[i].zone_ok()
                &&& same_state(after, before)
            },
            _ => false,
        },
    }
}

/// Whether one task is stale, decided exactly as `stale_task` says.
fn is_stale_exec(t: &Task, exts: &Vec<ExtTask>, uid: i64, src: &str, off: i32, now: i64) -> (b:
    bool)
    requires
        forall|i: int, j: int|
            0 <= i < j < exts@.len() ==> (#[trigger] exts@[i]).id != (#[trigger] exts@[j]).id,
        t.wf(),
        valid_offset(off as int),
        valid_instant(now as int),
    ensures
        b == stale_task(*t, uid, exts@, src@, off as int, now as int),
{
    if t.user_id != uid {
        return false;
    }
    if t.done_at.is_some() {
        return false;
    }
    match t.ext_task_id {
        Some(eid) => match find_ext_index(exts, eid) {
            Some(k) => {
                if str_eq(exts[k].ext_source_name.as_str(), src) {
                    is_overdue_at(t.scheduled_for, off, now)
                } else {
                    proof {
                        assert forall|k2: int|
                            0 <= k2 < exts@.len() && (#[trigger] exts@[k2]).id
                                == eid implies exts@[k2].ext_source_name@ != src@ by {
                            if k2 < k as int {
                                assert(exts@[k2].id != exts@[k as int].id);
                            } else if k2 > k as int {
                                assert(exts@[k as int].id != exts@[k2].id);
                            }
                        }
                    }
                    false
                }
            },
            None => false,
        },
        None => false,
    }
}

/// Collects the stale pairs' ids: the stale tasks' own ids and the ids of
/// their linked external rows, one entry per stale task, in stored order.
pub fn collect_stale(
    tasks: &Vec<Task>,
    exts: &Vec<ExtTask>,
    uid: i64,
    src: &str,
    off: i32,
    now: i64,
) -> (r: (Vec<i32>, Vec<i64>))
    requires
        forall|i: int, j: int|
            0 <= i < j < exts@.len() ==> (#[trigger] exts@[i]).id != (#[trigger] exts@[j]).id,
        forall|i: int| 0 <= i < tasks@.len() ==> (#[trigger] tasks@[i]).wf(),
        valid_offset(off as int),
        valid_instant(now as int),
    ensures
        ({
            let stale = |t: Task| stale_task(t, uid, exts@, src@, off as int, now as int);
            &&& r.0@.len() == tasks@.filter(stale).len()
            &&& r.1@.len() == r.0@.len()
            &&& forall|x: i32| #![trigger r.0@.contains(x)]
                r.0@.contains(x) <==> exists|p: int|
                    0 <= p < tasks@.len() && stale(#[trigger] tasks@[p]) && tasks@[p].id == x
            &&& forall|y: i64| #![trigger r.1@.contains(y)]
                r.1@.contains(y) <==> exists|p: int|
                    0 <= p < tasks@.len() && stale(#[trigger] tasks@[p]) && tasks@[p].ext_task_id
                        == Some(y)
        }),
{
    let ghost stale = |t: Task| stale_task(t, uid, exts@, src@, off as int, now as int);
    let mut tids: Vec<i32> = Vec::new();
    let mut eids: Vec<i64> = Vec::new();
    let mut i: usize = 0;
    while i < tasks.len()
        invariant
            i <= tasks@.len(),
            forall|p: int, q: int|
                0 <= p < q < exts@.len() ==> (#[trigger] exts@[p]).id != (#[trigger] exts@[q]).id,
            forall|p: int| 0 <= p < tasks@.len() ==> (#[trigger] tasks@[p]).wf(),
            valid_offset(off as int),
            valid_instant(now as int),
            stale == (|t: Task| stale_task(t, uid, exts@, src@, off as int, now as int)),
            tids@.len() == tasks@.subrange(0, i as int).filter(stale).len(),
            eids@.len() == tids@.len(),
            forall|x: i32| #![trigger tids@.contains(x)]
                tids@.contains(x) <==> exists|p: int|
                    0 <= p < i && stale(#[trigger] tasks@[p]) && tasks@[p].id == x,
            forall|y: i64| #![trigger eids@.contains(y)]
                eids@.contains(y) <==> exists|p: int|
                    0 <= p < i && stale(#[trigger] tasks@[p]) && tasks@[p].ext_task_id == Some(y),
        decreases tasks@.len() - i,
    {
        proof {
            reveal(Seq::filter);
            assert(tasks@.subrange(0, i + 1 as int).drop_last() =~= tasks@.subrange(0, i as int));
            assert(tasks@.subrange(0, i + 1 as int).last() == tasks@[i as int]);
        }
        let ghost old_tids = tids@;
        let ghost old_eids = eids@;
        if is_stale_exec(&tasks[i], exts, uid, src, off, now) {
            tids.push(tasks[i].id);
            match tasks[i].ext_task_id {
                Some(eid) => eids.push(eid),
                None => {},
            }
            proof {
                assert(forall|x: i32| #![trigger tids@.contains(x)]
                    tids@.contains(x) <==> (old_tids.contains(x) || x == tasks@[i as int].id));
                assert(forall|y: i64| #![trigger eids@.contains(y)]
                    eids@.contains(y) <==> (old_eids.contains(y) || Some(y)
                        == tasks@[i as int].ext_task_id));
            }
        }
        i += 1;
    }
    proof {
        assert(tasks@.subrange(0, tasks@.len() as int) =~= tasks@);
    }
    (tids, eids)
}

/// Deleting exactly the stale tasks and exactly their external halves keeps
/// the store well-formed: in particular, no surviving task's external link
/// is orphaned, because an external row is only removed together with the
/// one stale task that points at it.
proof fn lemma_prune_delete_preserves_wf(
    before: Store,
    after: Store,
    uid: i64,
    src: Seq<char>,
    off: int,
    now: int,
)
    requires
        before.wf(),
        after.users@ == before.users@,
        after.tasks@ == before.tasks@.filter(
            |t: Task| !stale_task(t, uid, before.ext_tasks@, src, off, now),
        ),
        after.ext_tasks@ == before.ext_tasks@.filter(
            |e: ExtTask| !stale_ext(e, uid, before.tasks@, before.ext_tasks@, src, off, now),
        ),
    ensures
        after.wf(),
{
    let keep_t = |t: Task| !stale_task(t, uid, before.ext_tasks@, src, off, now);
    let keep_e = |e: ExtTask| !stale_ext(e, uid, before.tasks@, before.ext_tasks@, src, off, now);
    lemma_filter_distinct_keys(before.tasks@, keep_t, |t: Task| Some(t.id as int));
    lemma_filter_distinct_keys(before.ext_tasks@, keep_e, |e: ExtTask| Some(e.id as int));
    lemma_filter_distinct_keys(
        before.tasks@,
        keep_t,
        |t: Task| match t.ext_task_id {
            Some(e) => Some(e as int),
            None => None,
        },
    );
    assert forall|i: int| 0 <= i < after.tasks@.len() implies {
        &&& (#[trigger] after.tasks@[i]).wf()
        &&& match after.tasks@[i].ext_task_id {
            Some(eid) => exists|k: int|
                0 <= k < after.ext_tasks@.len() && (#[trigger] after.ext_tasks@[k]).id == eid
                    && after.ext_tasks@[k].user_id == after.tasks@[i].user_id,
            None => true,
        }
    } by {
        let t = after.tasks@[i];
        assert(after.tasks@.contains(t));
        before.tasks@.lemma_filter_contains_rev(keep_t, t);
        let w = choose|w: int| 0 <= w < before.tasks@.len() && before.tasks@[w] == t;
        assert(t.wf());
        assert(keep_t(after.tasks@[i]));
        match t.ext_task_id {
            Some(eid) => {
                let k = choose|k: int|
                    0 <= k < before.ext_tasks@.len() && (#[trigger] before.ext_tasks@[k]).id == eid
                        && before.ext_tasks@[k].user_id == t.user_id;
                let e = before.ext_tasks@[k];
                assert(!stale_ext(e, uid, before.tasks@, before.ext_tasks@, src, off, now)) by {
                    if stale_ext(e, uid, before.tasks@, before.ext_tasks@, src, off, now) {
                        let p = choose|p: int|
                            0 <= p < before.tasks@.len() && stale_task(
                                #[trigger] before.tasks@[p],
                                uid,
                                before.ext_tasks@,
                                src,
                                off,
                                now,
                            ) && before.tasks@[p].ext_task_id == Some(e.id);
                        if p == w {
                            assert(false);
                        } else if p < w {
                            assert(match (
                                before.tasks@[p].ext_task_id,
                                before.tasks@[w].ext_task_id,
                            ) {
                                (Some(a), Some(b)) => a != b,
                                _ => true,
                            });
                            assert(false);
                        } else {
                            assert(match (
                                before.tasks@[w].ext_task_id,
                                before.tasks@[p].ext_task_id,
                            ) {
                                (Some(a), Some(b)) => a != b,
                                _ => true,
                            });
                            assert(false);
                        }
                    }
                }
                before.ext_tasks@.lemma_filter_contains(keep_e, k);
                assert(after.ext_tasks@.contains(e));
                let k2 = choose|k2: int|
                    0 <= k2 < after.ext_tasks@.len() && after.ext_tasks@[k2] == e;
                assert(after.ext_tasks@[k2].id == eid && after.ext_tasks@[k2].user_id
                    == t.user_id);
            },
            None => {},
        }
    }
}

/// One pruning pass over the store, evaluated at the instant `now`.
///
/// Resolves the user by identity, resolves the user's zone string to its
/// fixed offset, classifies the user's open tasks of the named external
/// source, and — unless this is a dry run or nothing is stale — deletes the
/// stale pairs in one atomic transaction.  The store stays well-formed:
/// deletion never orphans half of a pair.
pub fn prune(
    store: &mut Store,
    user_ident: &str,
    ext_source: &str,
    dry_run: bool,
    now: i64,
) -> (r: Result<PruneReport, HibiError>)
    requires
        old(store).wf(),
        valid_instant(now as int),
    ensures
        final (store).wf(),
        prune_result_ok(
            *old(store),
            *final (store),
            r,
            user_ident@,
            ext_source@,
            dry_run,
            now as int,
        ),
{
    let uidx = match store.find_user(user_ident) {
        Some(i) => i,
        None => {
            return Err(HibiError::UserNotFound);
        },
    };
    let off = match store.users[uidx].try_time_zone_offset() {
        Ok(o) => o,
        Err(_) => {
            proof {
                assert forall|i: int|
                    0 <= i < store.users@.len() && (#[trigger] store.users@[i]).ident@
                        == user_ident@ implies !store.users@[i].zone_ok() by {
                    if i < uidx as int {
                        assert(store.users@[i].ident@ != store.users@[uidx as int].ident@);
                    } else if i > uidx as int {
                        assert(store.users@[uidx as int].ident@ != store.users@[i].ident@);
                    }
                }
            }
            return Err(HibiError::InvalidTimeZone);
        },
    };
    let uid = store.users[uidx].id;
    let src_string = to_hask_newtype("ExternalSourceName", ext_source);
    let (tids, eids) = collect_stale(
        &store.tasks,
        &store.ext_tasks,
        uid,
        src_string.as_str(),
        off,
        now,
    );
    let candidates = tids.len();
    let ghost before = *store;
    let ghost u = store.users@[uidx as int];
    let ghost src = source_hask_of(ext_source@);
    let ghost o_stale = |t: Task| stale_task(t, u.id, before.ext_tasks@, src, off as int, now as int);
    let ghost c_stale = |t: Task| stale_task(
        t,
        uid,
        before.ext_tasks@,
        src_string@,
        off as int,
        now as int,
    );
    proof {
        assert(src_string@ == src);
        assert(u.id == uid);
        assert(forall|i: int|
            0 <= i < before.tasks@.len() ==> c_stale(#[trigger] before.tasks@[i]) == o_stale(
                before.tasks@[i],
            ));
        lemma_filter_congruence(before.tasks@, c_stale, o_stale);
        assert forall|i: int|
            0 <= i < before.users@.len() && (#[trigger] before.users@[i]).ident@
                == user_ident@ implies before.users@[i] == u by {
            if i < uidx as int {
                assert(before.users@[i].ident@ != before.users@[uidx as int].ident@);
            } else if i > uidx as int {
                assert(before.users@[uidx as int].ident@ != before.users@[i].ident@);
            }
        }
    }
    if dry_run || candidates == 0 {
        return Ok(
            PruneReport {
                candidate_count: candidates,
                deleted_task_count: 0,
                deleted_ext_task_count: 0,
                dry_run,
            },
        );
    }
    let ghost keep_t = |t: Task| !(t.user_id == uid && tids@.contains(t.id));
    let ghost keep_e = |e: ExtTask| !(e.user_id == uid && eids@.contains(e.id));
    let ghost not_stale = |t: Task| !stale_task(
        t,
        u.id,
        before.ext_tasks@,
        src,
        off as int,
        now as int,
    );
    let ghost o_stale_e = |e: ExtTask| stale_ext(
        e,
        u.id,
        before.tasks@,
        before.ext_tasks@,
        src,
        off as int,
        now as int,
    );
    let ghost not_stale_e = |e: ExtTask| !stale_ext(
        e,
        u.id,
        before.tasks@,
        before.ext_tasks@,
        src,
        off as int,
        now as int,
    );
    proof {
        assert forall|i: int|
            0 <= i < before.tasks@.len() implies keep_t(#[trigger] before.tasks@[i]) == not_stale(
            before.tasks@[i],
        ) by {
            let t = before.tasks@[i];
            if t.user_id == uid && tids@.contains(t.id) {
                let p = choose|p: int|
                    0 <= p < before.tasks@.len() && c_stale(#[trigger] before.tasks@[p])
                        && before.tasks@[p].id == t.id;
                if p < i {
                    assert(before.tasks@[p].id != before.tasks@[i].id);
                } else if p > i {
                    assert(before.tasks@[i].id != before.tasks@[p].id);
                }
            }
        }
        assert forall|k: int|
            0 <= k < before.ext_tasks@.len() implies keep_e(#[trigger] before.ext_tasks@[k])
            == not_stale_e(before.ext_tasks@[k]) by {
            let e = before.ext_tasks@[k];
            if e.user_id == uid && eids@.contains(e.id) {
                assert(o_stale_e(e));
            }
            if o_stale_e(e) {
                assert(eids@.contains(e.id));
            }
        }
        lemma_filter_length_partition(before.tasks@, o_stale, not_stale);
        lemma_filter_length_partition(before.ext_tasks@, o_stale_e, not_stale_e);
    }
    match transact_delete(store, uid, &tids, &eids, false) {
        Ok(counts) => {
            proof {
                lemma_filter_congruence(before.tasks@, keep_t, not_stale);
                lemma_filter_congruence(before.ext_tasks@, keep_e, not_stale_e);
                lemma_prune_delete_preserves_wf(
                    before,
                    *store,
                    u.id,
                    src,
                    off as int,
                    now as int,
                );
            }
            Ok(
                PruneReport {
                    candidate_count: candidates,
                    deleted_task_count: counts.0,
                    deleted_ext_task_count: counts.1,
                    dry_run,
                },
            )
        },
        Err(_) => Err(HibiError::DeleteFailed),
    }
}

/// One pruning pass against the current instant: the contract of `prune`
/// evaluated at whatever instant the clock returned.
pub fn prune_now(store: &mut Store, user_ident: &str, ext_source: &str, dry_run: bool) -> (r:
    Result<PruneReport, HibiError>)
    requires
        old(store).wf(),
    ensures
        final (store).wf(),
        exists|now: int|
            valid_instant(now) && prune_result_ok(
                *old(store),
                *final (store),
                r,
                user_ident@,
                ext_source@,
                dry_run,
                now,
            ),
{
    let now = now_epoch_seconds();
    prune(store, user_ident, ext_source, dry_run, now)
}

} // verus!
