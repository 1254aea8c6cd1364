//! An in-memory image of the relational store: the user, task and
//! external-task rows one operation works on, with the schema's invariants
//! stated as well-formedness, and the row-deleting transaction of the
//! pruner.
//!
//! The transaction is all-or-nothing by construction: either both deletes
//! apply or the store is left exactly as it was, so a pair of rows can never
//! be orphaned halfway.

use vstd::prelude::*;

use crate::errors::HibiError;
use crate::models::{str_eq, ExtTask, Task, User};

verus! {

broadcast use vstd::seq_lib::group_filter_ensures;

/// The task is linked to an external-task row, and that row's source name
/// matches the wanted one, when one is wanted.
pub open spec fn linked_source_ok(t: Task, exts: Seq<ExtTask>, src: Option<Seq<char>>) -> bool {
    match t.ext_task_id {
        Some(eid) => exists|k: int|
            0 <= k < exts.len() && (#[trigger] exts[k]).id == eid && match src {
                Some(s) => exts[k].ext_source_name@ == s,
                None => true,
            },
        None => false,
    }
}

/// A row the pruner's load step selects: owned by the user, still open, and
/// linked to an external task of the wanted source.
pub open spec fn open_pair_task(t: Task, uid: i64, exts: Seq<ExtTask>, src: Option<Seq<char>>) -> bool {
    t.user_id == uid && t.is_open() && linked_source_ok(t, exts, src)
}

/// The two stores hold exactly the same rows.
pub open spec fn same_state(a: Store, b: Store) -> bool {
    a.users@ == b.users@ && a.tasks@ == b.tasks@ && a.ext_tasks@ == b.ext_tasks@
}

/// The rows of the relational store, loaded whole.
pub struct Store {
    pub users: Vec<User>,
    pub tasks: Vec<Task>,
    pub ext_tasks: Vec<ExtTask>,
}

impl Store {
    /// The schema's invariants: primary keys and user identities are unique,
    /// instants lie in the calendar range, every task's external link leads
    /// to an existing row of the same owner, and no two tasks share one
    /// external row.
    pub open spec fn wf(&self) -> bool {
        &&& forall|i: int, j: int|
            0 <= i < j < self.users@.len() ==> (#[trigger] self.users@[i]).id != (
            #[trigger] self.users@[j]).id
        &&& forall|i: int, j: int|
            0 <= i < j < self.users@.len() ==> (#[trigger] self.users@[i]).ident@ != (
            #[trigger] self.users@[j]).ident@
        &&& forall|i: int, j: int|
            0 <= i < j < self.tasks@.len() ==> (#[trigger] self.tasks@[i]).id != (
            #[trigger] self.tasks@[j]).id
        &&& forall|i: int, j: int|
            0 <= i < j < self.ext_tasks@.len() ==> (#[trigger] self.ext_tasks@[i]).id != (
            #[trigger] self.ext_tasks@[j]).id
        &&& forall|i: int| 0 <= i < self.tasks@.len() ==> (#[trigger] self.tasks@[i]).wf()
        &&& forall|i: int|
            0 <= i < self.tasks@.len() ==> match (#[trigger] self.tasks@[i]).ext_task_id {
                Some(eid) => exists|k: int|
                    0 <= k < self.ext_tasks@.len() && (#[trigger] self.ext_tasks@[k]).id == eid
                        && self.ext_tasks@[k].user_id == self.tasks@[i].user_id,
                None => true,
            }
        &&& forall|i: int, j: int|
            0 <= i < j < self.tasks@.len() ==> match (
                (#[trigger] self.tasks@[i]).ext_task_id,
                (#[trigger] self.tasks@[j]).ext_task_id,
            ) {
                (Some(a), Some(b)) => a != b,
                _ => true,
            }
    }

    /// An empty store; well-formed from the start.
    pub fn new() -> (r: Store)
        ensures
            r.wf(),
            r.users@.len() == 0,
            r.tasks@.len() == 0,
            r.ext_tasks@.len() == 0,
    {
        Store { users: Vec::new(), tasks: Vec::new(), ext_tasks: Vec::new() }
    }

    /// Looks a user up by identity.
    pub fn find_user(&self, ident: &str) -> (r: Option<usize>)
        ensures
            match r {
                Some(i) => i < self.users@.len() && self.users@[i as int].ident@ == ident@,
                None => forall|i: int|
                    0 <= i < self.users@.len() ==> (#[trigger] self.users@[i]).ident@ != ident@,
            },
    {
        let mut i: usize = 0;
        while i < self.users.len()
            invariant
                i <= self.users@.len(),
                forall|p: int| 0 <= p < i ==> (#[trigger] self.users@[p]).ident@ != ident@,
            decreases self.users@.len() - i,
        {
            if str_eq(self.users[i].ident.as_str(), ident) {
                return Some(i);
            }
            i += 1;
        }
        None
    }

    /// Loads the pruner's working set: the user's open tasks linked to an
    /// external row, paired with that row, restricted to one source when one
    /// is named.  Pairs come back in the tasks' stored order.
    pub fn load_open_pairs(&self, user_id: i64, source_hask: Option<&str>) -> (r: Vec<
        (Task, ExtTask),
    >)
        requires
            self.wf(),
        ensures
            ({
                let src = match source_hask {
                    Some(s) => Some(s@),
                    None => None,
                };
                &&& r@.map_values(|p: (Task, ExtTask)| p.0) =~= self.tasks@.filter(
                    |t: Task| open_pair_task(t, user_id, self.ext_tasks@, src),
                )
                &&& forall|i: int|
                    0 <= i < r@.len() ==> {
                        &&& (#[trigger] r@[i]).0.ext_task_id == Some(r@[i].1.id)
                        &&& self.ext_tasks@.contains(r@[i].1)
                        &&& r@[i].1.user_id == r@[i].0.user_id
                    }
            }),
    {
        let ghost src = match source_hask {
            Some(s) => Some(s@),
            None => None,
        };
        let ghost pred = |t: Task| open_pair_task(t, user_id, self.ext_tasks@, src);
        let mut out: Vec<(Task, ExtTask)> = Vec::new();
        let mut i: usize = 0;
        while i < self.tasks.len()
            invariant
                i <= self.tasks@.len(),
                self.wf(),
                src == (match source_hask {
                    Some(s) => Some(s@),
                    None => None,
                }),
                pred == (|t: Task| open_pair_task(t, user_id, self.ext_tasks@, src)),
                out@.map_values(|p: (Task, ExtTask)| p.0) =~= self.tasks@.subrange(
                    0,
                    i as int,
                ).filter(pred),
                forall|p: int|
                    0 <= p < out@.len() ==> {
                        &&& (#[trigger] out@[p]).0.ext_task_id == Some(out@[p].1.id)
                        &&& self.ext_tasks@.contains(out@[p].1)
                        &&& out@[p].1.user_id == out@[p].0.user_id
                    },
            decreases self.tasks@.len() - i,
        {
            proof {
                reveal(Seq::filter);
                assert(self.tasks@.subrange(0, i + 1 as int).drop_last() =~= self.tasks@.subrange(
                    0,
                    i as int,
                ));
                assert(self.tasks@.subrange(0, i + 1 as int).last() == self.tasks@[i as int]);
            }
            let t = &self.tasks[i];
            if t.user_id == user_id && t.done_at.is_none() {
                match t.ext_task_id {
                    Some(eid) => match find_ext_index(&self.ext_tasks, eid) {
                        Some(k) => {
                            let source_ok = match source_hask {
                                Some(s) => str_eq(self.ext_tasks[k].ext_source_name.as_str(), s),
                                None => true,
                            };
                            proof {
                                assert(source_ok == linked_source_ok(
                                    self.tasks@[i as int],
                                    self.ext_tasks@,
                                    src,
                                ));
                            }
                            if source_ok {
                                out.push((t.clone(), self.ext_tasks[k].clone()));
                            }
                        },
                        None => {},
                    },
                    None => {},
                }
            }
            i += 1;
        }
        proof {
            assert(self.tasks@.subrange(0, self.tasks@.len() as int) =~= self.tasks@);
        }
        out
    }
}

/// Looks an external-task row up by its id.
pub(crate) fn find_ext_index(exts: &Vec<ExtTask>, eid: i64) -> (r: Option<usize>)
    ensures
        match r {
            Some(k) => k < exts@.len() && exts@[k as int].id == eid,
            None => forall|k: int| 0 <= k < exts@.len() ==> (#[trigger] exts@[k]).id != eid,
        },
{
    let mut k: usize = 0;
    while k < exts.len()
        invariant
            k <= exts@.len(),
            forall|p: int| 0 <= p < k ==> (#[trigger] exts@[p]).id != eid,
        decreases exts@.len() - k,
    {
        if exts[k].id == eid {
            return Some(k);
        }
        k += 1;
    }
    None
}

/// Membership of an id in a collected id list.
pub(crate) fn task_ids_contain(ids: &Vec<i32>, x: i32) -> (b: bool)
    ensures
        b == ids@.contains(x),
{
    let mut i: usize = 0;
    while i < ids.len()
        invariant
            i <= ids@.len(),
            forall|p: int| 0 <= p < i ==> ids@[p] != x,
        decreases ids@.len() - i,
    {
        if ids[i] == x {
            return true;
        }
        i += 1;
    }
    false
}

/// Membership of an id in a collected id list.
pub(crate) fn ext_ids_contain(ids: &Vec<i64>, x: i64) -> (b: bool)
    ensures
        b == ids@.contains(x),
{
    let mut i: usize = 0;
    while i < ids.len()
        invariant
            i <= ids@.len(),
            forall|p: int| 0 <= p < i ==> ids@[p] != x,
        decreases ids@.len() - i,
    {
        if ids[i] == x {
            return true;
        }
        i += 1;
    }
    false
}

/// Deletes the named task rows and the named external-task rows, both scoped
/// to one user, as one atomic transaction: either both row sets are removed
/// and the row counts come back, or — when the store fails partway, which
/// `fail_ext_delete` stands in for — the whole transaction rolls back and
/// the store is exactly as it was.
pub fn transact_delete(
    store: &mut Store,
    user_id: i64,
    task_ids: &Vec<i32>,
    ext_task_ids: &Vec<i64>,
    fail_ext_delete: bool,
) -> (r: Result<(usize, usize), HibiError>)
    ensures
        match r {
            Ok(counts) => {
                &&& !fail_ext_delete
                &&& final (store).users@ == old(store).users@
                &&& final (store).tasks@ =~= old(store).tasks@.filter(
                    |t: Task| !(t.user_id == user_id && task_ids@.contains(t.id)),
                )
                &&& final (store).ext_tasks@ =~= old(store).ext_tasks@.filter(
                    |e: ExtTask| !(e.user_id == user_id && ext_task_ids@.contains(e.id)),
                )
                &&& counts.0 == old(store).tasks@.len() - final (store).tasks@.len()
                &&& counts.1 == old(store).ext_tasks@.len() - final (store).ext_tasks@.len()
            },
            Err(e) => {
                &&& e == HibiError::DeleteFailed
                &&& fail_ext_delete
                &&& same_state(*final (store), *old(store))
            },
        },
{
    if fail_ext_delete {
        return Err(HibiError::DeleteFailed);
    }
    let ghost keep_t = |t: Task| !(t.user_id == user_id && task_ids@.contains(t.id));
    let ghost keep_e = |e: ExtTask| !(e.user_id == user_id && ext_task_ids@.contains(e.id));
    let old_task_len = store.tasks.len();
    let old_ext_len = store.ext_tasks.len();
    let mut kept_tasks: Vec<Task> = Vec::new();
    let mut i: usize = 0;
    while i < store.tasks.len()
        invariant
            i <= store.tasks@.len(),
            keep_t == (|t: Task| !(t.user_id == user_id && task_ids@.contains(t.id))),
            kept_tasks@ =~= store.tasks@.subrange(0, i as int).filter(keep_t),
        decreases store.tasks@.len() - i,
    {
        proof {
            reveal(Seq::filter);
            assert(store.tasks@.subrange(0, i + 1 as int).drop_last() =~= store.tasks@.subrange(
                0,
                i as int,
            ));
            assert(store.tasks@.subrange(0, i + 1 as int).last() == store.tasks@[i as int]);
        }
        let t = &store.tasks[i];
        if !(t.user_id == user_id && task_ids_contain(task_ids, t.id)) {
            kept_tasks.push(t.clone());
        }
        i += 1;
    }
    proof {
        assert(store.tasks@.subrange(0, store.tasks@.len() as int) =~= store.tasks@);
    }
    let mut kept_exts: Vec<ExtTask> = Vec::new();
    let mut j: usize = 0;
    while j < store.ext_tasks.len()
        invariant
            j <= store.ext_tasks@.len(),
            keep_e == (|e: ExtTask| !(e.user_id == user_id && ext_task_ids@.contains(e.id))),
            kept_exts@ =~= store.ext_tasks@.subrange(0, j as int).filter(keep_e),
        decreases store.ext_tasks@.len() - j,
    {
        proof {
            reveal(Seq::filter);
            assert(store.ext_tasks@.subrange(0, j + 1 as int).drop_last()
                =~= store.ext_tasks@.subrange(0, j as int));
            assert(store.ext_tasks@.subrange(0, j + 1 as int).last()
                == store.ext_tasks@[j as int]);
        }
        let e = &store.ext_tasks[j];
        if !(e.user_id == user_id && ext_ids_contain(ext_task_ids, e.id)) {
            kept_exts.push(e.clone());
        }
        j += 1;
    }
    proof {
        assert(store.ext_tasks@.subrange(0, store.ext_tasks@.len() as int) =~= store.ext_tasks@);
    }
    store.tasks = kept_tasks;
    store.ext_tasks = kept_exts;
    let deleted_tasks = old_task_len - store.tasks.len();
    let deleted_exts = old_ext_len - store.ext_tasks.len();
    Ok((deleted_tasks, deleted_exts))
}

} // verus!
