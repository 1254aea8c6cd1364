use hibi2::errors::HibiError;
use hibi2::models::{from_hask_newtype, to_hask_newtype, ExtTask, Schedule, Task, User};
use hibi2::prune::prune;
use hibi2::store::{transact_delete, Store};

const NOW: i64 = 3 * 86400 + 43200; // noon of day three
const YESTERDAY_10UTC: i64 = 2 * 86400 + 36000;
const TODAY_10UTC: i64 = 3 * 86400 + 36000;

fn user(id: i64, ident: &str, tz: Option<&str>) -> User {
    User {
        id,
        ident: ident.to_string(),
        password: None,
        time_zone: tz.map(|s| s.to_string()),
        features: String::new(),
    }
}

fn task(id: i32, user_id: i64, scheduled_for: i64, ext_task_id: Option<i64>) -> Task {
    Task {
        id,
        user_id,
        title: format!("task {}", id),
        pomos: 0,
        scheduled_for,
        done_at: None,
        active: true,
        order: id as i64,
        schedule: Schedule::Once,
        ext_task_id,
    }
}

fn ext(id: i64, user_id: i64, source_plain: &str) -> ExtTask {
    ExtTask {
        id,
        user_id,
        ext_id: to_hask_newtype("ExternalIdent", &format!("e{}", id)),
        ext_source_name: to_hask_newtype("ExternalSourceName", source_plain),
        ext_url: None,
        ext_status: None,
    }
}

/// User A in the zero zone; T1 stale (yesterday, open, source X), T2 fresh
/// (today, source X), T3 overdue but of source Y.
fn scenario_store() -> Store {
    let mut store = Store::new();
    store.users.push(user(1, "a@example.com", Some("+0000")));
    store.tasks.push(task(1, 1, YESTERDAY_10UTC, Some(101)));
    store.tasks.push(task(2, 1, TODAY_10UTC, Some(102)));
    store.tasks.push(task(3, 1, YESTERDAY_10UTC, Some(103)));
    store.ext_tasks.push(ext(101, 1, "X"));
    store.ext_tasks.push(ext(102, 1, "X"));
    store.ext_tasks.push(ext(103, 1, "Y"));
    store
}

fn task_ids(store: &Store) -> Vec<i32> {
    store.tasks.iter().map(|t| t.id).collect()
}

fn ext_ids(store: &Store) -> Vec<i64> {
    store.ext_tasks.iter().map(|e| e.id).collect()
}

#[test]
fn hask_newtype_encodes_exactly() {
    assert_eq!(
        to_hask_newtype("ExternalSourceName", "X"),
        "ExternalSourceName {unExternalSourceName = \"X\"}"
    );
    assert_eq!(to_hask_newtype("N", ""), "N {unN = \"\"}");
}

#[test]
fn hask_newtype_decodes_exactly() {
    let encoded = to_hask_newtype("ExternalSourceName", "trello");
    assert_eq!(
        from_hask_newtype("ExternalSourceName", encoded.as_str()),
        Some("trello".to_string())
    );
    assert_eq!(from_hask_newtype("ExternalSourceName", ""), None);
    assert_eq!(from_hask_newtype("ExternalSourceName", "trello"), None);
    assert_eq!(
        from_hask_newtype("ExternalIdent", encoded.as_str()),
        None,
        "wrong constructor name"
    );
    assert_eq!(
        from_hask_newtype("N", "N {unN = \"x"),
        None,
        "missing closing quote and brace"
    );
    assert_eq!(from_hask_newtype("N", "N {unN = \"}"), None, "too short to hold an inner text");
}

#[test]
fn prune_deletes_exactly_the_stale_pair() {
    let mut store = scenario_store();
    let report = prune(&mut store, "a@example.com", "X", false, NOW).unwrap();
    assert_eq!(report.candidate_count, 1);
    assert_eq!(report.deleted_task_count, 1);
    assert_eq!(report.deleted_ext_task_count, 1);
    assert!(!report.dry_run);
    assert_eq!(task_ids(&store), vec![2, 3]);
    assert_eq!(ext_ids(&store), vec![102, 103]);
}

#[test]
fn dry_run_reports_candidates_and_removes_nothing() {
    let mut store = scenario_store();
    let report = prune(&mut store, "a@example.com", "X", true, NOW).unwrap();
    assert_eq!(report.candidate_count, 1);
    assert_eq!(report.deleted_task_count, 0);
    assert_eq!(report.deleted_ext_task_count, 0);
    assert!(report.dry_run);
    assert_eq!(task_ids(&store), vec![1, 2, 3]);
    assert_eq!(ext_ids(&store), vec![101, 102, 103]);
}

#[test]
fn failed_ext_delete_rolls_the_whole_transaction_back() {
    let mut store = scenario_store();
    let r = transact_delete(&mut store, 1, &vec![1i32], &vec![101i64], true);
    assert_eq!(r, Err(HibiError::DeleteFailed));
    // A subsequent load still shows the task half of the pair.
    assert_eq!(task_ids(&store), vec![1, 2, 3]);
    assert_eq!(ext_ids(&store), vec![101, 102, 103]);
    let source = to_hask_newtype("ExternalSourceName", "X");
    let pairs = store.load_open_pairs(1, Some(source.as_str()));
    assert!(pairs.iter().any(|(t, e)| t.id == 1 && e.id == 101));
}

#[test]
fn transact_delete_removes_both_halves() {
    let mut store = scenario_store();
    let counts = transact_delete(&mut store, 1, &vec![1i32], &vec![101i64], false).unwrap();
    assert_eq!(counts, (1, 1));
    assert_eq!(task_ids(&store), vec![2, 3]);
    assert_eq!(ext_ids(&store), vec![102, 103]);
}

#[test]
fn transact_delete_is_scoped_to_the_user() {
    let mut store = scenario_store();
    let counts = transact_delete(&mut store, 99, &vec![1i32], &vec![101i64], false).unwrap();
    assert_eq!(counts, (0, 0));
    assert_eq!(task_ids(&store), vec![1, 2, 3]);
}

#[test]
fn unknown_user_is_user_not_found() {
    let mut store = scenario_store();
    assert_eq!(
        prune(&mut store, "nobody@example.com", "X", false, NOW),
        Err(HibiError::UserNotFound)
    );
    assert_eq!(task_ids(&store), vec![1, 2, 3]);
}

#[test]
fn unresolvable_zone_is_fatal() {
    let mut store = scenario_store();
    store.users[0].time_zone = None;
    assert_eq!(
        prune(&mut store, "a@example.com", "X", false, NOW),
        Err(HibiError::InvalidTimeZone)
    );
    let mut store2 = scenario_store();
    store2.users[0].time_zone = Some("Europe/Berlin".to_string());
    assert_eq!(
        prune(&mut store2, "a@example.com", "X", true, NOW),
        Err(HibiError::InvalidTimeZone)
    );
    assert_eq!(task_ids(&store2), vec![1, 2, 3]);
}

#[test]
fn pruning_nothing_opens_no_transaction() {
    let mut store = scenario_store();
    // Source with no stale tasks: T2 is today's, hence not overdue.
    store.tasks.remove(0);
    let report = prune(&mut store, "a@example.com", "X", false, NOW).unwrap();
    assert_eq!(report.candidate_count, 0);
    assert_eq!(report.deleted_task_count, 0);
    assert_eq!(report.deleted_ext_task_count, 0);
    assert_eq!(task_ids(&store), vec![2, 3]);
}

#[test]
fn offset_changes_the_staleness_verdict() {
    // Scheduled one second before midnight, evaluated one second after it:
    // stale in the zero zone, not stale one hour east.
    let mut store = Store::new();
    store.users.push(user(1, "a@example.com", Some("+0000")));
    store.tasks.push(task(1, 1, 86399, Some(101)));
    store.ext_tasks.push(ext(101, 1, "X"));
    let report = prune(&mut store, "a@example.com", "X", true, 86400).unwrap();
    assert_eq!(report.candidate_count, 1);

    let mut store2 = Store::new();
    store2.users.push(user(1, "a@example.com", Some("+0100")));
    store2.tasks.push(task(1, 1, 86399, Some(101)));
    store2.ext_tasks.push(ext(101, 1, "X"));
    let report2 = prune(&mut store2, "a@example.com", "X", true, 86400).unwrap();
    assert_eq!(report2.candidate_count, 0);
}

#[test]
fn load_open_pairs_joins_and_filters() {
    let mut store = scenario_store();
    store.tasks.push(task(4, 1, YESTERDAY_10UTC, None)); // unlinked: never loaded
    let mut done_task = task(5, 1, YESTERDAY_10UTC, Some(104));
    done_task.done_at = Some(NOW);
    // A completed task is not part of the pruner's working set.
    store.tasks.push(done_task);
    store.ext_tasks.push(ext(104, 1, "X"));
    let source = to_hask_newtype("ExternalSourceName", "X");
    let pairs = store.load_open_pairs(1, Some(source.as_str()));
    let pair_ids: Vec<(i32, i64)> = pairs.iter().map(|(t, e)| (t.id, e.id)).collect();
    assert_eq!(pair_ids, vec![(1, 101), (2, 102)]);
    let all_pairs = store.load_open_pairs(1, None);
    let all_ids: Vec<(i32, i64)> = all_pairs.iter().map(|(t, e)| (t.id, e.id)).collect();
    assert_eq!(all_ids, vec![(1, 101), (2, 102), (3, 103)]);
}
