use hibi2::models::{Schedule, Task};
use hibi2::views::{
    default_horizon, parse_task_set_type, select_tasks, task_set_from_query, TaskSet,
    TaskSetType,
};

fn vtask(
    id: i32,
    scheduled_for: i64,
    done_at: Option<i64>,
    active: bool,
    order: i64,
) -> Task {
    Task {
        id,
        user_id: 7,
        title: format!("task {}", id),
        pomos: 0,
        scheduled_for,
        done_at,
        active,
        order,
        schedule: Schedule::Once,
        ext_task_id: None,
    }
}

fn ids(tasks: &[Task]) -> Vec<i32> {
    tasks.iter().map(|t| t.id).collect()
}

#[test]
fn schedule_labels_round_trip() {
    for s in [Schedule::Once, Schedule::Daily, Schedule::Weekly, Schedule::Fortnightly] {
        assert_eq!(Schedule::parse(s.label().as_str()), Some(s));
    }
    assert_eq!(Schedule::parse("once"), None);
    assert_eq!(Schedule::parse(""), None);
    assert_eq!(Schedule::Fortnightly.label(), "Fortnightly");
}

#[test]
fn query_type_parsing() {
    assert_eq!(parse_task_set_type("today"), Some(TaskSetType::Today));
    assert_eq!(parse_task_set_type("postponed"), Some(TaskSetType::Postponed));
    assert_eq!(parse_task_set_type("done"), Some(TaskSetType::Done));
    assert_eq!(parse_task_set_type("Today"), None);
    assert_eq!(parse_task_set_type(""), None);
    assert_eq!(TaskSetType::default(), TaskSetType::Today);
}

#[test]
fn query_to_task_set() {
    let now: i64 = 1_000_000_000;
    assert_eq!(task_set_from_query(TaskSetType::Today, None, now), Some(TaskSet::Today));
    assert_eq!(
        task_set_from_query(TaskSetType::Postponed, None, now),
        Some(TaskSet::Postponed)
    );
    assert_eq!(
        task_set_from_query(TaskSetType::Done, Some(3), now),
        Some(TaskSet::DoneSince(now - 3 * 86400))
    );
    // Days cannot accompany the Today or Postponed views.
    assert_eq!(task_set_from_query(TaskSetType::Today, Some(1), now), None);
    assert_eq!(task_set_from_query(TaskSetType::Postponed, Some(1), now), None);
}

#[test]
fn omitted_horizon_equals_fourteen_days() {
    let now: i64 = 1_000_000_000;
    assert_eq!(default_horizon(now), now - 14 * 86400);
    assert_eq!(
        task_set_from_query(TaskSetType::Done, None, now),
        task_set_from_query(TaskSetType::Done, Some(14), now)
    );
}

#[test]
fn today_view_filters_and_orders_by_explicit_order() {
    let eot: i64 = 3 * 86400 + 86399;
    let tasks = vec![
        vtask(1, 3 * 86400 + 100, None, true, 30),
        vtask(2, 86400, None, true, 10),
        vtask(3, 5 * 86400, None, true, 5),       // postponed
        vtask(4, 100, Some(200), true, 1),        // done
        vtask(5, 100, None, false, 2),            // inactive
        vtask(6, eot, None, true, 20),
    ];
    let r = select_tasks(&tasks, 7, &TaskSet::Today, eot);
    assert_eq!(ids(&r), vec![2, 6, 1]);
}

#[test]
fn today_view_is_scoped_to_the_user() {
    let eot: i64 = 86399;
    let mut other = vtask(9, 100, None, true, 0);
    other.user_id = 8;
    let tasks = vec![vtask(1, 100, None, true, 0), other];
    let r = select_tasks(&tasks, 7, &TaskSet::Today, eot);
    assert_eq!(ids(&r), vec![1]);
}

#[test]
fn postponed_view_orders_by_scheduled_instant() {
    let eot: i64 = 86399;
    let tasks = vec![
        vtask(1, 5 * 86400, None, true, 1),
        vtask(2, 2 * 86400, None, true, 2),
        vtask(3, 80000, None, true, 3),           // today, not postponed
        vtask(4, 9 * 86400, Some(1), true, 4),    // done
        vtask(5, 3 * 86400, None, true, 5),
    ];
    let r = select_tasks(&tasks, 7, &TaskSet::Postponed, eot);
    assert_eq!(ids(&r), vec![2, 5, 1]);
}

#[test]
fn done_view_is_exactly_the_horizon_cut_ordered_descending() {
    let horizon: i64 = 1000;
    let tasks = vec![
        vtask(1, 0, Some(999), true, 1),          // before the horizon
        vtask(2, 0, Some(1000), true, 2),         // exactly at it: included
        vtask(3, 0, Some(5000), false, 3),        // active flag is irrelevant here
        vtask(4, 0, None, true, 4),               // open
        vtask(5, 0, Some(2000), true, 5),
    ];
    let r = select_tasks(&tasks, 7, &TaskSet::DoneSince(horizon), 0);
    assert_eq!(ids(&r), vec![3, 5, 2]);
    let done: Vec<i64> = r.iter().map(|t| t.done_at.unwrap()).collect();
    assert!(done.windows(2).all(|w| w[0] > w[1]), "strictly descending: {:?}", done);
}

#[test]
fn today_and_postponed_partition_the_open_active_tasks() {
    let eot: i64 = 3 * 86400 + 86399;
    let tasks = vec![
        vtask(1, 100, None, true, 1),
        vtask(2, eot, None, true, 2),
        vtask(3, eot + 1, None, true, 3),
        vtask(4, 9 * 86400, None, true, 4),
        vtask(5, 100, Some(50), true, 5),
        vtask(6, 100, None, false, 6),
    ];
    let today = select_tasks(&tasks, 7, &TaskSet::Today, eot);
    let postponed = select_tasks(&tasks, 7, &TaskSet::Postponed, eot);
    let mut union = ids(&today);
    union.extend(ids(&postponed));
    union.sort();
    // Together exactly the open, active tasks; separately disjoint.
    assert_eq!(union, vec![1, 2, 3, 4]);
    for id in ids(&today) {
        assert!(!ids(&postponed).contains(&id));
    }
}
