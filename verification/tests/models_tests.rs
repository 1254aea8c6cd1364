use hibi2::models::{to_hask_newtype, ExtTask, Schedule, Task, User};

fn base_task() -> Task {
    Task {
        id: 1,
        user_id: 1,
        title: "buy milk".to_string(),
        pomos: 0,
        scheduled_for: 36000, // 1970-01-01 10:00 UTC
        done_at: None,
        active: true,
        order: 0,
        schedule: Schedule::Once,
        ext_task_id: None,
    }
}

#[test]
fn task_describe_plain() {
    assert_eq!(
        base_task().describe(),
        "Task \"buy milk\" scheduled for 1970-01-01 10am UTC"
    );
}

#[test]
fn task_describe_with_schedule_ext_and_completion() {
    let mut t = base_task();
    t.schedule = Schedule::Daily;
    t.ext_task_id = Some(9);
    t.done_at = Some(86400 + 13 * 3600); // 1970-01-02 13:00 UTC
    assert_eq!(
        t.describe(),
        "Task (Daily) (ext) \"buy milk\" scheduled for 1970-01-01 10am UTC, done at 1970-01-02 1pm UTC"
    );
}

#[test]
fn ext_task_describe_decodes_both_identifiers() {
    let e = ExtTask {
        id: 1,
        user_id: 1,
        ext_id: to_hask_newtype("ExternalIdent", "card-17"),
        ext_source_name: to_hask_newtype("ExternalSourceName", "trello"),
        ext_url: None,
        ext_status: None,
    };
    assert_eq!(e.describe(), Some("Ext task trello card-17".to_string()));
}

#[test]
fn ext_task_describe_refuses_unencoded_identifiers() {
    let e = ExtTask {
        id: 1,
        user_id: 1,
        ext_id: "card-17".to_string(),
        ext_source_name: to_hask_newtype("ExternalSourceName", "trello"),
        ext_url: None,
        ext_status: None,
    };
    assert_eq!(e.describe(), None);
}

#[test]
fn user_describe_names_the_identity() {
    let u = User {
        id: 1,
        ident: "a@example.com".to_string(),
        password: None,
        time_zone: None,
        features: String::new(),
    };
    assert_eq!(u.describe(), "User a@example.com");
}

#[test]
fn cloned_rows_keep_their_fields() {
    let t = base_task();
    let c = t.clone();
    assert_eq!(c.id, t.id);
    assert_eq!(c.title, t.title);
    assert_eq!(c.scheduled_for, t.scheduled_for);
    assert_eq!(c.done_at, t.done_at);
}
