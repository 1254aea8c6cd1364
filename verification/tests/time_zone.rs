use hibi2::errors::HibiError;
use hibi2::models::{Schedule, Task, User};
use hibi2::time::{is_overdue_at, local_day, resolve_offset, MAX_INSTANT};

fn user_with_zone(tz: Option<&str>) -> User {
    User {
        id: 1,
        ident: "a@example.com".to_string(),
        password: None,
        time_zone: tz.map(|s| s.to_string()),
        features: String::new(),
    }
}

fn plain_task(scheduled_for: i64) -> Task {
    Task {
        id: 1,
        user_id: 1,
        title: "t".to_string(),
        pomos: 0,
        scheduled_for,
        done_at: None,
        active: true,
        order: 0,
        schedule: Schedule::Once,
        ext_task_id: None,
    }
}

#[test]
fn resolve_zero_offset() {
    assert_eq!(resolve_offset("+0000"), Ok(0));
}

#[test]
fn resolve_negative_offset() {
    assert_eq!(resolve_offset("-0500"), Ok(-(5 * 3600)));
}

#[test]
fn resolve_half_hour_offset() {
    assert_eq!(resolve_offset("+0530"), Ok(5 * 3600 + 30 * 60));
}

#[test]
fn resolve_ignores_trailing_text() {
    assert_eq!(resolve_offset("+0100 and whatever follows"), Ok(3600));
}

#[test]
fn resolve_accepts_out_of_range_digits() {
    // Hours above 23 and minutes above 59 are accepted as-is: a documented
    // limitation, not corrected.
    assert_eq!(resolve_offset("+9999"), Ok(99 * 3600 + 99 * 60));
}

#[test]
fn resolve_rejects_bad_strings() {
    for bad in ["", "0530", "+05", "+05a0", "~0500", "+-500", "UTC", "utc+0100"] {
        assert_eq!(resolve_offset(bad), Err(HibiError::InvalidTimeZone), "input {:?}", bad);
    }
}

#[test]
fn user_without_zone_is_invalid() {
    assert_eq!(user_with_zone(None).try_time_zone_offset(), Err(HibiError::InvalidTimeZone));
    assert_eq!(
        user_with_zone(Some("Europe/London")).try_time_zone_offset(),
        Err(HibiError::InvalidTimeZone)
    );
}

#[test]
fn user_zone_resolves() {
    assert_eq!(user_with_zone(Some("-0930")).try_time_zone_offset(), Ok(-(9 * 3600 + 30 * 60)));
    assert_eq!(user_with_zone(Some("+0200")).time_zone_offset(), 2 * 3600);
}

#[test]
fn overdue_is_a_calendar_date_comparison() {
    let yesterday_morning: i64 = 2 * 86400 + 36000;
    let today_morning: i64 = 3 * 86400 + 36000;
    let today_evening: i64 = 3 * 86400 + 80000;
    assert!(is_overdue_at(yesterday_morning, 0, today_morning));
    // Scheduled earlier the same local day: never overdue, whatever the time.
    assert!(!is_overdue_at(today_morning, 0, today_evening));
    assert!(!is_overdue_at(today_evening, 0, today_morning));
}

#[test]
fn overdue_verdict_can_flip_with_the_offset() {
    // One second before midnight against one second after it.
    assert!(is_overdue_at(86399, 0, 86400));
    // One hour east, both instants fall on the same local date.
    assert!(!is_overdue_at(86399, 3600, 86400));
}

#[test]
fn local_day_handles_instants_before_the_epoch() {
    assert_eq!(local_day(0, 0), 0);
    assert_eq!(local_day(-1, 0), -1);
    assert_eq!(local_day(-86400, 0), -1);
    assert_eq!(local_day(-86401, 0), -2);
    assert_eq!(local_day(-1, 3600), 0);
}

#[test]
fn local_day_matches_chrono() {
    let epoch = chrono::NaiveDate::from_ymd_opt(1970, 1, 1).unwrap();
    let offsets: [i32; 6] = [0, 3600, -3600, 19800, -16200, 45900];
    let stamps: [i64; 9] =
        [0, 1, -1, 86399, 86400, -86400, 1234567890, -1234567890, 253402300799];
    for &off in &offsets {
        let zone = chrono::FixedOffset::east_opt(off).unwrap();
        for &t in &stamps {
            let local = chrono::DateTime::from_timestamp(t, 0).unwrap().with_timezone(&zone);
            let days = local.date_naive().signed_duration_since(epoch).num_days();
            assert_eq!(local_day(t, off), days, "timestamp {} offset {}", t, off);
        }
    }
}

#[test]
fn task_in_time_zone_shifts_instants() {
    let mut t = plain_task(1000);
    t.done_at = Some(2000);
    let zoned = t.in_time_zone(3600);
    assert_eq!(zoned.timezone(), 3600);
    assert_eq!(zoned.scheduled_for(), 4600);
    assert_eq!(zoned.done_at(), Some(5600));
    assert!(zoned.is_overdue(90000));
    assert!(!zoned.is_overdue(1000));
}

#[test]
fn far_future_task_is_not_overdue_now() {
    // The clock wrapper promises an instant within the calendar range, so a
    // task scheduled at the very end of that range can never be overdue.
    let t = plain_task(MAX_INSTANT);
    assert!(!t.in_time_zone(0).is_overdue_now());
}
