use kromodo_core::due::{bucket_for_days, due_label_for_days, format_due_display};
use kromodo_core::error::CoreError;
use kromodo_core::migration::migration_steps;
use kromodo_core::priority::Priority;
use kromodo_core::task::{plan_duplicate, plan_new_task, plan_toggle, plan_update, Task};
use kromodo_core::text::{is_white_space, trim};
use kromodo_core::time::{
    date_day, format_day, local_day, local_midnight, one_day_later, today_range_at, MAX_DAY, MAX_SECS, MIN_DAY,
    MIN_SECS,
};
use kromodo_core::{due_bucket, DueBucket, Timestamp};

fn ts(secs: i64) -> Timestamp {
    Timestamp { secs, nanos: 0 }
}

fn clock() -> Timestamp {
    let since = std::time::SystemTime::now()
        .duration_since(std::time::UNIX_EPOCH)
        .expect("clock after 1970");
    Timestamp { secs: since.as_secs() as i64, nanos: since.subsec_nanos() }
}

fn sample(id: i64) -> Task {
    Task {
        id,
        title: "Buy milk".to_string(),
        description: "two litres".to_string(),
        is_done: false,
        priority: Priority::Medium,
        due_date: Some(ts(1_000)),
        has_due_time: false,
        created_at: ts(100),
        updated_at: ts(100),
        completed_at: None,
    }
}

#[test]
fn priority_numbers() {
    assert_eq!(Priority::Unset.as_i8(), 0);
    assert_eq!(Priority::Low.as_i8(), 1);
    assert_eq!(Priority::Medium.as_i8(), 2);
    assert_eq!(Priority::High.as_i8(), 3);
    assert_eq!(Priority::Urgent.as_i8(), 4);
    assert_eq!(i8::from(Priority::High), 3);
    assert_eq!(Priority::Urgent.to_sql_value(), 4i64);
    assert_eq!(Priority::default(), Priority::Unset);
}

#[test]
fn priority_from_numbers() {
    assert_eq!(Priority::try_from(2i8), Ok(Priority::Medium));
    assert_eq!(Priority::try_from(0i8), Ok(Priority::Unset));
    assert_eq!(Priority::try_from(5i8), Err(5));
    assert_eq!(Priority::from_i8(-1), Err(-1));
    for p in [Priority::Unset, Priority::Low, Priority::Medium, Priority::High, Priority::Urgent] {
        assert_eq!(Priority::from_i8(p.as_i8()), Ok(p));
        assert_eq!(Priority::from_sql_value(p.to_sql_value()), p);
    }
}

#[test]
fn priority_from_stored_values() {
    assert_eq!(Priority::from_sql_value(1), Priority::Low);
    assert_eq!(Priority::from_sql_value(4), Priority::Urgent);
    assert_eq!(Priority::from_sql_value(0), Priority::Unset);
    assert_eq!(Priority::from_sql_value(7), Priority::Unset);
    assert_eq!(Priority::from_sql_value(-3), Priority::Unset);
}

#[test]
fn priority_order() {
    assert!(Priority::Low.is_below(Priority::Urgent));
    assert!(!Priority::High.is_below(Priority::Medium));
    assert!(Priority::Unset < Priority::Low);
}

#[test]
fn trimming() {
    assert_eq!(trim("  hello world \t\n"), "hello world");
    assert_eq!(trim("\u{3000}wide\u{00A0}"), "wide");
    assert_eq!(trim("   "), "");
    assert_eq!(trim(""), "");
    assert_eq!(trim("a"), "a");
    assert_eq!(trim(" a b "), "a b");
    assert_eq!(trim(trim("  x  ").as_str()), "x");
    for s in ["  a\u{2003}", "\u{85}b\u{2028}c ", "x\u{200B}"] {
        assert_eq!(trim(s), s.trim());
    }
}

#[test]
fn whitespace_chars() {
    for c in [' ', '\t', '\n', '\r', '\u{0B}', '\u{0C}', '\u{85}', '\u{A0}', '\u{1680}', '\u{2000}', '\u{200A}', '\u{2028}', '\u{2029}', '\u{202F}', '\u{205F}', '\u{3000}'] {
        assert!(is_white_space(c));
        assert!(c.is_whitespace());
    }
    for c in ['a', '0', '\u{200B}', '\u{FEFF}', '_'] {
        assert!(!is_white_space(c));
        assert!(!c.is_whitespace());
    }
}

#[test]
fn new_task_is_trimmed() {
    let n = plan_new_task("  Buy milk ", " two litres\n", Priority::High, Some(ts(5)), true, ts(42)).unwrap();
    assert_eq!(n.title, "Buy milk");
    assert_eq!(n.description, "two litres");
    assert_eq!(n.priority, Priority::High);
    assert_eq!(n.due_date, Some(ts(5)));
    assert!(n.has_due_time);
    assert_eq!(n.created_at, ts(42));
    let t = n.into_task(7);
    assert_eq!(t.id, 7);
    assert!(!t.is_done);
    assert_eq!(t.updated_at, ts(42));
    assert_eq!(t.completed_at, None);
}

#[test]
fn empty_title_refused() {
    let r = plan_new_task("   ", "desc", Priority::Unset, None, false, ts(1));
    assert_eq!(r, Err(CoreError::Validation("Title can't be empty.".to_string())));
    let e = r.unwrap_err();
    assert_eq!(e.message(), "Validation-Error: Title can't be empty.");
}

#[test]
fn error_messages() {
    assert_eq!(CoreError::Database("disk I/O error".to_string()).message(), "Database-Error: disk I/O error");
    assert_eq!(CoreError::Validation(String::new()).message(), "Validation-Error: ");
}

#[test]
fn toggling_records_completion() {
    let t = sample(3);
    let done = t.toggled(ts(500));
    assert!(done.is_done);
    assert_eq!(done.completed_at, Some(ts(500)));
    assert_eq!(done.updated_at, ts(500));
    assert_eq!(done.title, t.title);
    let open = done.toggled(ts(600));
    assert!(!open.is_done);
    assert_eq!(open.completed_at, None);
    assert_eq!(open.updated_at, ts(600));
    assert_eq!(plan_toggle(None, ts(1)), None);
    assert_eq!(plan_toggle(Some(&t), ts(500)), Some(done));
}

#[test]
fn editing_a_task() {
    let stored = sample(4).toggled(ts(300));
    let mut edit = sample(4);
    edit.title = "  Buy oat milk ".to_string();
    edit.description = " ".to_string();
    edit.priority = Priority::Urgent;
    edit.due_date = None;
    edit.is_done = false;
    let t = stored.edited(&edit, ts(900)).unwrap();
    assert_eq!(t.title, "Buy oat milk");
    assert_eq!(t.description, "");
    assert_eq!(t.priority, Priority::Urgent);
    assert_eq!(t.due_date, None);
    assert!(t.is_done);
    assert_eq!(t.completed_at, Some(ts(300)));
    assert_eq!(t.created_at, ts(100));
    assert_eq!(t.updated_at, ts(900));
    edit.title = "\t".to_string();
    assert!(stored.edited(&edit, ts(900)).is_err());
}

#[test]
fn planning_updates() {
    let stored = sample(5);
    let edit = sample(5);
    assert_eq!(plan_update(None, &edit, ts(1)), Ok(None));
    let r = plan_update(Some(&stored), &edit, ts(77)).unwrap().unwrap();
    assert_eq!(r.updated_at, ts(77));
    let mut bad = sample(5);
    bad.title = String::new();
    assert!(matches!(plan_update(Some(&stored), &bad, ts(1)), Err(CoreError::Validation(_))));
}

#[test]
fn duplicating() {
    let t = sample(9).toggled(ts(200));
    let d = plan_duplicate(Some(&t), ts(1000)).unwrap();
    assert_eq!(d.title, t.title);
    assert_eq!(d.priority, t.priority);
    assert_eq!(d.due_date, t.due_date);
    assert_eq!(d.created_at, ts(1000));
    let copy = d.into_task(10);
    assert!(!copy.is_done);
    assert_eq!(copy.completed_at, None);
    assert_eq!(plan_duplicate(None, ts(1)), Err(CoreError::Database("Query returned no rows".to_string())));
}

#[test]
fn buckets_of_days() {
    assert_eq!(bucket_for_days(100, 100), DueBucket::Today);
    assert_eq!(bucket_for_days(101, 100), DueBucket::Tomorrow);
    assert_eq!(bucket_for_days(99, 100), DueBucket::Yesterday);
    assert_eq!(bucket_for_days(102, 100), DueBucket::Other);
    assert_eq!(bucket_for_days(98, 100), DueBucket::Other);
}

#[test]
fn due_labels() {
    assert_eq!(due_label_for_days(719_163, 719_163), "Today");
    assert_eq!(due_label_for_days(719_164, 719_163), "Tomorrow");
    assert_eq!(due_label_for_days(719_162, 719_163), "Yesterday");
    // 1970-01-01 was a Thursday.
    assert_eq!(due_label_for_days(719_163, 700_000), "Thu, 1 Jan");
    assert_eq!(format_day(719_163 + 31), "Sun, 1 Feb");
    assert_eq!(format_due_display(None, clock()), None);
}

#[test]
fn same_instant_is_due_today() {
    let n = clock();
    assert_eq!(due_bucket(n, n), DueBucket::Today);
    assert_eq!(format_due_display(Some(n), n), Some("Today".to_string()));
    assert_eq!(local_day(&n), local_day(&n));
}

#[test]
fn calendar_dates() {
    assert_eq!(date_day(1970, 1, 1), Some(719_163));
    assert_eq!(date_day(2024, 2, 30), None);
    assert_eq!(date_day(2024, 13, 1), None);
    assert_eq!(date_day(1, 1, 1), Some(1));
}

#[test]
fn clock_and_days() {
    let n = clock();
    assert!(n.secs > 1_600_000_000);
    assert!(n.nanos < 1_000_000_000);
    let later = one_day_later(n);
    assert_eq!(later.secs, n.secs + 86_400);
    assert_eq!(later.nanos, n.nanos);
    let (start, end) = today_range_at(&n).expect("local day");
    assert!(start.before(&end));
    assert!(!n.before(&start));
    assert!(n.before(&end));
}

#[test]
fn ordering_instants() {
    assert!(Timestamp { secs: 5, nanos: 9 }.before(&Timestamp { secs: 6, nanos: 0 }));
    assert!(Timestamp { secs: 5, nanos: 1 }.before(&Timestamp { secs: 5, nanos: 2 }));
    assert!(!Timestamp { secs: 5, nanos: 2 }.before(&Timestamp { secs: 5, nanos: 2 }));
    assert!(!Timestamp { secs: -1, nanos: 0 }.before(&Timestamp { secs: -2, nanos: 999 }));
}

#[test]
fn overdue_tasks() {
    let n = clock();
    let mut t = sample(1);
    t.due_date = Some(Timestamp { secs: n.secs - 3 * 86_400, nanos: 0 });
    assert!(t.is_overdue(n));
    t.is_done = true;
    assert!(!t.is_overdue(n));
    t.is_done = false;
    t.due_date = None;
    assert!(!t.is_overdue(n));
    t.due_date = Some(n);
    assert!(!t.is_overdue(n));
}

#[test]
fn migrations_to_run() {
    assert_eq!(migration_steps(0), vec![1, 2]);
    assert_eq!(migration_steps(-5), vec![1, 2]);
    assert_eq!(migration_steps(1), vec![2]);
    assert_eq!(migration_steps(2), Vec::<i32>::new());
    assert_eq!(migration_steps(9), Vec::<i32>::new());
}

#[test]
fn local_range_edges() {
    assert!(Timestamp { secs: 59, nanos: 1_500_000_000 }.is_in_local_range());
    assert!(!Timestamp { secs: 58, nanos: 1_500_000_000 }.is_in_local_range());
    assert!(Timestamp { secs: -1, nanos: 1_500_000_000 }.is_in_local_range());
    assert!(!Timestamp { secs: -2, nanos: 1_500_000_000 }.is_in_local_range());
    assert!(!Timestamp { secs: 0, nanos: 2_000_000_000 }.is_in_local_range());
    assert!(Timestamp { secs: 8_210_266_876_799 - 86_400, nanos: 0 }.is_in_local_range());
    assert!(!Timestamp { secs: 8_210_266_876_799 - 86_399, nanos: 0 }.is_in_local_range());
    assert!(!Timestamp { secs: -8_334_601_228_800, nanos: 0 }.is_in_local_range());
}

#[test]
fn calendar_limits_match_chrono() {
    assert_eq!(date_day(-262143, 1, 1), Some(MIN_DAY));
    assert_eq!(date_day(262142, 12, 31), Some(MAX_DAY));
    assert_eq!(date_day(262143, 1, 1), None);
    assert_eq!(date_day(-262144, 12, 31), None);
    assert!(chrono::DateTime::from_timestamp(MIN_SECS, 0).is_some());
    assert!(chrono::DateTime::from_timestamp(MIN_SECS - 1, 999_999_999).is_none());
    assert!(chrono::DateTime::from_timestamp(MAX_SECS, 999_999_999).is_some());
    assert!(chrono::DateTime::from_timestamp(MAX_SECS + 1, 0).is_none());
    assert_eq!(chrono::DateTime::<chrono::Utc>::MIN_UTC.timestamp(), MIN_SECS);
    assert_eq!(chrono::DateTime::<chrono::Utc>::MAX_UTC.timestamp(), MAX_SECS);
}

#[test]
fn day_bounds_need_both_midnights() {
    use_day_bounds();
}

fn use_day_bounds() {
    let a = Timestamp { secs: 100, nanos: 0 };
    let b = Timestamp { secs: 86_500, nanos: 0 };
    assert_eq!(kromodo_core::time::day_bounds(Some(a), Some(b)), Some((a, b)));
    assert_eq!(kromodo_core::time::day_bounds(None, Some(b)), None);
    assert_eq!(kromodo_core::time::day_bounds(Some(a), None), None);
}

#[test]
fn leap_days_and_invalid_dates() {
    assert_eq!(date_day(2024, 2, 29), Some(738_945));
    assert_eq!(date_day(2023, 2, 29), None);
    assert_eq!(date_day(2000, 2, 29), Some(730_179));
    assert_eq!(date_day(1900, 2, 29), None);
    assert_eq!(date_day(2024, 0, 1), None);
    assert_eq!(date_day(2024, 1, 0), None);
    assert_eq!(date_day(2024, 4, 31), None);
    assert_eq!(date_day(0, 12, 31), Some(0));
    assert_eq!(date_day(-262_144, 12, 31), None);
}

#[test]
fn overdue_by_local_days() {
    let mut t = sample(1);
    assert!(t.overdue_on_local_days(738_944, 738_945));
    assert!(t.overdue_on_local_days(738_944, 800_000));
    assert!(!t.overdue_on_local_days(738_945, 738_945));
    assert!(!t.overdue_on_local_days(738_946, 738_945));
    t.is_done = true;
    assert!(!t.overdue_on_local_days(738_944, 738_945));
    t.is_done = false;
    t.due_date = None;
    assert!(!t.overdue_on_local_days(738_944, 738_945));
}

#[test]
fn local_days_stay_near_utc_days() {
    // 2024-03-15 is day 738 960; its UTC midnight is second 1 710 460 800.
    let d = local_day(&ts(1_710_460_800 + 43_200));
    assert!((d - 738_960).abs() <= 1);
    assert_eq!(date_day(2024, 3, 15), Some(738_960));
    if let Some(m) = local_midnight(738_960) {
        assert_eq!(m.nanos, 0);
        assert!((m.secs - 1_710_460_800).abs() < 86_400);
    }
}

#[test]
fn one_day_after_a_leap_second() {
    let leap = Timestamp { secs: 59, nanos: 1_500_000_000 };
    assert_eq!(one_day_later(leap), Timestamp { secs: 86_459, nanos: 500_000_000 });
    let plain = Timestamp { secs: 59, nanos: 999_999_999 };
    assert_eq!(one_day_later(plain), Timestamp { secs: 86_459, nanos: 999_999_999 });
}
