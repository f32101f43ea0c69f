use inventorix_server::datetime::{
    format_clock, format_clock_and_date, format_date, parse_sqlite_datetime, placeholder_text, CivilDate,
};
use inventorix_server::jobs::timers::{expired_refills, seconds_until_next_midnight, until_next_midnight, TimedRefill};
use inventorix_server::order::{apply_permutation, sort_by_count_desc, sort_by_text};
use inventorix_server::routes::history::{fmt_duration, fmt_ts};
use inventorix_server::text::{
    chars_lt, chars_of, copy_opt, is_whitespace, owned, push_int, push_nat, push_two_digits, text_contains,
    text_ends_with, text_eq, text_starts_with, trim,
};

fn chars(s: &str) -> Vec<char> {
    s.chars().collect()
}

#[test]
fn trim_matches_std() {
    for s in ["  hi  ", "\t\n x y \r\n", "", "   ", "\u{3000}wide\u{00a0}", "a"] {
        assert_eq!(trim(s), s.trim(), "{s:?}");
    }
    assert!(is_whitespace(' ') && is_whitespace('\u{2028}') && !is_whitespace('x'));
}

#[test]
fn text_search_helpers() {
    assert!(text_starts_with("2026-03-31 10:00:00", "2026-03-31"));
    assert!(!text_starts_with("2026-03", "2026-03-31"));
    assert!(text_ends_with("report.XLS", ".XLS"));
    assert!(!text_ends_with("s", ".xls"));
    assert!(text_contains("UNIQUE constraint failed: users.email", "UNIQUE"));
    assert!(!text_contains("FOREIGN KEY constraint failed", "UNIQUE"));
    assert!(text_contains("abc", ""));
    assert!(text_eq("abc", "abc") && !text_eq("abc", "abd") && !text_eq("ab", "abc"));
    assert_eq!(chars_of("héllo"), chars("héllo"));
    assert_eq!(owned("x"), "x".to_string());
    assert_eq!(copy_opt(&Some("a".to_string())), Some("a".to_string()));
    assert_eq!(copy_opt(&None), None);
}

#[test]
fn decimal_rendering() {
    let mut s = String::from("n=");
    push_nat(&mut s, 0);
    s.push(',');
    push_nat(&mut s, 1234567);
    s.push(',');
    push_int(&mut s, -42);
    s.push(',');
    push_int(&mut s, i64::MIN);
    s.push(',');
    push_two_digits(&mut s, 7);
    s.push(',');
    push_two_digits(&mut s, 59);
    assert_eq!(s, "n=0,1234567,-42,-9223372036854775808,07,59");
}

#[test]
fn lexicographic_order() {
    assert!(chars_lt(&chars("2026-01-01 10:00:00"), &chars("2026-01-02 00:00:00")));
    assert!(chars_lt(&chars("ab"), &chars("abc")));
    assert!(!chars_lt(&chars("abc"), &chars("abc")));
    assert!(!chars_lt(&chars("b"), &chars("abc")));
}

#[test]
fn stable_text_sort() {
    let keys = vec![chars("b"), chars("a"), chars("b"), chars("c")];
    assert_eq!(sort_by_text(&keys, false), vec![1, 0, 2, 3]);
    assert_eq!(sort_by_text(&keys, true), vec![3, 0, 2, 1]);
    assert_eq!(sort_by_text(&vec![], true), Vec::<usize>::new());
}

#[test]
fn stable_count_sort_and_permutation() {
    let keys: Vec<i128> = vec![3, 9, 3, -1, 9];
    let p = sort_by_count_desc(&keys);
    assert_eq!(p, vec![1, 4, 0, 2, 3]);
    let items = vec!["a", "b", "c", "d", "e"];
    assert_eq!(apply_permutation(items, &p), vec!["b", "e", "a", "c", "d"]);
}

#[test]
fn clock_and_date_formats() {
    assert_eq!(format_clock(0, 5), "12:05 AM");
    assert_eq!(format_clock(12, 0), "12:00 PM");
    assert_eq!(format_clock(14, 30), "2:30 PM");
    assert_eq!(format_clock(9, 7), "9:07 AM");
    assert_eq!(format_date(2026, 3, 31), "Mar 31, 2026");
    assert_eq!(format_date(2025, 12, 1), "Dec 1, 2025");
    assert_eq!(placeholder_text(), "—");
}

#[test]
fn sqlite_datetimes_parse() {
    let t = parse_sqlite_datetime("2026-03-31 14:30:05").expect("valid");
    assert_eq!((t.year, t.month, t.day, t.hour, t.minute, t.second), (2026, 3, 31, 14, 30, 5));
    let expect = chrono::NaiveDateTime::parse_from_str("2026-03-31 14:30:05", "%Y-%m-%d %H:%M:%S")
        .unwrap()
        .and_utc()
        .timestamp();
    assert_eq!(t.unix_secs, expect);
    assert_eq!(format_clock_and_date(&t), ("2:30 PM".to_string(), "Mar 31, 2026".to_string()));
    assert!(parse_sqlite_datetime("2026-02-30 00:00:00").is_none());
    assert!(parse_sqlite_datetime("yesterday").is_none());
}

#[test]
fn history_timestamps() {
    assert_eq!(fmt_ts("2026-03-31 00:15:00"), ("12:15 AM".to_string(), "Mar 31, 2026".to_string()));
    assert_eq!(fmt_ts("2026-04-01T18:45:00+00:00"), ("6:45 PM".to_string(), "Apr 1, 2026".to_string()));
    assert_eq!(fmt_ts("garbage"), ("—".to_string(), "—".to_string()));
}

#[test]
fn processing_durations() {
    assert_eq!(fmt_duration("2026-01-01 10:00:00", "2026-01-01 12:30:59").as_deref(), Some("2h 30m"));
    assert_eq!(fmt_duration("2026-01-01 10:00:00", "2026-01-01 10:45:00").as_deref(), Some("45m"));
    assert_eq!(fmt_duration("2026-01-02 10:00:00", "2026-01-01 10:00:00").as_deref(), Some("0m"));
    assert_eq!(fmt_duration("2026-01-01 10:00:00", "2026-01-03 11:01:00").as_deref(), Some("49h 1m"));
    assert_eq!(fmt_duration("bad", "2026-01-01 10:00:00"), None);
    assert_eq!(fmt_duration("2026-01-01 10:00:00", "bad"), None);
}

#[test]
fn seconds_to_midnight() {
    assert_eq!(seconds_until_next_midnight(0), 86_400);
    assert_eq!(seconds_until_next_midnight(86_399), 1);
    assert_eq!(seconds_until_next_midnight(86_400 * 20_000 + 3_600), 82_800);
    let s = until_next_midnight().expect("the clock is past 1970");
    assert!((1..=86_400).contains(&s));
}

#[test]
fn pending_requests_past_their_timer_expire() {
    let rows = vec![
        TimedRefill { id: 1, branch_id: 10, status: "pending".into(), timer_expires_at: "2026-01-01 09:59:59".into() },
        TimedRefill { id: 2, branch_id: 10, status: "pending".into(), timer_expires_at: "2026-01-01 10:00:00".into() },
        TimedRefill { id: 3, branch_id: 20, status: "approved".into(), timer_expires_at: "2025-01-01 00:00:00".into() },
        TimedRefill { id: 4, branch_id: 20, status: "pending".into(), timer_expires_at: "2025-12-31 23:00:00".into() },
    ];
    assert_eq!(expired_refills(&rows, "2026-01-01 10:00:00"), vec![(1, 10), (4, 20)]);
    assert_eq!(expired_refills(&rows, "2000-01-01 00:00:00"), vec![]);
}

#[test]
fn calendar_order() {
    let a = CivilDate { year: 2026, month: 3, day: 31 };
    let b = CivilDate { year: 2026, month: 4, day: 1 };
    assert!(a.is_before(&b));
    assert!(!b.is_before(&a));
    assert!(!a.is_before(&a));
}
