use inventorix_server::auth::extractor::{AuthUser, Role};
use inventorix_server::datetime::CivilDate;
use inventorix_server::error::AppError;
use inventorix_server::routes::chat::{
    assemble_branch_chat, chat_event, chat_log_date, chat_log_path, chat_log_record, chat_logs_to_purge, check_handled, logs_dated_before,
    fmt_chat_ts, recent_chat_log_paths, should_purge, validate_chat_message, RawChatLine,
};
use inventorix_server::routes::history::{build_history, GiveOutRow, NoteEditRow, RefillHistoryRow};
use inventorix_server::ws::manager::WsEvent;

fn auth(role: Role) -> AuthUser {
    AuthUser { id: 4, role, branch_id: 1, name: "Sam".to_string() }
}

fn line(ts: &str, branch: i64, name: Option<&str>, msg: &str) -> RawChatLine {
    RawChatLine {
        ts: Some(ts.to_string()),
        branch_id: Some(branch),
        user_name: name.map(|s| s.to_string()),
        role: Some("coordinator".to_string()),
        message: Some(msg.to_string()),
    }
}

#[test]
fn chat_messages_are_trimmed_and_bounded() {
    assert_eq!(validate_chat_message("  hello \n").unwrap(), "hello");
    match validate_chat_message(" \t ") {
        Err(AppError::ValidationError(m)) => assert_eq!(m, "Message cannot be empty"),
        other => panic!("unexpected {other:?}"),
    }
    match validate_chat_message(&"x".repeat(1001)) {
        Err(AppError::ValidationError(m)) => assert_eq!(m, "Message must be 1,000 characters or fewer"),
        other => panic!("unexpected {other:?}"),
    }
    assert!(validate_chat_message(&format!(" {} ", "x".repeat(1000))).is_ok());
}

#[test]
fn chat_event_names_the_sender() {
    match chat_event(&auth(Role::SalesRep), "hi".to_string()) {
        WsEvent::ChatMessage { sender_name, role, message } => {
            assert_eq!((sender_name.as_str(), role.as_str(), message.as_str()), ("Sam", "sales_rep", "hi"))
        }
        other => panic!("unexpected {other:?}"),
    }
}

#[test]
fn marking_handled() {
    assert!(check_handled(&auth(Role::Coordinator), "ITEM-1").is_ok());
    assert!(matches!(check_handled(&auth(Role::SalesRep), "ITEM-1"), Err(AppError::Forbidden)));
    assert!(matches!(check_handled(&auth(Role::Admin), ""), Err(AppError::ValidationError(m)) if m == "Invalid item number"));
    assert!(check_handled(&auth(Role::Admin), &"x".repeat(101)).is_err());
    assert!(check_handled(&auth(Role::Admin), &"x".repeat(100)).is_ok());
}

#[test]
fn chat_timestamps() {
    assert_eq!(fmt_chat_ts("2026-03-31T14:30:00+00:00"), ("2:30 PM".to_string(), "Mar 31, 2026".to_string()));
    assert_eq!(fmt_chat_ts("2026-03-31 14:30:00"), ("—".to_string(), "—".to_string()));
}

#[test]
fn branch_chat_is_sorted_filtered_and_separated_by_day() {
    let lines = vec![
        line("2026-03-31T09:00:00+00:00", 1, Some("B"), "second"),
        line("2026-03-30T18:00:00+00:00", 1, Some("A"), "first"),
        line("2026-03-30T19:00:00+00:00", 2, Some("X"), "other branch"),
        line("2026-03-31T09:00:00+00:00", 1, None, "third"),
        RawChatLine { ts: None, branch_id: None, user_name: None, role: None, message: None },
    ];
    let out = assemble_branch_chat(&lines, 1);
    let msgs: Vec<&str> = out.iter().map(|e| e.message.as_str()).collect();
    assert_eq!(msgs, vec!["first", "second", "third"]);
    assert_eq!(out[2].user_name, "Unknown");
    assert_eq!((out[0].time_str.as_str(), out[0].date_str.as_str()), ("6:00 PM", "Mar 30, 2026"));
    let seps: Vec<bool> = out.iter().map(|e| e.show_date_sep).collect();
    assert_eq!(seps, vec![true, true, false]);
}

#[test]
fn branch_chat_keeps_the_newest_hundred() {
    let lines: Vec<RawChatLine> = (0..130)
        .map(|i| line(&format!("2026-03-31T10:{:02}:{:02}+00:00", i / 60, i % 60), 1, Some("A"), &format!("m{i}")))
        .collect();
    let out = assemble_branch_chat(&lines, 1);
    assert_eq!(out.len(), 100);
    assert_eq!(out[0].message, "m30");
    assert_eq!(out[99].message, "m129");
}

#[test]
fn chat_log_file_names() {
    assert_eq!(chat_log_path("/mnt/logs", "2026-03-31"), "/mnt/logs/chat-2026-03-31.log");
    let d = chat_log_date("chat-2026-03-31.log").expect("dated");
    assert_eq!((d.year, d.month, d.day), (2026, 3, 31));
    assert!(chat_log_date("chat-2026-13-01.log").is_none());
    assert!(chat_log_date("notes.txt").is_none());
    assert!(chat_log_date("chat-2026-03-31.txt").is_none());
    let cutoff = CivilDate { year: 2026, month: 3, day: 1 };
    assert!(should_purge("chat-2026-02-28.log", &cutoff));
    assert!(!should_purge("chat-2026-03-01.log", &cutoff));
    assert!(!should_purge("readme.md", &cutoff));
}

#[test]
fn recent_logs_cover_a_week_ending_today() {
    let paths = recent_chat_log_paths("/logs");
    assert_eq!(paths.len(), 7);
    for p in &paths {
        assert!(p.starts_with("/logs/chat-") && p.ends_with(".log"), "{p}");
    }
    let today = chrono::Utc::now().format("%Y-%m-%d").to_string();
    assert!(paths[6] == format!("/logs/chat-{today}.log") || paths[6] < format!("/logs/chat-{today}.log"));
    let mut sorted = paths.clone();
    sorted.sort();
    assert_eq!(sorted, paths);
}

#[test]
fn chat_log_record_stamps_the_message() {
    let (path, entry) = chat_log_record("/logs", &auth(Role::Coordinator), "hello");
    assert!(path.starts_with("/logs/chat-") && path.ends_with(".log"));
    assert_eq!(entry.tile_id, None);
    assert_eq!((entry.branch_id, entry.user_id), (1, 4));
    assert_eq!((entry.user_name.as_str(), entry.role.as_str(), entry.message.as_str()), ("Sam", "coordinator", "hello"));
    assert!(chrono::DateTime::parse_from_rfc3339(&entry.ts).is_ok());
}

#[test]
fn only_old_logs_are_purged() {
    let names = vec![
        "chat-2000-01-01.log".to_string(),
        "chat-2999-01-01.log".to_string(),
        "other.log".to_string(),
        "chat-2001-06-30.log".to_string(),
    ];
    assert_eq!(chat_logs_to_purge(&names).1, vec![0, 3]);
    let cutoff = CivilDate { year: 2001, month: 7, day: 1 };
    assert_eq!(logs_dated_before(&names, &cutoff), vec![0, 3]);
    let early = CivilDate { year: 2001, month: 6, day: 30 };
    assert_eq!(logs_dated_before(&names, &early), vec![0]);
}

fn refill_row() -> RefillHistoryRow {
    RefillHistoryRow {
        item_number: "ITEM-1".into(),
        qty_requested: 6,
        requested_at: "2026-03-30 08:00:00".into(),
        requested_by_name: "Cora".into(),
        approved_at: Some("2026-03-30 09:00:00".into()),
        approved_by_name: Some("Ada".into()),
        fulfilled_at: Some("2026-03-30 10:34:00".into()),
        fulfilled_by_name: None,
        rejected_at: None,
        rejected_by_name: None,
        rejection_reason: None,
    }
}

#[test]
fn history_is_newest_first_with_processing_times() {
    let refills = vec![refill_row()];
    let gives = vec![GiveOutRow { item_number: "ITEM-2".into(), handled_by_name: "Sam".into(), handled_at: "2026-03-30 09:30:00".into() }];
    let notes = vec![NoteEditRow { edited_at: "2026-03-30 11:00:00".into(), edited_by_name: "Ada".into(), item_number: "ITEM-1".into() }];
    let h = build_history(&refills, &gives, &notes);
    let actions: Vec<&str> = h.iter().map(|e| e.action.as_str()).collect();
    assert_eq!(actions, vec!["Note Edited", "Restock Fulfilled", "Give Out", "Restock Approved", "Restock Requested"]);
    assert_eq!(h[1].processing_time.as_deref(), Some("2h 34m"));
    assert_eq!(h[3].processing_time.as_deref(), Some("1h 0m"));
    assert_eq!(h[4].processing_time, None);
    assert_eq!(h[1].person, "Unknown");
    assert_eq!(h[1].qty, Some(6));
    assert!(!h[3].pending_fulfillment);
    assert_eq!((h[4].time_str.as_str(), h[4].date_str.as_str()), ("8:00 AM", "Mar 30, 2026"));
    assert_eq!(h[0].action_slug, "note-edited");
    assert_eq!(h[2].action_slug, "giveout");
}

#[test]
fn approved_request_awaits_fulfilment_and_rejections_carry_reasons() {
    let mut a = refill_row();
    a.fulfilled_at = None;
    let mut r = refill_row();
    r.approved_at = None;
    r.fulfilled_at = None;
    r.rejected_at = Some("2026-03-30 12:00:00".into());
    r.rejected_by_name = Some("Ada".into());
    r.rejection_reason = Some("Discontinued".into());
    let h = build_history(&vec![a, r], &vec![], &vec![]);
    let rejected = h.iter().find(|e| e.action_slug == "rejected").unwrap();
    assert_eq!(rejected.rejection_reason.as_deref(), Some("Discontinued"));
    assert_eq!(rejected.qty, None);
    assert_eq!(rejected.processing_time.as_deref(), Some("4h 0m"));
    let approved = h.iter().find(|e| e.action_slug == "approved").unwrap();
    assert!(approved.pending_fulfillment);
    assert_eq!(h.len(), 4);
}

#[test]
fn logged_message_is_shown_unless_a_hundred_are_newer() {
    let mut lines = Vec::new();
    for i in 0..120 {
        lines.push(line(&format!("2026-03-31T10:{:02}:{:02}Z", i / 60, i % 60), 1, Some("Sam"), &format!("m{i}")));
    }
    lines.push(line("2026-03-31T09:00:00Z", 2, Some("Other"), "elsewhere"));
    let out = assemble_branch_chat(&lines, 1);
    assert_eq!(out.len(), 100);
    assert!(out.iter().any(|e| e.message == "m20"));
    assert!(!out.iter().any(|e| e.message == "m19"));
    assert!(out[0].show_date_sep);
}
