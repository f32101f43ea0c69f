use inventorix_server::auth::extractor::{AuthUser, Role};
use inventorix_server::auth::routes::verify_password;
use inventorix_server::error::AppError;
use inventorix_server::models::user::User;
use inventorix_server::routes::admin::{
    check_deactivate, insert_failure, is_valid_email, prepare_new_user, validate_new_user, CreateUserForm,
};
use inventorix_server::routes::analytics::{
    analytics_period, date_or_today, distinct_pending_count, merge_tile_analytics, or_empty, pending_has,
    rank_by_activity, tile_analytics, total_give_outs, total_restocks, GiveOutCountRow, RestockCountRow,
};
use inventorix_server::routes::export::{
    authorize_export, build_inventory_sheet, content_disposition, critical_tiles, digest_path, digest_row, export_dir, export_workbook,
    plan_export, recently_updated, xlsx_filename, ExportRow,
};
use inventorix_server::routes::import::read_first_sheet;

fn auth(role: Role) -> AuthUser {
    AuthUser { id: 1, role, branch_id: 1, name: "Admin".to_string() }
}

fn form(name: &str, email: &str, password: &str, role: &str) -> CreateUserForm {
    CreateUserForm {
        name: name.to_string(),
        email: email.to_string(),
        password: password.to_string(),
        role: role.to_string(),
        branch_id: 1,
    }
}

fn validation(r: Result<(), AppError>) -> String {
    match r {
        Err(AppError::ValidationError(m)) => m,
        other => panic!("expected a validation error, got {other:?}"),
    }
}

#[test]
fn email_shapes() {
    for ok in ["existing@test.com", "a@b.co", "first.last@mail.example.org"] {
        assert!(is_valid_email(ok), "{ok}");
    }
    for bad in ["not-an-email", "@test.com", "bob@", "bob@test", "bob@.com", "bob@test.", "a@b@c.com", ""] {
        assert!(!is_valid_email(bad), "{bad}");
    }
}

#[test]
fn create_user_invalid_email_is_rejected() {
    let m = validation(validate_new_user(&form("Bob", "not-an-email", "password123", "coordinator")));
    assert_eq!(m, "'not-an-email' is not a valid email address");
}

#[test]
fn new_user_checks_in_order() {
    assert_eq!(validation(validate_new_user(&form("Bob", "x", "", "manager"))), "Invalid role 'manager'");
    assert_eq!(
        validation(validate_new_user(&form("  ", "bob@test.com", "pw", "admin"))),
        "Name, email, and password are required"
    );
    assert_eq!(
        validation(validate_new_user(&form("Bob", "bob@test.com", "", "sales_rep"))),
        "Name, email, and password are required"
    );
    assert!(validate_new_user(&form("Bob", "bob@test.com", "pw", "sales_rep")).is_ok());
}

#[test]
fn admin_creates_a_user_whose_password_logs_in() {
    let f = form("Bob", "bob@test.com", "password123", "coordinator");
    let u = prepare_new_user(&auth(Role::Admin), &f).expect("created");
    assert_eq!((u.name.as_str(), u.email.as_str(), u.role.as_str(), u.branch_id), ("Bob", "bob@test.com", "coordinator", 1));
    let stored = User {
        id: 9,
        branch_id: u.branch_id,
        name: u.name.clone(),
        role: u.role.clone(),
        email: u.email.clone(),
        password_hash: u.password_hash.clone(),
        territory: None,
        created_at: String::new(),
        is_active: 1,
    };
    assert!(verify_password("password123", Some(&stored)));
    assert!(matches!(prepare_new_user(&auth(Role::Coordinator), &f), Err(AppError::Forbidden)));
}

#[test]
fn create_user_duplicate_email_is_conflict() {
    match insert_failure("UNIQUE constraint failed: users.email", "existing@test.com") {
        AppError::Conflict(m) => assert_eq!(m, "Email 'existing@test.com' is already in use"),
        other => panic!("unexpected {other:?}"),
    }
    assert!(matches!(insert_failure("disk I/O error", "a@b.co"), AppError::Internal(m) if m == "disk I/O error"));
}

#[test]
fn cannot_deactivate_own_account() {
    assert_eq!(validation(check_deactivate(&auth(Role::Admin), 1)), "You cannot deactivate your own account");
    assert!(check_deactivate(&auth(Role::Admin), 2).is_ok());
    assert!(matches!(check_deactivate(&auth(Role::Coordinator), 2), Err(AppError::Forbidden)));
}

fn restock(item: &str, count: i64) -> RestockCountRow {
    RestockCountRow {
        item_number: item.to_string(),
        collection: Some("C".to_string()),
        gts_description: None,
        qty: 4,
        restock_count: count,
    }
}

fn give(item: &str, count: i64) -> GiveOutCountRow {
    GiveOutCountRow {
        item_number: item.to_string(),
        collection: None,
        gts_description: Some("G".to_string()),
        qty: 7,
        give_out_count: count,
    }
}

#[test]
fn analytics_rows_merge_per_item() {
    let restocks = vec![restock("A", 2), restock("B", 1)];
    let gives = vec![give("B", 5), give("C", 3)];
    let pending = vec!["B".to_string(), "B".to_string(), "Z".to_string()];
    let merged = merge_tile_analytics(&restocks, &gives, &pending);
    let view: Vec<(&str, i64, i64, bool)> = merged
        .iter()
        .map(|t| (t.item_number.as_str(), t.restock_count, t.give_out_count, t.pending_restock))
        .collect();
    assert_eq!(view, vec![("A", 2, 0, false), ("B", 1, 5, true), ("C", 0, 3, false)]);
    assert_eq!((merged[2].collection.as_str(), merged[2].gts_description.as_str(), merged[2].current_qty), ("", "G", 7));
    assert_eq!((merged[1].collection.as_str(), merged[1].current_qty), ("C", 4));
    assert_eq!(total_give_outs(&merged), 8);
    assert_eq!(total_restocks(&merged), 3);
    assert_eq!(distinct_pending_count(&pending), 2);
    assert!(pending_has(&pending, "Z") && !pending_has(&pending, "A"));
    let ranked = rank_by_activity(merged);
    let order: Vec<&str> = ranked.iter().map(|t| t.item_number.as_str()).collect();
    assert_eq!(order, vec!["B", "C", "A"]);
}

#[test]
fn analytics_ties_keep_merge_order() {
    let restocks = vec![restock("A", 3), restock("B", 3)];
    let gives = vec![give("C", 3), give("A", 0)];
    let ranked = tile_analytics(&restocks, &gives, &vec![]);
    let order: Vec<&str> = ranked.iter().map(|t| t.item_number.as_str()).collect();
    assert_eq!(order, vec!["A", "B", "C"]);
    assert!(tile_analytics(&vec![], &vec![], &vec![]).is_empty());
}

#[test]
fn analytics_totals_do_not_overflow() {
    let restocks = vec![restock("A", i64::MAX), restock("B", i64::MAX)];
    let merged = merge_tile_analytics(&restocks, &vec![], &vec![]);
    assert_eq!(total_restocks(&merged), 2 * (i64::MAX as i128));
    let ranked = rank_by_activity(merged);
    assert_eq!(ranked.len(), 2);
}

#[test]
fn analytics_date_defaults() {
    assert_eq!(date_or_today(Some("2026-01-05".into()), "2026-03-31"), "2026-01-05");
    assert_eq!(date_or_today(Some(String::new()), "2026-03-31"), "2026-03-31");
    assert_eq!(date_or_today(None, "2026-03-31"), "2026-03-31");
    let today = chrono::Utc::now().format("%Y-%m-%d").to_string();
    let (from, to) = analytics_period(Some("2026-01-01".into()), None);
    assert_eq!(from, "2026-01-01");
    assert!(to == today || to > today);
    assert_eq!(or_empty(&None), "");
    assert_eq!(or_empty(&Some("x".into())), "x");
}

fn export_row(item: &str, qty: i64, updated_at: &str) -> ExportRow {
    ExportRow {
        item_number: item.to_string(),
        collection: Some("Marble".into()),
        gts_description: None,
        new_bin: Some("B1".into()),
        qty,
        overflow_rack: 1,
        order_number: None,
        notes: Some("n".into()),
        updated_at: updated_at.to_string(),
        coordinator_name: "Alice".into(),
        sales_rep_name: String::new(),
        refill_status: "pending".into(),
    }
}

#[test]
fn inventory_workbook_round_trips_through_the_importer() {
    let rows = vec![export_row("ITEM-1", 5, "2026-03-31 10:00:00"), export_row("ITEM-2", 0, "2026-03-30 10:00:00")];
    let bytes = export_workbook(&rows).expect("xlsx");
    let sheet = read_first_sheet(&bytes).expect("readable");
    assert_eq!(
        sheet[0],
        vec![
            "ITEM NUMBER", "COLLECTION", "GTS DESCRIPTION", "NEW BIN", "QTY", "OVERFLOW RACK", "ORDER #", "NOTES",
            "COORDINATOR", "SALES REP", "REFILL STATUS", "LAST UPDATED"
        ]
    );
    assert_eq!(sheet[1], vec!["ITEM-1", "Marble", "", "B1", "5", "Y", "", "n", "Alice", "", "pending", "2026-03-31 10:00:00"]);
    assert_eq!(sheet[2][0], "ITEM-2");
    assert_eq!(sheet[2][4], "0");
    assert_eq!(sheet.len(), 3);
    let _ = build_inventory_sheet(&rows);
}

#[test]
fn digest_lists() {
    let rows = vec![
        export_row("ITEM-1", 5, "2026-03-31 10:00:00"),
        export_row("ITEM-2", 0, "2026-03-30 10:00:00"),
        export_row("ITEM-3", 0, "2026-03-31 23:59:59"),
    ];
    let recent: Vec<String> = recently_updated(&rows, "2026-03-31").into_iter().map(|d| d.item_number).collect();
    assert_eq!(recent, vec!["ITEM-1", "ITEM-3"]);
    let critical: Vec<String> = critical_tiles(&rows).into_iter().map(|d| d.item_number).collect();
    assert_eq!(critical, vec!["ITEM-2", "ITEM-3"]);
    let d = digest_row(&rows[0]);
    assert_eq!((d.collection.as_str(), d.new_bin.as_str(), d.qty, d.refill_status.as_str()), ("Marble", "B1", 5, "pending"));
}

#[test]
fn export_file_names() {
    assert_eq!(export_dir(3), "./exports/3");
    assert_eq!(digest_path(3, "2026-03-31"), "./exports/3/digest-2026-03-31.html");
    assert_eq!(xlsx_filename("2026-03-31"), "inventory-2026-03-31.xlsx");
    assert_eq!(content_disposition("inventory-2026-03-31.xlsx"), "attachment; filename=\"inventory-2026-03-31.xlsx\"");
}

#[test]
fn export_plan_for_today() {
    let today = chrono::Utc::now().format("%Y-%m-%d").to_string();
    let rows = vec![export_row("ITEM-1", 0, &format!("{today} 01:02:03")), export_row("ITEM-2", 3, "1999-01-01 00:00:00")];
    let coord = AuthUser { id: 2, role: Role::Coordinator, branch_id: 7, name: "Cora".to_string() };
    let p = plan_export(&coord, &rows).expect("plan");
    assert_eq!(p.total, 2);
    assert_eq!(p.export_dir, "./exports/7");
    assert_eq!(p.digest_path, format!("./exports/7/digest-{}.html", p.today));
    assert_eq!(p.xlsx_filename, format!("inventory-{}.xlsx", p.today));
    assert_eq!(p.critical.len(), 1);
    if p.today == today {
        assert_eq!(p.recently_updated.len(), 1);
    }
    assert!(p.xlsx.starts_with(b"PK"));
    assert_eq!(p.today.len(), 10);
    assert_eq!(&p.today[4..5], "-");
}

#[test]
fn export_is_refused_to_a_sales_rep() {
    let rep = AuthUser { id: 3, role: Role::SalesRep, branch_id: 7, name: "Rex".to_string() };
    assert!(matches!(plan_export(&rep, &vec![]), Err(AppError::Forbidden)));
    assert!(matches!(authorize_export(&rep), Err(AppError::Forbidden)));
    assert!(authorize_export(&auth(Role::Admin)).is_ok());
    assert!(plan_export(&auth(Role::Admin), &vec![]).is_ok());
}

#[test]
fn totals_are_the_same_before_and_after_ranking() {
    let restocks = vec![restock("A", 1), restock("B", 4), restock("C", 2)];
    let gives = vec![give("C", 9), give("D", 1)];
    let merged = merge_tile_analytics(&restocks, &gives, &vec![]);
    let (g, r) = (total_give_outs(&merged), total_restocks(&merged));
    let ranked = rank_by_activity(merged);
    assert_eq!((total_give_outs(&ranked), total_restocks(&ranked)), (g, r));
    assert_eq!((g, r), (10, 7));
}
