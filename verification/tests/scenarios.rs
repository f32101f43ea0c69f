use inventorix_server::auth::extractor::{authenticate, require_admin, AuthUser, Role};
use inventorix_server::auth::routes::{hash_password, verify_password};
use inventorix_server::error::AppError;
use inventorix_server::jobs::timers::{expired_refills, TimedRefill};
use inventorix_server::models::refill_request::RefillStatus;
use inventorix_server::models::user::User;
use inventorix_server::routes::admin::check_deactivate;
use inventorix_server::routes::chat::plan_tile_chat;
use inventorix_server::routes::import::{authorize_import_page, check_header, classify_rows, read_first_sheet};
use inventorix_server::routes::refill::{plan_approve, plan_fulfill, plan_request_refill, RefillRow, TileRef};
use inventorix_server::routes::tiles::{
    inventory_view, plan_update_tile, tile_detail_view, TileQty, TileRow, UpdateTileForm,
};
use inventorix_server::ws::manager::{keep_open, ConnectionManager, Delivery, WsEvent};

fn auth(id: i64, role: Role, branch_id: i64) -> AuthUser {
    AuthUser { id, role, branch_id, name: "User".to_string() }
}

fn account(id: i64, email: &str, role: &str, hash: &str) -> User {
    User {
        id,
        branch_id: 1,
        name: "Alice".into(),
        role: role.into(),
        email: email.into(),
        password_hash: hash.into(),
        territory: None,
        created_at: "2026-01-01 00:00:00".into(),
        is_active: 1,
    }
}

fn tile_ref(id: i64, branch_id: i64) -> TileRef {
    TileRef { id, branch_id, item_number: "TILE-001".into() }
}

fn refill(status: &str, branch_id: i64) -> RefillRow {
    RefillRow {
        id: 3,
        tile_id: 1,
        qty_requested: 5,
        status: status.into(),
        branch_id,
        item_number: "TILE-001".into(),
        collection: None,
    }
}

fn tile_row(id: i64, branch_id: i64) -> TileRow {
    TileRow {
        id,
        branch_id,
        item_number: format!("TILE-{id:03}"),
        collection: None,
        gts_description: None,
        new_bin: None,
        qty: 10,
        overflow_rack: 0,
        order_number: None,
        notes: None,
        sample_coordinator_id: None,
        sales_rep_id: None,
        low_inventory_threshold: 3,
        created_at: String::new(),
        updated_at: String::new(),
        coordinator_name: None,
        sales_rep_name: None,
    }
}

fn qty_form(qty: i64) -> UpdateTileForm {
    UpdateTileForm { qty: Some(qty), notes: None, sample_coordinator_id: None, sales_rep_id: None }
}

#[test]
fn deactivate_user_invalidates_session() {
    let admin = auth(1, Role::Admin, 1);
    assert!(check_deactivate(&admin, 2).is_ok());
    let mut bob = account(2, "bob@test.com", "coordinator", "x");
    assert!(authenticate(Some(&bob)).is_ok());
    bob.is_active = 0;
    assert!(matches!(authenticate(Some(&bob)), Err(AppError::Unauthorized)));
}

#[test]
fn valid_login_redirects_to_inventory() {
    let hash = hash_password("test-password").unwrap();
    let alice = account(1, "alice@test.com", "coordinator", &hash);
    assert!(verify_password("test-password", Some(&alice)));
    assert!(authenticate(Some(&alice)).is_ok());
}

#[test]
fn wrong_password_returns_error_page() {
    let hash = hash_password("test-password").unwrap();
    let alice = account(1, "alice@test.com", "coordinator", &hash);
    assert!(!verify_password("wrong-password", Some(&alice)));
}

#[test]
fn unknown_email_returns_same_error_as_wrong_password() {
    assert!(!verify_password("anything", None));
}

#[test]
fn unauthenticated_root_redirects_to_login() {
    assert!(matches!(authenticate(None), Err(AppError::Unauthorized)));
}

#[test]
fn health_requires_auth() {
    assert!(matches!(authenticate(None), Err(AppError::Unauthorized)));
}

#[test]
fn get_tile_cross_branch_is_not_found() {
    let other = tile_row(1, 2);
    let r = tile_detail_view(&auth(1, Role::Coordinator, 1), Some(&other), &vec![], 0, 0);
    assert!(matches!(r, Err(AppError::NotFound)));
}

#[test]
fn put_tile_cross_branch_is_not_found() {
    let other = TileQty { id: 1, branch_id: 2, qty: 10 };
    let r = plan_update_tile(&auth(1, Role::Coordinator, 1), &qty_form(3), Some(&other), None, None);
    assert!(matches!(r, Err(AppError::NotFound)));
}

#[test]
fn inventory_only_returns_own_branch_tiles() {
    let rows = vec![tile_row(1, 1), tile_row(2, 2), tile_row(3, 1)];
    let (views, stats) = inventory_view(&auth(1, Role::SalesRep, 1), &rows, &vec![], 0, 0);
    let ids: Vec<i64> = views.iter().map(|v| v.id).collect();
    assert_eq!(ids, vec![1, 3]);
    assert_eq!(stats.total, 2);
}

#[test]
fn approve_refill_coordinator_is_forbidden() {
    let r = plan_approve(&auth(1, Role::Coordinator, 1), None, Some(&refill("pending", 1)));
    assert!(matches!(r, Err(AppError::Forbidden)));
}

#[test]
fn update_qty_sales_rep_is_forbidden() {
    let t = TileQty { id: 1, branch_id: 1, qty: 10 };
    let r = plan_update_tile(&auth(1, Role::SalesRep, 1), &qty_form(3), Some(&t), None, None);
    assert!(matches!(r, Err(AppError::Forbidden)));
}

#[test]
fn request_refill_sales_rep_is_forbidden() {
    let t = tile_ref(1, 1);
    assert!(matches!(plan_request_refill(&auth(1, Role::SalesRep, 1), 5, Some(&t), false), Err(AppError::Forbidden)));
}

#[test]
fn fulfill_refill_sales_rep_is_forbidden() {
    let r = plan_fulfill(&auth(1, Role::SalesRep, 1), Some(&refill("approved", 1)));
    assert!(matches!(r, Err(AppError::Forbidden)));
}

#[test]
fn admin_page_coordinator_is_forbidden() {
    assert!(matches!(require_admin(&auth(1, Role::Coordinator, 1)), Err(AppError::Forbidden)));
}

#[test]
fn admin_page_sales_rep_is_forbidden() {
    assert!(matches!(require_admin(&auth(1, Role::SalesRep, 1)), Err(AppError::Forbidden)));
}

#[test]
fn coordinator_can_request_refill() {
    let t = tile_ref(1, 1);
    let n = plan_request_refill(&auth(7, Role::Coordinator, 1), 5, Some(&t), false).unwrap();
    assert_eq!((n.tile_id, n.requested_by, n.qty), (1, 7, 5));
}

#[test]
fn duplicate_active_refill_is_conflict() {
    let t = tile_ref(1, 1);
    let r = plan_request_refill(&auth(7, Role::Coordinator, 1), 3, Some(&t), true);
    assert!(matches!(r, Err(AppError::Conflict(_))));
}

#[test]
fn admin_can_approve_pending_refill() {
    let a = plan_approve(&auth(1, Role::Admin, 1), Some(5), Some(&refill("pending", 1))).unwrap();
    assert_eq!(a.new_status.as_str(), "approved");
}

#[test]
fn approve_already_approved_is_conflict() {
    let r = plan_approve(&auth(1, Role::Admin, 1), None, Some(&refill("approved", 1)));
    assert!(matches!(r, Err(AppError::Conflict(_))));
}

#[test]
fn fulfill_requires_approved_not_pending() {
    let r = plan_fulfill(&auth(2, Role::Coordinator, 1), Some(&refill("pending", 1)));
    assert!(matches!(r, Err(AppError::Conflict(_))));
}

#[test]
fn full_state_machine_request_approve_fulfill() {
    let coordinator = auth(2, Role::Coordinator, 1);
    let admin = auth(1, Role::Admin, 1);
    let t = tile_ref(1, 1);
    let n = plan_request_refill(&coordinator, 5, Some(&t), false).unwrap();
    let mut row = RefillRow {
        id: 9,
        tile_id: n.tile_id,
        qty_requested: n.qty,
        status: RefillStatus::Pending.as_str().into(),
        branch_id: 1,
        item_number: "TILE-001".into(),
        collection: None,
    };
    let a = plan_approve(&admin, None, Some(&row)).unwrap();
    row.status = a.new_status.as_str().into();
    row.qty_requested = a.qty;
    assert_eq!(row.status, "approved");
    let f = plan_fulfill(&coordinator, Some(&row)).unwrap();
    row.status = f.new_status.as_str().into();
    assert_eq!(row.status, "fulfilled");
    assert_eq!(f.qty_added, 5);
}

#[test]
fn expired_timer_marks_refill_expired() {
    let rows = vec![TimedRefill {
        id: 4,
        branch_id: 1,
        status: "pending".into(),
        timer_expires_at: "2026-01-01 00:00:00".into(),
    }];
    assert_eq!(expired_refills(&rows, "2026-01-03 00:00:00"), vec![(4, 1)]);
    assert_eq!(RefillStatus::Pending.after(inventorix_server::models::refill_request::RefillAction::Expire), Some(RefillStatus::Expired));
}

#[test]
fn chat_message_too_long_is_rejected() {
    let t = tile_ref(1, 1);
    let long = "x".repeat(1_001);
    let r = plan_tile_chat(&auth(1, Role::Coordinator, 1), &long, Some(&t));
    assert!(matches!(r, Err(AppError::ValidationError(_))));
    let ok = plan_tile_chat(&auth(1, Role::SalesRep, 1), "  hi  ", Some(&t)).unwrap();
    assert_eq!((ok.tile_id, ok.sender_id, ok.message.as_str()), (1, 1, "hi"));
    let other = tile_ref(1, 2);
    assert!(matches!(plan_tile_chat(&auth(1, Role::Admin, 1), "hi", Some(&other)), Err(AppError::NotFound)));
}

#[test]
fn refill_qty_zero_is_rejected() {
    let t = tile_ref(1, 1);
    let r = plan_request_refill(&auth(1, Role::Coordinator, 1), 0, Some(&t), false);
    assert!(matches!(r, Err(AppError::ValidationError(_))));
}

#[test]
fn refill_qty_over_limit_is_rejected() {
    let t = tile_ref(1, 1);
    let r = plan_request_refill(&auth(1, Role::Coordinator, 1), 10_001, Some(&t), false);
    assert!(matches!(r, Err(AppError::ValidationError(_))));
}

#[test]
fn get_import_page_forbidden_for_sales_rep() {
    assert!(matches!(authorize_import_page(&auth(1, Role::SalesRep, 1)), Err(AppError::Forbidden)));
}

#[test]
fn xlsx_bad_qty_row_is_skipped_rest_imported() {
    let mut wb = rust_xlsxwriter::Workbook::new();
    let ws = wb.add_worksheet();
    ws.write_string(0, 0, "ROW").unwrap();
    ws.write_string(0, 1, "ITEM NUMBER").unwrap();
    ws.write_string(0, 5, "QTY").unwrap();
    ws.write_string(1, 1, "GOOD-001").unwrap();
    ws.write_number(1, 5, 5.0).unwrap();
    ws.write_string(2, 1, "BAD-002").unwrap();
    ws.write_string(2, 5, "N/A").unwrap();
    ws.write_string(3, 1, "GOOD-003").unwrap();
    ws.write_number(3, 5, 8.0).unwrap();
    let bytes = wb.save_to_buffer().unwrap();
    let rows = read_first_sheet(&bytes).unwrap();
    assert!(check_header(&rows).is_ok());
    let qtys: Vec<Option<i64>> =
        rows.iter().map(|r| r.get(5).and_then(|c| c.trim().parse::<f64>().ok()).map(|f| f as i64)).collect();
    let plan = classify_rows(&rows, &qtys);
    let items: Vec<&str> = plan.records.iter().map(|r| r.item_number.as_str()).collect();
    assert_eq!(items, vec!["GOOD-001", "GOOD-003"]);
    assert_eq!(plan.skipped, 1);
    assert_eq!(plan.errors, vec!["Row 3: invalid qty 'N/A' for 'BAD-002' — skipped".to_string()]);
}

#[test]
fn broadcast_delivers_event_to_connected_sender() {
    let mut mgr = ConnectionManager::new();
    let (tx, mut rx) = tokio::sync::mpsc::channel(8);
    mgr.add_connection(1, tx);
    mgr.broadcast(1, WsEvent::InventoryUpdate { tile_id: 42, new_qty: 7 });
    let event = rx.try_recv().expect("expected an event");
    assert!(matches!(event, WsEvent::InventoryUpdate { tile_id: 42, new_qty: 7 }), "received wrong event: {event:?}");
}

#[test]
fn broadcast_is_branch_scoped() {
    let mut mgr = ConnectionManager::new();
    let (tx, mut rx) = tokio::sync::mpsc::channel(1);
    mgr.add_connection(1, tx);
    mgr.broadcast(2, WsEvent::InventoryUpdate { tile_id: 1, new_qty: 0 });
    assert!(rx.try_recv().is_err(), "cross-branch event must not be delivered");
}

#[test]
fn dead_connection_is_removed_on_broadcast() {
    let mut mgr = ConnectionManager::new();
    let (tx, rx) = tokio::sync::mpsc::channel(1);
    mgr.add_connection(1, tx);
    assert_eq!(mgr.connection_count(1), 1);
    drop(rx);
    mgr.broadcast(1, WsEvent::InventoryUpdate { tile_id: 1, new_qty: 0 });
    assert_eq!(mgr.connection_count(1), 0, "dead sender must be cleaned up");
}

#[test]
fn full_connection_stays_registered_on_broadcast() {
    let mut mgr = ConnectionManager::new();
    let (tx, mut rx) = tokio::sync::mpsc::channel(1);
    tx.try_send(WsEvent::InventoryUpdate { tile_id: 1, new_qty: 0 }).unwrap();
    mgr.add_connection(1, tx);
    let (tx2, rx2) = tokio::sync::mpsc::channel(1);
    mgr.add_connection(1, tx2);
    drop(rx2);
    let (tx3, mut rx3) = tokio::sync::mpsc::channel(1);
    mgr.add_connection(1, tx3);
    mgr.broadcast(1, WsEvent::InventoryUpdate { tile_id: 2, new_qty: 0 });
    assert_eq!(mgr.connection_count(1), 2);
    assert!(matches!(rx.try_recv(), Ok(WsEvent::InventoryUpdate { tile_id: 1, .. })));
    assert!(matches!(rx3.try_recv(), Ok(WsEvent::InventoryUpdate { tile_id: 2, .. })));
}

#[test]
fn keep_open_drops_only_closed_in_order() {
    let kept = keep_open(vec![10, 20, 30, 40], &vec![Delivery::Sent, Delivery::Closed, Delivery::Full, Delivery::Sent]);
    assert_eq!(kept, vec![10, 30, 40]);
    assert_eq!(keep_open(Vec::<i32>::new(), &vec![]), Vec::<i32>::new());
}

#[test]
fn total_connections_sums_all_branches() {
    let mut mgr = ConnectionManager::new();
    let (tx1, _rx1) = tokio::sync::mpsc::channel::<WsEvent>(1);
    let (tx2, _rx2) = tokio::sync::mpsc::channel::<WsEvent>(1);
    let (tx3, _rx3) = tokio::sync::mpsc::channel::<WsEvent>(1);
    mgr.add_connection(1, tx1);
    mgr.add_connection(1, tx2);
    mgr.add_connection(2, tx3);
    assert_eq!(mgr.total_connections(), 3);
    assert_eq!(mgr.connection_count(1), 2);
    assert_eq!(mgr.connection_count(2), 1);
}
