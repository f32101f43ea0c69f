use inventorix_server::auth::extractor::{AuthUser, Role};
use inventorix_server::datetime::now_parts;
use inventorix_server::routes::tiles::{inventory_now, tile_detail_now};
use inventorix_server::error::AppError;
use inventorix_server::models::tile::{Tile, TileHealth};
use inventorix_server::routes::tiles::{
    active_refill_map, edit_event, find_active_refill, fmt_countdown, inventory_view, plan_update_tile, tile_detail_view, tile_health,
    tile_view_from, ActiveRefill, TileQty, TileRow, UpdateTileForm, UserRef,
};
use inventorix_server::state::{bind_address, AppConfig, SalesforceMode};
use inventorix_server::ws::manager::{ConnectionManager, WsEvent};

fn auth(role: Role, branch_id: i64) -> AuthUser {
    AuthUser { id: 11, role, branch_id, name: "Pat".to_string() }
}

fn unix(ts: &str) -> i64 {
    chrono::NaiveDateTime::parse_from_str(ts, "%Y-%m-%d %H:%M:%S").unwrap().and_utc().timestamp()
}

fn row(id: i64, branch_id: i64, qty: i64, threshold: i64) -> TileRow {
    TileRow {
        id,
        branch_id,
        item_number: format!("ITEM-{id:03}"),
        collection: Some("Marble".into()),
        gts_description: None,
        new_bin: Some("B4".into()),
        qty,
        overflow_rack: 1,
        order_number: None,
        notes: Some("corner".into()),
        sample_coordinator_id: Some(2),
        sales_rep_id: None,
        low_inventory_threshold: threshold,
        created_at: "2026-01-01 00:00:00".into(),
        updated_at: "2026-01-01 00:00:00".into(),
        coordinator_name: Some("Alice".into()),
        sales_rep_name: None,
    }
}

fn refill(tile_id: i64, id: i64, status: &str, expires: &str) -> ActiveRefill {
    ActiveRefill { tile_id, id, status: status.into(), timer_expires_at: expires.into(), qty_requested: 8 }
}

#[test]
fn health_thresholds() {
    assert_eq!(tile_health(0, 5), "critical");
    assert_eq!(tile_health(0, -1), "critical");
    assert_eq!(tile_health(5, 5), "low");
    assert_eq!(tile_health(6, 5), "healthy");
    assert_eq!(tile_health(-2, 5), "low");
    assert_eq!(TileHealth::Critical.as_str(), "critical");
    assert_eq!(TileHealth::Low.as_str(), "low");
    assert_eq!(TileHealth::Healthy.as_str(), "healthy");
}

#[test]
fn tile_health_method() {
    let mut t = Tile {
        id: 1,
        branch_id: 1,
        item_number: "X".into(),
        collection: None,
        gts_description: None,
        new_bin: None,
        qty: 0,
        overflow_rack: 0,
        order_number: None,
        notes: None,
        sample_coordinator_id: None,
        sales_rep_id: None,
        low_inventory_threshold: 3,
        created_at: String::new(),
        updated_at: String::new(),
    };
    assert_eq!(t.health(), TileHealth::Critical);
    t.qty = 3;
    assert_eq!(t.health(), TileHealth::Low);
    t.qty = 4;
    assert_eq!(t.health(), TileHealth::Healthy);
}

#[test]
fn countdown_texts() {
    let now = unix("2026-01-01 10:00:00");
    assert_eq!(fmt_countdown("2026-01-03 09:30:00", now, 0), "47h 30m");
    assert_eq!(fmt_countdown("2026-01-01 10:01:00", now, 0), "0h 1m");
    assert_eq!(fmt_countdown("2026-01-01 10:01:00", now, 500), "0h 0m");
    assert_eq!(fmt_countdown("2026-01-01 10:00:00", now, 0), "Expired");
    assert_eq!(fmt_countdown("2025-12-31 10:00:00", now, 0), "Expired");
    assert_eq!(fmt_countdown("not a time", now, 0), "—");
}

#[test]
fn open_refill_lookup_takes_the_first_open_one() {
    let refills = vec![
        refill(1, 90, "fulfilled", "2026-01-01 00:00:00"),
        refill(1, 91, "approved", "2026-01-01 00:00:00"),
        refill(1, 92, "pending", "2026-01-01 00:00:00"),
        refill(2, 93, "pending", "2026-01-01 00:00:00"),
    ];
    assert_eq!(find_active_refill(&refills, 1).map(|r| r.id), Some(91));
    assert_eq!(find_active_refill(&refills, 2).map(|r| r.id), Some(93));
    assert!(find_active_refill(&refills, 3).is_none());
    let by_tile = active_refill_map(&refills);
    assert_eq!(by_tile.len(), 2);
    assert_eq!(by_tile.get(&1).map(|r| r.id), Some(91));
    assert_eq!(by_tile.get(&2).map(|r| r.id), Some(93));
    assert!(by_tile.get(&3).is_none());
}

#[test]
fn tile_view_shows_pending_countdown() {
    let now = unix("2026-01-01 10:00:00");
    let t = row(1, 1, 4, 5);
    let r = refill(1, 92, "pending", "2026-01-02 12:15:00");
    let v = tile_view_from(&t, Some(&r), "low", now, 0);
    assert_eq!(v.item_number, "ITEM-001");
    assert!(v.overflow_rack);
    assert_eq!(v.health, "low");
    assert_eq!(v.refill_status.as_deref(), Some("pending"));
    assert_eq!(v.refill_countdown.as_deref(), Some("26h 15m"));
    assert_eq!((v.refill_id, v.refill_qty), (Some(92), Some(8)));
    let a = refill(1, 91, "approved", "2026-01-02 12:15:00");
    let w = tile_view_from(&t, Some(&a), "low", now, 0);
    assert_eq!(w.refill_countdown, None);
    let x = tile_view_from(&t, None, "healthy", now, 0);
    assert_eq!((x.refill_status, x.refill_id), (None, None));
}

#[test]
fn inventory_shows_only_own_branch_with_health_summary() {
    let rows = vec![row(1, 1, 0, 5), row(2, 2, 0, 5), row(3, 1, 5, 5), row(4, 1, 50, 5), row(5, 1, 0, 5)];
    let (views, stats) = inventory_view(&auth(Role::Coordinator, 1), &rows, &vec![], 0, 0);
    let ids: Vec<i64> = views.iter().map(|v| v.id).collect();
    assert_eq!(ids, vec![1, 5, 3, 4]);
    assert_eq!((stats.critical, stats.low, stats.healthy, stats.total), (2, 1, 1, 4));
    assert_eq!(stats.critical + stats.low + stats.healthy, stats.total);
}

#[test]
fn tile_detail_of_other_branch_is_not_found() {
    let t = row(1, 2, 3, 5);
    assert!(matches!(tile_detail_view(&auth(Role::Admin, 1), Some(&t), &vec![], 0, 0), Err(AppError::NotFound)));
    assert!(matches!(tile_detail_view(&auth(Role::Admin, 1), None, &vec![], 0, 0), Err(AppError::NotFound)));
    let own = row(1, 1, 3, 5);
    let v = tile_detail_view(&auth(Role::SalesRep, 1), Some(&own), &vec![], 0, 0).expect("visible");
    assert_eq!(v.health, "low");
}

fn form(qty: Option<i64>, coordinator: Option<i64>) -> UpdateTileForm {
    UpdateTileForm { qty, notes: None, sample_coordinator_id: coordinator, sales_rep_id: None }
}

#[test]
fn coordinator_edits_a_tile() {
    let t = TileQty { id: 5, branch_id: 1, qty: 10 };
    let u = plan_update_tile(&auth(Role::Coordinator, 1), &form(Some(12), None), Some(&t), None, None).expect("edit");
    assert_eq!((u.tile_id, u.edited_by, u.qty_change, u.update_fields), (5, 11, Some((10, 12)), false));
    match edit_event(&u) {
        Some(WsEvent::InventoryUpdate { tile_id, new_qty }) => assert_eq!((tile_id, new_qty), (5, 12)),
        other => panic!("unexpected {other:?}"),
    }
    let n = plan_update_tile(&auth(Role::Admin, 1), &form(None, None), Some(&t), None, None).unwrap();
    assert!(edit_event(&n).is_none());
}

#[test]
fn sales_rep_cannot_edit_tiles() {
    let t = TileQty { id: 5, branch_id: 1, qty: 10 };
    let r = plan_update_tile(&auth(Role::SalesRep, 1), &form(Some(1), None), Some(&t), None, None);
    assert!(matches!(r, Err(AppError::Forbidden)));
}

#[test]
fn editing_other_branch_tile_is_not_found() {
    let t = TileQty { id: 5, branch_id: 2, qty: 10 };
    let r = plan_update_tile(&auth(Role::Coordinator, 1), &form(Some(1), None), Some(&t), None, None);
    assert!(matches!(r, Err(AppError::NotFound)));
}

#[test]
fn assign_coordinator_from_other_branch_is_rejected() {
    let t = TileQty { id: 5, branch_id: 1, qty: 10 };
    let other = UserRef { id: 8, branch_id: 2 };
    let r = plan_update_tile(&auth(Role::Coordinator, 1), &form(None, Some(8)), Some(&t), Some(&other), None);
    match r {
        Err(AppError::ValidationError(m)) => assert_eq!(m, "Assigned users must belong to your branch"),
        other => panic!("unexpected {other:?}"),
    }
    let missing = plan_update_tile(&auth(Role::Coordinator, 1), &form(None, Some(8)), Some(&t), None, None);
    assert!(matches!(missing, Err(AppError::ValidationError(_))));
    let same = UserRef { id: 8, branch_id: 1 };
    let ok = plan_update_tile(&auth(Role::Coordinator, 1), &form(None, Some(8)), Some(&t), Some(&same), None).unwrap();
    assert!(ok.update_fields);
}

#[test]
fn broadcast_reaches_only_its_branch() {
    let mut m = ConnectionManager::new();
    let (tx1, mut rx1) = tokio::sync::mpsc::channel(8);
    let (tx2, mut rx2) = tokio::sync::mpsc::channel(8);
    m.add_connection(1, tx1);
    m.add_connection(2, tx2);
    assert_eq!((m.connection_count(1), m.connection_count(2), m.connection_count(3)), (1, 1, 0));
    assert_eq!(m.total_connections(), 2);
    m.broadcast(1, WsEvent::InventoryUpdate { tile_id: 4, new_qty: 9 });
    match rx1.try_recv() {
        Ok(WsEvent::InventoryUpdate { tile_id, new_qty }) => assert_eq!((tile_id, new_qty), (4, 9)),
        other => panic!("unexpected {other:?}"),
    }
    assert!(rx2.try_recv().is_err());
}

#[test]
fn broadcast_drops_closed_connections() {
    let mut m = ConnectionManager::default();
    let (tx1, rx1) = tokio::sync::mpsc::channel(8);
    let (tx2, mut rx2) = tokio::sync::mpsc::channel(8);
    m.add_connection(1, tx1);
    m.add_connection(1, tx2);
    assert_eq!(m.connection_count(1), 2);
    drop(rx1);
    m.broadcast(1, WsEvent::ChatMessage { sender_name: "A".into(), role: "admin".into(), message: "hi".into() });
    assert_eq!(m.connection_count(1), 1);
    assert!(rx2.try_recv().is_ok());
    m.broadcast(7, WsEvent::InventoryUpdate { tile_id: 1, new_qty: 1 });
    assert_eq!(m.total_connections(), 1);
}

#[test]
fn salesforce_mode_setting() {
    assert_eq!(SalesforceMode::from_setting(Some("live")), SalesforceMode::Live);
    assert_eq!(SalesforceMode::from_setting(Some("LIVE")), SalesforceMode::Mock);
    assert_eq!(SalesforceMode::from_setting(Some("mock")), SalesforceMode::Mock);
    assert_eq!(SalesforceMode::from_setting(None), SalesforceMode::Mock);
}

#[test]
fn settings_defaults_and_required_secret() {
    assert!(AppConfig::from_settings(None, None, None, None, None).is_none());
    let c = AppConfig::from_settings(None, Some("s3cret".into()), None, None, None).unwrap();
    assert_eq!(c.db_path, "./inventorix.db");
    assert_eq!(c.session_secret, "s3cret");
    assert_eq!(c.salesforce_mode, SalesforceMode::Mock);
    assert_eq!(c.chat_log_path, "./chat-logs-placeholder");
    assert_eq!(c.backup_dir, "./backups");
    let d = AppConfig::from_settings(
        Some("/data/db".into()),
        Some("k".into()),
        Some("live".into()),
        Some("/mnt/chat".into()),
        Some("/bk".into()),
    )
    .unwrap();
    assert_eq!((d.db_path.as_str(), d.chat_log_path.as_str(), d.backup_dir.as_str()), ("/data/db", "/mnt/chat", "/bk"));
    assert_eq!(d.salesforce_mode, SalesforceMode::Live);
}

#[test]
fn inventory_as_of_now() {
    let (secs, nanos) = now_parts();
    let wall = std::time::SystemTime::now().duration_since(std::time::UNIX_EPOCH).unwrap().as_secs() as i64;
    assert!((secs - wall).abs() <= 2);
    assert!(nanos < 1_000_000_000);
    let far = chrono::DateTime::from_timestamp(secs + 3 * 3600 + 600, 0).unwrap().format("%Y-%m-%d %H:%M:%S").to_string();
    let rows = vec![row(1, 1, 2, 5), row(2, 9, 2, 5)];
    let refills = vec![refill(1, 50, "pending", &far)];
    let (views, stats) = inventory_now(&auth(Role::Coordinator, 1), &rows, &refills);
    assert_eq!(views.len(), 1);
    assert_eq!(stats.total, 1);
    let countdown = views[0].refill_countdown.clone().unwrap();
    assert!(countdown == "3h 10m" || countdown == "3h 9m", "{countdown}");
    let v = tile_detail_now(&auth(Role::Coordinator, 1), Some(&rows[0]), &refills).unwrap();
    assert_eq!(v.refill_id, Some(50));
    assert!(matches!(tile_detail_now(&auth(Role::Coordinator, 1), Some(&rows[1]), &refills), Err(AppError::NotFound)));
}

#[test]
fn listen_address() {
    assert_eq!(bind_address(None, None), "127.0.0.1:3000");
    assert_eq!(bind_address(None, Some("8080".into())), "127.0.0.1:8080");
    assert_eq!(bind_address(Some("0.0.0.0:3000".into()), Some("1".into())), "0.0.0.0:3000");
}
