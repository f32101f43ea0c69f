use inventorix_server::auth::extractor::{AuthUser, Role};
use inventorix_server::error::AppError;
use inventorix_server::models::refill_request::{next_status_for, RefillAction, RefillStatus};
use inventorix_server::routes::refill::{
    approval_payload, authorize_approved_list, inventory_update_event, plan_approve, plan_fulfill,
    plan_reject, plan_request_refill, refill_requested_event, status_change_event, RefillRow, TileRef,
};
use inventorix_server::salesforce::client::{MockClient, SalesforceClient};
use inventorix_server::ws::manager::WsEvent;

fn auth(role: Role, branch_id: i64) -> AuthUser {
    AuthUser { id: 11, role, branch_id, name: "Pat".to_string() }
}

fn tile(branch_id: i64) -> TileRef {
    TileRef { id: 5, branch_id, item_number: "ITEM-001".to_string() }
}

fn row(status: &str, branch_id: i64) -> RefillRow {
    RefillRow {
        id: 40,
        tile_id: 5,
        qty_requested: 12,
        status: status.to_string(),
        branch_id,
        item_number: "ITEM-001".to_string(),
        collection: Some("Marble".to_string()),
    }
}

fn validation_message(e: AppError) -> String {
    match e {
        AppError::ValidationError(m) => m,
        other => panic!("expected a validation error, got {other:?}"),
    }
}

fn conflict_message(e: AppError) -> String {
    match e {
        AppError::Conflict(m) => m,
        other => panic!("expected a conflict, got {other:?}"),
    }
}

#[test]
fn status_names_round_trip() {
    for (name, s) in [
        ("pending", RefillStatus::Pending),
        ("approved", RefillStatus::Approved),
        ("rejected", RefillStatus::Rejected),
        ("fulfilled", RefillStatus::Fulfilled),
        ("expired", RefillStatus::Expired),
    ] {
        assert_eq!(RefillStatus::from_str(name), Some(s));
        assert_eq!(s.as_str(), name);
    }
    assert_eq!(RefillStatus::from_str("Pending"), None);
}

#[test]
fn workflow_edges() {
    assert_eq!(RefillStatus::Pending.after(RefillAction::Approve), Some(RefillStatus::Approved));
    assert_eq!(RefillStatus::Pending.after(RefillAction::Reject), Some(RefillStatus::Rejected));
    assert_eq!(RefillStatus::Pending.after(RefillAction::Expire), Some(RefillStatus::Expired));
    assert_eq!(RefillStatus::Approved.after(RefillAction::Fulfill), Some(RefillStatus::Fulfilled));
    assert_eq!(RefillStatus::Pending.after(RefillAction::Fulfill), None);
    assert_eq!(RefillStatus::Approved.after(RefillAction::Approve), None);
    assert_eq!(RefillStatus::Approved.after(RefillAction::Reject), None);
    for end in [RefillStatus::Rejected, RefillStatus::Fulfilled, RefillStatus::Expired] {
        for a in [RefillAction::Approve, RefillAction::Reject, RefillAction::Fulfill, RefillAction::Expire] {
            assert_eq!(end.after(a), None, "{end:?} is final");
        }
    }
    assert_eq!(next_status_for("pending", RefillAction::Approve), Some(RefillStatus::Approved));
    assert_eq!(next_status_for("bogus", RefillAction::Approve), None);
}

#[test]
fn coordinator_requests_a_refill() {
    let t = tile(1);
    let n = plan_request_refill(&auth(Role::Coordinator, 1), 25, Some(&t), false).expect("allowed");
    assert_eq!((n.tile_id, n.requested_by, n.qty), (5, 11, 25));
    let a = plan_request_refill(&auth(Role::Admin, 1), 10_000, Some(&t), false);
    assert!(a.is_ok());
}

#[test]
fn sales_rep_cannot_request_a_refill() {
    let t = tile(1);
    let r = plan_request_refill(&auth(Role::SalesRep, 1), 5, Some(&t), false);
    assert!(matches!(r, Err(AppError::Forbidden)));
}

#[test]
fn refill_quantity_must_be_in_range() {
    let t = tile(1);
    for q in [0, -3, 10_001] {
        let e = plan_request_refill(&auth(Role::Coordinator, 1), q, Some(&t), false).unwrap_err();
        assert_eq!(validation_message(e), "Qty must be between 1 and 10,000");
    }
}

#[test]
fn refill_for_other_branch_tile_is_not_found() {
    let t = tile(2);
    assert!(matches!(plan_request_refill(&auth(Role::Coordinator, 1), 5, Some(&t), false), Err(AppError::NotFound)));
    assert!(matches!(plan_request_refill(&auth(Role::Coordinator, 1), 5, None, false), Err(AppError::NotFound)));
}

#[test]
fn second_pending_request_is_a_conflict() {
    let t = tile(1);
    let e = plan_request_refill(&auth(Role::Coordinator, 1), 5, Some(&t), true).unwrap_err();
    assert_eq!(conflict_message(e), "A pending refill request already exists for this tile");
}

#[test]
fn admin_approves_with_requested_quantity_by_default() {
    let r = row("pending", 1);
    let a = plan_approve(&auth(Role::Admin, 1), None, Some(&r)).expect("approve");
    assert_eq!((a.refill_id, a.approved_by, a.qty, a.new_status), (40, 11, 12, RefillStatus::Approved));
    let b = plan_approve(&auth(Role::Admin, 1), Some(30), Some(&r)).expect("approve with qty");
    assert_eq!(b.qty, 30);
}

#[test]
fn only_admins_approve() {
    let r = row("pending", 1);
    assert!(matches!(plan_approve(&auth(Role::Coordinator, 1), None, Some(&r)), Err(AppError::Forbidden)));
    assert!(matches!(plan_approve(&auth(Role::SalesRep, 1), None, Some(&r)), Err(AppError::Forbidden)));
}

#[test]
fn approved_quantity_must_be_positive() {
    let r = row("pending", 1);
    let e = plan_approve(&auth(Role::Admin, 1), Some(0), Some(&r)).unwrap_err();
    assert_eq!(validation_message(e), "Approved quantity must be greater than 0");
}

#[test]
fn approving_twice_is_a_conflict() {
    let r = row("approved", 1);
    let e = plan_approve(&auth(Role::Admin, 1), None, Some(&r)).unwrap_err();
    assert_eq!(conflict_message(e), "Cannot approve a 'approved' request");
    let f = row("fulfilled", 1);
    let e = plan_approve(&auth(Role::Admin, 1), None, Some(&f)).unwrap_err();
    assert_eq!(conflict_message(e), "Cannot approve a 'fulfilled' request");
}

#[test]
fn approving_another_branch_request_is_not_found() {
    let r = row("pending", 2);
    assert!(matches!(plan_approve(&auth(Role::Admin, 1), None, Some(&r)), Err(AppError::NotFound)));
    assert!(matches!(plan_approve(&auth(Role::Admin, 1), None, None), Err(AppError::NotFound)));
}

#[test]
fn rejection_needs_a_reason() {
    let r = row("pending", 1);
    let e = plan_reject(&auth(Role::Admin, 1), "   \t ", Some(&r)).unwrap_err();
    assert_eq!(validation_message(e), "Rejection reason is required");
}

#[test]
fn rejection_reason_is_limited_to_500_bytes() {
    let r = row("pending", 1);
    let long = "x".repeat(501);
    let e = plan_reject(&auth(Role::Admin, 1), &long, Some(&r)).unwrap_err();
    assert_eq!(validation_message(e), "Rejection reason must be 500 characters or fewer");
    let exact = format!("  {}  ", "y".repeat(500));
    assert!(plan_reject(&auth(Role::Admin, 1), &exact, Some(&r)).is_ok());
    let wide = "é".repeat(251);
    assert!(plan_reject(&auth(Role::Admin, 1), &wide, Some(&r)).is_err());
}

#[test]
fn rejection_stores_the_trimmed_reason() {
    let r = row("pending", 1);
    let j = plan_reject(&auth(Role::Admin, 1), "  out of stock \n", Some(&r)).expect("reject");
    assert_eq!(j.reason, "out of stock");
    assert_eq!((j.refill_id, j.rejected_by, j.new_status), (40, 11, RefillStatus::Rejected));
}

#[test]
fn rejecting_an_approved_request_is_a_conflict() {
    let r = row("approved", 1);
    let e = plan_reject(&auth(Role::Admin, 1), "late", Some(&r)).unwrap_err();
    assert_eq!(conflict_message(e), "Cannot reject a 'approved' request");
    assert!(matches!(plan_reject(&auth(Role::Coordinator, 1), "late", Some(&r)), Err(AppError::Forbidden)));
}

#[test]
fn fulfilling_adds_the_approved_quantity() {
    let r = row("approved", 1);
    let f = plan_fulfill(&auth(Role::Coordinator, 1), Some(&r)).expect("fulfil");
    assert_eq!((f.refill_id, f.fulfilled_by, f.tile_id, f.qty_added), (40, 11, 5, 12));
    assert_eq!(f.new_status, RefillStatus::Fulfilled);
}

#[test]
fn fulfilling_a_pending_request_is_a_conflict() {
    let r = row("pending", 1);
    let e = plan_fulfill(&auth(Role::Admin, 1), Some(&r)).unwrap_err();
    assert_eq!(conflict_message(e), "Cannot fulfill a 'pending' request");
    assert!(matches!(plan_fulfill(&auth(Role::SalesRep, 1), Some(&r)), Err(AppError::Forbidden)));
    assert!(matches!(plan_fulfill(&auth(Role::Admin, 2), Some(&row("approved", 1))), Err(AppError::NotFound)));
}

#[test]
fn sales_rep_cannot_list_approved_refills() {
    assert!(matches!(authorize_approved_list(&auth(Role::SalesRep, 1)), Err(AppError::Forbidden)));
    assert!(authorize_approved_list(&auth(Role::Coordinator, 1)).is_ok());
}

#[test]
fn approval_is_reported_to_salesforce() {
    let r = row("pending", 1);
    let p = approval_payload(&r, 30, "NYC".to_string());
    assert_eq!(p.item_number, "ITEM-001");
    assert_eq!(p.collection.as_deref(), Some("Marble"));
    assert_eq!(p.qty_requested, 30);
    assert_eq!(p.branch, "NYC");
    let mut client = MockClient::new();
    assert!(client.calls.is_empty());
    client.notify_refill(&p).unwrap();
    client.notify_refill(&p.duplicate()).unwrap();
    assert_eq!(client.calls.len(), 2);
    assert_eq!(client.calls[1].item_number, "ITEM-001");
    assert_eq!(client.calls[1].qty_requested, 30);
}

#[test]
fn refill_events_carry_their_fields() {
    let t = tile(1);
    match refill_requested_event(9, &t) {
        WsEvent::RefillRequested { refill_id, tile_id, item_number } => {
            assert_eq!((refill_id, tile_id, item_number.as_str()), (9, 5, "ITEM-001"))
        }
        other => panic!("unexpected {other:?}"),
    }
    match status_change_event(9, RefillStatus::Expired) {
        WsEvent::RefillStatusChange { refill_id, status } => assert_eq!((refill_id, status.as_str()), (9, "expired")),
        other => panic!("unexpected {other:?}"),
    }
    match inventory_update_event(5, 77) {
        WsEvent::InventoryUpdate { tile_id, new_qty } => assert_eq!((tile_id, new_qty), (5, 77)),
        other => panic!("unexpected {other:?}"),
    }
}

#[test]
fn approved_request_is_fulfilled_with_the_approved_quantity() {
    let pending = row("pending", 1);
    let approval = plan_approve(&auth(Role::Admin, 1), Some(20), Some(&pending)).unwrap();
    let mut stored = row(approval.new_status.as_str(), 1);
    stored.qty_requested = approval.qty;
    let f = plan_fulfill(&auth(Role::Coordinator, 1), Some(&stored)).expect("fulfillable");
    assert_eq!(f.qty_added, 20);
    assert!(plan_approve(&auth(Role::Admin, 1), None, Some(&stored)).is_err());
    assert!(plan_reject(&auth(Role::Admin, 1), "too late", Some(&stored)).is_err());
}
