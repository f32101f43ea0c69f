//! The refill workflow: who may request, approve, reject and fulfil a refill,
//! and in which state. Each step decides from the acting user, the submitted
//! values and the records looked up by id; the caller performs what the
//! decision says.
use vstd::prelude::*;
use crate::auth::extractor::{AuthUser, Role};
use crate::error::{AppError, Refusal, verdict};
use crate::models::refill_request::{lemma_status_names_round_trip, next_status_for, next_status_of_text, RefillAction, RefillStatus, status_text};
use crate::salesforce::client::RefillPayload;
use crate::text::{owned, trim, trimmed, utf8_len};
use crate::ws::manager::WsEvent;

verus! {

/// The tile a refill is requested for, looked up by id in any branch.
#[derive(Debug)]
pub struct TileRef {
    pub id: i64,
    pub branch_id: i64,
    pub item_number: String,
}

/// A refill request with its tile, looked up by id in any branch.
#[derive(Debug)]
pub struct RefillRow {
    pub id: i64,
    pub tile_id: i64,
    pub qty_requested: i64,
    pub status: String,
    pub branch_id: i64,
    pub item_number: String,
    pub collection: Option<String>,
}

/// A refill request to insert, pending, with a 48-hour timer.
#[derive(Debug)]
pub struct NewRefill {
    pub tile_id: i64,
    pub requested_by: i64,
    pub qty: i64,
}

/// An approval to record and report.
#[derive(Debug)]
pub struct Approval {
    pub refill_id: i64,
    pub approved_by: i64,
    pub qty: i64,
    pub new_status: RefillStatus,
}

/// A rejection to record.
#[derive(Debug)]
pub struct Rejection {
    pub refill_id: i64,
    pub rejected_by: i64,
    pub reason: String,
    pub new_status: RefillStatus,
}

/// A fulfilment to record: the tile gains `qty_added`.
#[derive(Debug)]
pub struct Fulfilment {
    pub refill_id: i64,
    pub fulfilled_by: i64,
    pub tile_id: i64,
    pub qty_added: i64,
    pub new_status: RefillStatus,
}

/// The most a single refill may ask for.
pub open spec fn max_refill_qty() -> int {
    10_000
}

pub open spec fn qty_range_message() -> Seq<char> {
    "Qty must be between 1 and 10,000"@
}

pub open spec fn duplicate_pending_message() -> Seq<char> {
    "A pending refill request already exists for this tile"@
}

pub open spec fn approved_qty_message() -> Seq<char> {
    "Approved quantity must be greater than 0"@
}

pub open spec fn reason_required_message() -> Seq<char> {
    "Rejection reason is required"@
}

pub open spec fn reason_too_long_message() -> Seq<char> {
    "Rejection reason must be 500 characters or fewer"@
}

/// "Cannot approve a 'fulfilled' request" and the like.
pub open spec fn wrong_state_message(verb: Seq<char>, status: Seq<char>) -> Seq<char> {
    "Cannot "@ + verb + " a '"@ + status + "' request"@
}

/// A record is visible to a user only in the user's own branch.
pub open spec fn in_branch(record_branch: Option<i64>, auth: AuthUser) -> bool {
    record_branch == Some(auth.branch_id)
}

pub open spec fn tile_branch(tile: Option<TileRef>) -> Option<i64> {
    match tile {
        Some(t) => Some(t.branch_id),
        None => None,
    }
}

pub open spec fn refill_branch(row: Option<RefillRow>) -> Option<i64> {
    match row {
        Some(r) => Some(r.branch_id),
        None => None,
    }
}

pub open spec fn opt_tile(tile: Option<&TileRef>) -> Option<TileRef> {
    match tile {
        Some(t) => Some(*t),
        None => None,
    }
}

pub open spec fn opt_row(row: Option<&RefillRow>) -> Option<RefillRow> {
    match row {
        Some(r) => Some(*r),
        None => None,
    }
}

/// The outcome of asking for a refill of `qty` on `tile`.
pub open spec fn request_verdict(auth: AuthUser, qty: int, tile: Option<TileRef>, pending_exists: bool) -> Result<(), Refusal> {
    if auth.role == Role::SalesRep {
        Err(Refusal::Forbidden)
    } else if qty <= 0 || qty > max_refill_qty() {
        Err(Refusal::Validation(qty_range_message()))
    } else if !in_branch(tile_branch(tile), auth) {
        Err(Refusal::NotFound)
    } else if pending_exists {
        Err(Refusal::Conflict(duplicate_pending_message()))
    } else {
        Ok(())
    }
}

/// The outcome of approving `row`, optionally changing the quantity to `qty`.
pub open spec fn approve_verdict(auth: AuthUser, qty: Option<i64>, row: Option<RefillRow>) -> Result<(), Refusal> {
    if auth.role != Role::Admin {
        Err(Refusal::Forbidden)
    } else if qty matches Some(q) && q <= 0 {
        Err(Refusal::Validation(approved_qty_message()))
    } else if !in_branch(refill_branch(row), auth) {
        Err(Refusal::NotFound)
    } else if next_status_of_text(row.unwrap().status@, RefillAction::Approve) is None {
        Err(Refusal::Conflict(wrong_state_message("approve"@, row.unwrap().status@)))
    } else {
        Ok(())
    }
}

/// The outcome of rejecting `row` with `reason`.
pub open spec fn reject_verdict(auth: AuthUser, reason: Seq<char>, row: Option<RefillRow>) -> Result<(), Refusal> {
    if auth.role != Role::Admin {
        Err(Refusal::Forbidden)
    } else if trimmed(reason).len() == 0 {
        Err(Refusal::Validation(reason_required_message()))
    } else if utf8_len(trimmed(reason)) > 500 {
        Err(Refusal::Validation(reason_too_long_message()))
    } else if !in_branch(refill_branch(row), auth) {
        Err(Refusal::NotFound)
    } else if next_status_of_text(row.unwrap().status@, RefillAction::Reject) is None {
        Err(Refusal::Conflict(wrong_state_message("reject"@, row.unwrap().status@)))
    } else {
        Ok(())
    }
}

/// The outcome of confirming that `row` was restocked.
pub open spec fn fulfill_verdict(auth: AuthUser, row: Option<RefillRow>) -> Result<(), Refusal> {
    if auth.role == Role::SalesRep {
        Err(Refusal::Forbidden)
    } else if !in_branch(refill_branch(row), auth) {
        Err(Refusal::NotFound)
    } else if next_status_of_text(row.unwrap().status@, RefillAction::Fulfill) is None {
        Err(Refusal::Conflict(wrong_state_message("fulfill"@, row.unwrap().status@)))
    } else {
        Ok(())
    }
}

fn wrong_state(verb: &str, status: &String) -> (e: AppError)
    ensures
        e@ == Refusal::Conflict(wrong_state_message(verb@, status@)),
{
    let mut m = owned("Cannot ");
    m.append(verb);
    m.append(" a '");
    m.append(status.as_str());
    m.append("' request");
    assert(m@ =~= wrong_state_message(verb@, status@));
    AppError::conflict(m)
}

/// Decides a refill request (`POST /tiles/{id}/refill`). `tile` is the tile
/// with that id in any branch; `pending_exists` tells whether that tile
/// already has a pending request.
pub fn plan_request_refill(auth: &AuthUser, qty: i64, tile: Option<&TileRef>, pending_exists: bool) -> (r: Result<NewRefill, AppError>)
    ensures
        verdict(r) == request_verdict(*auth, qty as int, opt_tile(tile), pending_exists),
        r matches Ok(n) ==> n.tile_id == tile.unwrap().id && n.requested_by == auth.id && n.qty == qty,
{
    if auth.role == Role::SalesRep {
        return Err(AppError::Forbidden);
    }
    if qty <= 0 || qty > 10_000 {
        return Err(AppError::validation("Qty must be between 1 and 10,000"));
    }
    let t = match tile {
        Some(t) => t,
        None => return Err(AppError::NotFound),
    };
    if t.branch_id != auth.branch_id {
        return Err(AppError::NotFound);
    }
    if pending_exists {
        return Err(AppError::conflict(owned("A pending refill request already exists for this tile")));
    }
    Ok(NewRefill { tile_id: t.id, requested_by: auth.id, qty })
}

/// Decides an approval (`POST /refill/{id}/approve`). Without a quantity the
/// requested quantity is approved.
pub fn plan_approve(auth: &AuthUser, qty: Option<i64>, row: Option<&RefillRow>) -> (r: Result<Approval, AppError>)
    ensures
        verdict(r) == approve_verdict(*auth, qty, opt_row(row)),
        r matches Ok(a) ==> a.refill_id == row.unwrap().id && a.approved_by == auth.id
            && a.new_status == RefillStatus::Approved && a.qty == (match qty {
            Some(q) => q,
            None => row.unwrap().qty_requested,
        }),
{
    if auth.role != Role::Admin {
        return Err(AppError::Forbidden);
    }
    if let Some(q) = qty {
        if q <= 0 {
            return Err(AppError::validation("Approved quantity must be greater than 0"));
        }
    }
    let req = match row {
        Some(req) => req,
        None => return Err(AppError::NotFound),
    };
    if req.branch_id != auth.branch_id {
        return Err(AppError::NotFound);
    }
    match next_status_for(req.status.as_str(), RefillAction::Approve) {
        None => Err(wrong_state("approve", &req.status)),
        Some(s) => Ok(
            Approval {
                refill_id: req.id,
                approved_by: auth.id,
                qty: match qty {
                    Some(q) => q,
                    None => req.qty_requested,
                },
                new_status: s,
            },
        ),
    }
}

/// Decides a rejection (`POST /refill/{id}/reject`); the reason is stored trimmed.
pub fn plan_reject(auth: &AuthUser, reason: &str, row: Option<&RefillRow>) -> (r: Result<Rejection, AppError>)
    ensures
        verdict(r) == reject_verdict(*auth, reason@, opt_row(row)),
        r matches Ok(j) ==> j.refill_id == row.unwrap().id && j.rejected_by == auth.id
            && j.reason@ == trimmed(reason@) && j.new_status == RefillStatus::Rejected,
{
    if auth.role != Role::Admin {
        return Err(AppError::Forbidden);
    }
    let t = trim(reason);
    if t.unicode_len() == 0 {
        return Err(AppError::validation("Rejection reason is required"));
    }
    if t.as_bytes().len() > 500 {
        return Err(AppError::validation("Rejection reason must be 500 characters or fewer"));
    }
    let req = match row {
        Some(req) => req,
        None => return Err(AppError::NotFound),
    };
    if req.branch_id != auth.branch_id {
        return Err(AppError::NotFound);
    }
    match next_status_for(req.status.as_str(), RefillAction::Reject) {
        None => Err(wrong_state("reject", &req.status)),
        Some(s) => Ok(
            Rejection { refill_id: req.id, rejected_by: auth.id, reason: owned(t), new_status: s },
        ),
    }
}

/// Decides a fulfilment (`POST /refill/{id}/fulfill`): the tile gains the
/// approved quantity.
pub fn plan_fulfill(auth: &AuthUser, row: Option<&RefillRow>) -> (r: Result<Fulfilment, AppError>)
    ensures
        verdict(r) == fulfill_verdict(*auth, opt_row(row)),
        r matches Ok(f) ==> f.refill_id == row.unwrap().id && f.fulfilled_by == auth.id
            && f.tile_id == row.unwrap().tile_id && f.qty_added == row.unwrap().qty_requested
            && f.new_status == RefillStatus::Fulfilled,
{
    if auth.role == Role::SalesRep {
        return Err(AppError::Forbidden);
    }
    let req = match row {
        Some(req) => req,
        None => return Err(AppError::NotFound),
    };
    if req.branch_id != auth.branch_id {
        return Err(AppError::NotFound);
    }
    match next_status_for(req.status.as_str(), RefillAction::Fulfill) {
        None => Err(wrong_state("fulfill", &req.status)),
        Some(s) => Ok(
            Fulfilment {
                refill_id: req.id,
                fulfilled_by: auth.id,
                tile_id: req.tile_id,
                qty_added: req.qty_requested,
                new_status: s,
            },
        ),
    }
}

/// Who may list the branch's approved refills (`GET /refills/approved`).
pub fn authorize_approved_list(auth: &AuthUser) -> (r: Result<(), AppError>)
    ensures
        verdict(r) == (if auth.role == Role::SalesRep {
            Err(Refusal::Forbidden)
        } else {
            Ok(())
        }),
{
    if auth.role == Role::SalesRep {
        Err(AppError::Forbidden)
    } else {
        Ok(())
    }
}

/// What Salesforce is told about an approval.
pub fn approval_payload(row: &RefillRow, qty: i64, branch: String) -> (p: RefillPayload)
    ensures
        p.fields() == (row.item_number@, match row.collection {
            Some(c) => Some(c@),
            None => None,
        }, qty, branch@),
{
    RefillPayload {
        item_number: owned(row.item_number.as_str()),
        collection: match &row.collection {
            Some(c) => Some(owned(c.as_str())),
            None => None,
        },
        qty_requested: qty,
        branch,
    }
}

/// The event announcing a new request.
pub fn refill_requested_event(refill_id: i64, tile: &TileRef) -> (e: WsEvent)
    ensures
        e matches WsEvent::RefillRequested { refill_id: id, tile_id, item_number } && id == refill_id
            && tile_id == tile.id && item_number@ == tile.item_number@,
{
    WsEvent::RefillRequested { refill_id, tile_id: tile.id, item_number: owned(tile.item_number.as_str()) }
}

/// The event announcing a status change.
pub fn status_change_event(refill_id: i64, status: RefillStatus) -> (e: WsEvent)
    ensures
        e matches WsEvent::RefillStatusChange { refill_id: id, status: s } && id == refill_id
            && s@ == status_text(status),
{
    WsEvent::RefillStatusChange { refill_id, status: owned(status.as_str()) }
}

/// The event announcing a tile's new quantity.
pub fn inventory_update_event(tile_id: i64, new_qty: i64) -> (e: WsEvent)
    ensures
        e == (WsEvent::InventoryUpdate { tile_id, new_qty }),
{
    WsEvent::InventoryUpdate { tile_id, new_qty }
}

/// A sales rep can neither request, approve, reject nor fulfil a refill.
pub proof fn lemma_sales_rep_cannot_change_refills(
    auth: AuthUser,
    qty: int,
    approved: Option<i64>,
    reason: Seq<char>,
    tile: Option<TileRef>,
    row: Option<RefillRow>,
    pending_exists: bool,
)
    requires
        auth.role == Role::SalesRep,
    ensures
        request_verdict(auth, qty, tile, pending_exists) == Err::<(), Refusal>(Refusal::Forbidden),
        approve_verdict(auth, approved, row) == Err::<(), Refusal>(Refusal::Forbidden),
        reject_verdict(auth, reason, row) == Err::<(), Refusal>(Refusal::Forbidden),
        fulfill_verdict(auth, row) == Err::<(), Refusal>(Refusal::Forbidden),
{
}

/// Only an admin approves or rejects.
pub proof fn lemma_only_admins_decide(auth: AuthUser, approved: Option<i64>, reason: Seq<char>, row: Option<RefillRow>)
    ensures
        approve_verdict(auth, approved, row) is Ok ==> auth.role == Role::Admin,
        reject_verdict(auth, reason, row) is Ok ==> auth.role == Role::Admin,
{
}

/// No refill step succeeds on a tile or request of another branch; a record
/// of another branch is answered as missing, not as forbidden, unless the
/// role alone already forbids the step.
pub proof fn lemma_branch_isolation(
    auth: AuthUser,
    qty: int,
    approved: Option<i64>,
    reason: Seq<char>,
    tile: Option<TileRef>,
    row: Option<RefillRow>,
    pending_exists: bool,
)
    ensures
        request_verdict(auth, qty, tile, pending_exists) is Ok ==> tile_branch(tile) == Some(auth.branch_id),
        approve_verdict(auth, approved, row) is Ok ==> refill_branch(row) == Some(auth.branch_id),
        reject_verdict(auth, reason, row) is Ok ==> refill_branch(row) == Some(auth.branch_id),
        fulfill_verdict(auth, row) is Ok ==> refill_branch(row) == Some(auth.branch_id),
        auth.role != Role::SalesRep && refill_branch(row) != Some(auth.branch_id)
            ==> fulfill_verdict(auth, row) == Err::<(), Refusal>(Refusal::NotFound),
{
}

/// Every step that succeeds moves the request along the workflow: approval
/// and rejection only from pending, fulfilment only from approved.
pub proof fn lemma_steps_follow_workflow(auth: AuthUser, approved: Option<i64>, reason: Seq<char>, row: Option<RefillRow>)
    ensures
        approve_verdict(auth, approved, row) is Ok ==> next_status_of_text(row.unwrap().status@, RefillAction::Approve) == Some(RefillStatus::Approved),
        reject_verdict(auth, reason, row) is Ok ==> next_status_of_text(row.unwrap().status@, RefillAction::Reject) == Some(RefillStatus::Rejected),
        fulfill_verdict(auth, row) is Ok ==> next_status_of_text(row.unwrap().status@, RefillAction::Fulfill) == Some(RefillStatus::Fulfilled),
{
}

/// Once a request is approved and the approval stored (status "approved",
/// the approved quantity in place of the requested one), anyone of the
/// branch but a sales rep may fulfil it, and it can be neither approved nor
/// rejected again.
pub proof fn lemma_approved_request_is_fulfillable(
    admin: AuthUser,
    qty: Option<i64>,
    row: RefillRow,
    stored: RefillRow,
    actor: AuthUser,
    again: Option<i64>,
    reason: Seq<char>,
)
    requires
        approve_verdict(admin, qty, Some(row)) is Ok,
        stored.id == row.id,
        stored.tile_id == row.tile_id,
        stored.branch_id == row.branch_id,
        stored.status@ == status_text(RefillStatus::Approved),
        stored.qty_requested == (match qty {
            Some(q) => q,
            None => row.qty_requested,
        }),
        actor.role != Role::SalesRep,
        actor.branch_id == row.branch_id,
    ensures
        fulfill_verdict(actor, Some(stored)) is Ok,
        approve_verdict(admin, again, Some(stored)) is Err,
        reject_verdict(admin, reason, Some(stored)) is Err,
{
    lemma_status_names_round_trip(RefillStatus::Approved, stored.status@);
}

} // verus!
