//! Refill requests and the states they move through.
use vstd::prelude::*;
use crate::text::text_eq;

verus! {

/// A refill request as stored.
#[derive(Debug, Clone)]
pub struct RefillRequest {
    pub id: i64,
    pub tile_id: i64,
    pub requested_by: i64,
    pub approved_by: Option<i64>,
    pub fulfilled_by: Option<i64>,
    pub qty_requested: i64,
    pub status: String,
    pub requested_at: String,
    pub approved_at: Option<String>,
    pub fulfilled_at: Option<String>,
    pub timer_expires_at: String,
}

/// Where a refill request stands.
#[derive(Debug, Clone, Copy, PartialEq, Eq, Structural)]
pub enum RefillStatus {
    Pending,
    Approved,
    Rejected,
    Fulfilled,
    Expired,
}

/// What can happen to a refill request.
#[derive(Debug, Clone, Copy, PartialEq, Eq, Structural)]
pub enum RefillAction {
    Approve,
    Reject,
    Fulfill,
    Expire,
}

/// The stored name of each status.
pub open spec fn status_text(s: RefillStatus) -> Seq<char> {
    match s {
        RefillStatus::Pending => "pending"@,
        RefillStatus::Approved => "approved"@,
        RefillStatus::Rejected => "rejected"@,
        RefillStatus::Fulfilled => "fulfilled"@,
        RefillStatus::Expired => "expired"@,
    }
}

/// The status a stored name denotes, if any.
pub open spec fn status_named(s: Seq<char>) -> Option<RefillStatus> {
    if s == "pending"@ {
        Some(RefillStatus::Pending)
    } else if s == "approved"@ {
        Some(RefillStatus::Approved)
    } else if s == "rejected"@ {
        Some(RefillStatus::Rejected)
    } else if s == "fulfilled"@ {
        Some(RefillStatus::Fulfilled)
    } else if s == "expired"@ {
        Some(RefillStatus::Expired)
    } else {
        None
    }
}

/// The workflow: a pending request is approved, rejected or expires; an
/// approved request is fulfilled. Nothing else moves.
pub open spec fn next_status(s: RefillStatus, a: RefillAction) -> Option<RefillStatus> {
    match (s, a) {
        (RefillStatus::Pending, RefillAction::Approve) => Some(RefillStatus::Approved),
        (RefillStatus::Pending, RefillAction::Reject) => Some(RefillStatus::Rejected),
        (RefillStatus::Pending, RefillAction::Expire) => Some(RefillStatus::Expired),
        (RefillStatus::Approved, RefillAction::Fulfill) => Some(RefillStatus::Fulfilled),
        _ => None,
    }
}

/// The status after `a` when the stored status text allows it.
pub open spec fn next_status_of_text(s: Seq<char>, a: RefillAction) -> Option<RefillStatus> {
    match status_named(s) {
        Some(st) => next_status(st, a),
        None => None,
    }
}

impl RefillStatus {
    /// Parses a stored status name.
    pub fn from_str(s: &str) -> (r: Option<RefillStatus>)
        ensures
            r == status_named(s@),
    {
        if text_eq(s, "pending") {
            Some(RefillStatus::Pending)
        } else if text_eq(s, "approved") {
            Some(RefillStatus::Approved)
        } else if text_eq(s, "rejected") {
            Some(RefillStatus::Rejected)
        } else if text_eq(s, "fulfilled") {
            Some(RefillStatus::Fulfilled)
        } else if text_eq(s, "expired") {
            Some(RefillStatus::Expired)
        } else {
            None
        }
    }

    /// The stored name of the status.
    pub fn as_str(&self) -> (s: &'static str)
        ensures
            s@ == status_text(*self),
    {
        match self {
            RefillStatus::Pending => "pending",
            RefillStatus::Approved => "approved",
            RefillStatus::Rejected => "rejected",
            RefillStatus::Fulfilled => "fulfilled",
            RefillStatus::Expired => "expired",
        }
    }

    /// The status after `action`, or `None` where the workflow forbids it.
    pub fn after(&self, action: RefillAction) -> (r: Option<RefillStatus>)
        ensures
            r == next_status(*self, action),
    {
        match (*self, action) {
            (RefillStatus::Pending, RefillAction::Approve) => Some(RefillStatus::Approved),
            (RefillStatus::Pending, RefillAction::Reject) => Some(RefillStatus::Rejected),
            (RefillStatus::Pending, RefillAction::Expire) => Some(RefillStatus::Expired),
            (RefillStatus::Approved, RefillAction::Fulfill) => Some(RefillStatus::Fulfilled),
            _ => None,
        }
    }
}

/// The status after `action` for a stored status text.
pub fn next_status_for(status: &str, action: RefillAction) -> (r: Option<RefillStatus>)
    ensures
        r == next_status_of_text(status@, action),
{
    match RefillStatus::from_str(status) {
        Some(s) => s.after(action),
        None => None,
    }
}

/// Reading a status's stored name gives the status back, and a name reads
/// as a status only if it is that status's stored name.
pub proof fn lemma_status_names_round_trip(s: RefillStatus, t: Seq<char>)
    ensures
        status_named(status_text(s)) == Some(s),
        status_named(t) matches Some(q) ==> t == status_text(q),
{
    reveal_strlit("pending");
    reveal_strlit("approved");
    reveal_strlit("rejected");
    reveal_strlit("fulfilled");
    reveal_strlit("expired");
    assert("pending"@[0] != "approved"@[0]);
    assert("pending"@[0] != "rejected"@[0]);
    assert("pending"@[0] != "fulfilled"@[0]);
    assert("pending"@[0] != "expired"@[0]);
    assert("approved"@[0] != "rejected"@[0]);
    assert("approved"@[0] != "fulfilled"@[0]);
    assert("approved"@[0] != "expired"@[0]);
    assert("rejected"@[0] != "fulfilled"@[0]);
    assert("rejected"@[0] != "expired"@[0]);
    assert("fulfilled"@[0] != "expired"@[0]);
}

/// Rejected, fulfilled and expired requests are final: no action moves them.
pub proof fn lemma_final_states_are_final(a: RefillAction)
    ensures
        next_status(RefillStatus::Rejected, a) is None,
        next_status(RefillStatus::Fulfilled, a) is None,
        next_status(RefillStatus::Expired, a) is None,
{
}

/// Every allowed action changes the status; only an approved request can be
/// fulfilled, and only a pending request can be approved, rejected or expire.
pub proof fn lemma_workflow_edges(s: RefillStatus, a: RefillAction)
    ensures
        next_status(s, a) matches Some(t) ==> t != s,
        next_status(s, a) == Some(RefillStatus::Fulfilled) ==> s == RefillStatus::Approved
            && a == RefillAction::Fulfill,
        (next_status(s, a) is Some && a != RefillAction::Fulfill) ==> s == RefillStatus::Pending,
        a == RefillAction::Fulfill ==> (next_status(s, a) is Some <==> s == RefillStatus::Approved),
        a != RefillAction::Fulfill ==> (next_status(s, a) is Some <==> s == RefillStatus::Pending),
{
}

} // verus!
