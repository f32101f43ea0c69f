//! The Salesforce notification sent when a refill is approved, and the
//! in-memory client that records notifications instead of sending them.
use vstd::prelude::*;
use crate::text::owned;

verus! {

/// What Salesforce is told about an approved refill. Pricing is never part of it.
#[derive(Debug)]
pub struct RefillPayload {
    pub item_number: String,
    pub collection: Option<String>,
    pub qty_requested: i64,
    pub branch: String,
}

impl RefillPayload {
    /// A field-by-field copy.
    pub fn duplicate(&self) -> (r: RefillPayload)
        ensures
            r.item_number@ == self.item_number@,
            r.qty_requested == self.qty_requested,
            r.branch@ == self.branch@,
            match (r.collection, self.collection) {
                (Some(a), Some(b)) => a@ == b@,
                (None, None) => true,
                _ => false,
            },
    {
        RefillPayload {
            item_number: owned(self.item_number.as_str()),
            collection: match &self.collection {
                Some(c) => Some(owned(c.as_str())),
                None => None,
            },
            qty_requested: self.qty_requested,
            branch: owned(self.branch.as_str()),
        }
    }

    /// The payload as plain values: item number, collection, quantity, branch.
    pub open spec fn fields(&self) -> (Seq<char>, Option<Seq<char>>, i64, Seq<char>) {
        (
            self.item_number@,
            match self.collection {
                Some(c) => Some(c@),
                None => None,
            },
            self.qty_requested,
            self.branch@,
        )
    }
}

/// Where refill approvals are reported.
pub trait SalesforceClient {
    /// Reports an approved refill; an error is logged by the caller and
    /// does not undo the approval.
    fn notify_refill(&mut self, payload: &RefillPayload) -> Result<(), String>;
}

/// Records every notification in memory; used for development and tests.
pub struct MockClient {
    pub calls: Vec<RefillPayload>,
}

impl MockClient {
    /// A client that has recorded nothing.
    pub fn new() -> (m: MockClient)
        ensures
            m.calls@.len() == 0,
    {
        MockClient { calls: Vec::new() }
    }

    /// The recorded payloads, in the order they were sent.
    pub open spec fn recorded(&self) -> Seq<(Seq<char>, Option<Seq<char>>, i64, Seq<char>)> {
        self.calls@.map_values(|p: RefillPayload| p.fields())
    }
}

impl Default for MockClient {
    fn default() -> (m: MockClient)
        ensures
            m.calls@.len() == 0,
    {
        MockClient::new()
    }
}

impl SalesforceClient for MockClient {
    /// Records a copy of the payload and reports success.
    fn notify_refill(&mut self, payload: &RefillPayload) -> (r: Result<(), String>)
        ensures
            r is Ok,
            final(self).recorded() == old(self).recorded().push(payload.fields()),
    {
        let copy = payload.duplicate();
        self.calls.push(copy);
        assert(self.recorded() =~= old(self).recorded().push(payload.fields()));
        Ok(())
    }
}

} // verus!
