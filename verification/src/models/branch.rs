use vstd::prelude::*;

verus! {

/// A showroom branch; every user and tile belongs to one.
#[derive(Debug, Clone)]
pub struct Branch {
    pub id: i64,
    pub name: String,
    pub territory: String,
    pub created_at: String,
}

} // verus!
