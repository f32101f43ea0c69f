//! Tiles and their stock health.
use vstd::prelude::*;

verus! {

/// A tile sample record of a branch.
#[derive(Debug, Clone)]
pub struct Tile {
    pub id: i64,
    pub branch_id: i64,
    pub item_number: String,
    pub collection: Option<String>,
    pub gts_description: Option<String>,
    pub new_bin: Option<String>,
    pub qty: i64,
    pub overflow_rack: i64,
    pub order_number: Option<String>,
    pub notes: Option<String>,
    pub sample_coordinator_id: Option<i64>,
    pub sales_rep_id: Option<i64>,
    pub low_inventory_threshold: i64,
    pub created_at: String,
    pub updated_at: String,
}

/// Stock health, used to colour rows and to order the inventory.
#[derive(Debug, Clone, Copy, PartialEq, Eq, Structural)]
pub enum TileHealth {
    Critical,
    Low,
    Healthy,
}

/// Out of stock is critical; at or below the threshold is low; otherwise healthy.
pub open spec fn health_of(qty: int, threshold: int) -> TileHealth {
    if qty == 0 {
        TileHealth::Critical
    } else if qty <= threshold {
        TileHealth::Low
    } else {
        TileHealth::Healthy
    }
}

/// Where a health state comes in the inventory order: critical 0, low 1,
/// healthy 2.
pub open spec fn health_rank(h: TileHealth) -> int {
    match h {
        TileHealth::Critical => 0,
        TileHealth::Low => 1,
        TileHealth::Healthy => 2,
    }
}

/// The lowercase label of a health state.
pub open spec fn health_label(h: TileHealth) -> Seq<char> {
    match h {
        TileHealth::Critical => "critical"@,
        TileHealth::Low => "low"@,
        TileHealth::Healthy => "healthy"@,
    }
}

impl TileHealth {
    pub fn as_str(&self) -> (s: &'static str)
        ensures
            s@ == health_label(*self),
    {
        match self {
            TileHealth::Critical => "critical",
            TileHealth::Low => "low",
            TileHealth::Healthy => "healthy",
        }
    }
}

impl Tile {
    /// Health status for colour-coding in the UI.
    pub fn health(&self) -> (h: TileHealth)
        ensures
            h == health_of(self.qty as int, self.low_inventory_threshold as int),
    {
        if self.qty == 0 {
            TileHealth::Critical
        } else if self.qty <= self.low_inventory_threshold {
            TileHealth::Low
        } else {
            TileHealth::Healthy
        }
    }
}

/// A tile is critical exactly when it is out of stock, and a tile with stock
/// above its threshold is healthy.
pub proof fn lemma_health_states(qty: int, threshold: int)
    ensures
        (health_of(qty, threshold) == TileHealth::Critical) <==> qty == 0,
        qty != 0 && qty <= threshold ==> health_of(qty, threshold) == TileHealth::Low,
        qty > threshold && qty != 0 ==> health_of(qty, threshold) == TileHealth::Healthy,
{
}

} // verus!
