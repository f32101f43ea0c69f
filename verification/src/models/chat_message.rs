use vstd::prelude::*;

verus! {

/// A chat message attached to a tile.
#[derive(Debug, Clone)]
pub struct ChatMessage {
    pub id: i64,
    pub tile_id: i64,
    pub sender_id: i64,
    pub message: String,
    pub created_at: String,
}

} // verus!
