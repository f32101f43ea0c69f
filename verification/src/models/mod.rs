pub mod branch;
pub mod chat_message;
pub mod refill_request;
pub mod tile;
pub mod user;
