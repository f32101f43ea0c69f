pub mod refill;
pub mod tiles;
pub mod chat;
pub mod history;
pub mod import;
pub mod analytics;
pub mod admin;
pub mod export;
