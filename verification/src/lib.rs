pub mod auth;
pub mod datetime;
pub mod error;
pub mod jobs;
pub mod models;
pub mod order;
pub mod routes;
pub mod salesforce;
pub mod state;
pub mod text;
pub mod ws;

pub use error::AppError;
