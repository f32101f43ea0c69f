pub mod extractor;
pub mod routes;
