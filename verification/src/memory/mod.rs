//! Memory service: reply handling of the fact-extraction engine.

pub mod engine;
pub mod listing;
pub mod routes;
