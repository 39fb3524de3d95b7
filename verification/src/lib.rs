//! Verified core of the hub service: domain value parsers, text helpers,
//! delivery-queue decisions, vault rendering logic and CLI helpers.

pub mod authentication;
pub mod cli;
pub mod clock;
pub mod domain;
pub mod fields;
pub mod idempotency;
pub mod json;
pub mod memory;
pub mod newsletter;
pub mod pastebin;
pub mod primitives;
pub mod queue;
pub mod tally;
pub mod text;
pub mod vault;
