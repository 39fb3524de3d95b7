//! The email newsletter service: request validation, listing windows, admin
//! statistics and the idempotency-key retention policy.

pub mod admin;
pub mod api;
pub mod confirm;
pub mod delivery;
pub mod email_templates;
pub mod idempotency;
