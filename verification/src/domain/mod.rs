//! Validated value types of the hub: each `parse` accepts exactly the inputs
//! its specification describes and reports the reason otherwise.

pub mod memory;
pub mod newsletter;
pub mod paste;
pub mod api_key;
pub mod vault;
pub mod prefixed_id;
pub mod subscriber_name;
