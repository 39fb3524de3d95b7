//! The `jonaylor` command-line client: argument handling, its configuration
//! file and the texts it prints.

pub mod args;
pub mod commands;
pub mod config;
pub mod login;
pub mod requests;
pub mod config_roundtrip;
