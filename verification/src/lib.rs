//! Dead-man's-switch supervision: the data model, the in-memory store that
//! states the persistence contract, the scheduler's firing decisions, the
//! audited action runner and the check-in protocol.

pub mod api;
pub mod auth;
pub mod clock;
pub mod config;
pub mod db;
pub mod models;
pub mod text;
pub mod watchdog;
pub mod web;
