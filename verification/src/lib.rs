//! Core logic of a role-based banking system: access control, accounts and
//! transfers with manager approval for large amounts, a hash-chained audit
//! log, and the on-chain transfer-request program with its client payloads.

pub mod access_control;
pub mod audit;
pub mod auth;
pub mod banking;
pub mod blockchain;
mod clock;
pub mod db;
pub mod models;
pub mod program;
pub mod session;
pub mod store;
pub mod table;
pub mod text;
