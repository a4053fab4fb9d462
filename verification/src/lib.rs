//! Core of an HR administration service: employee records with partial-update
//! merge, append-only employment history, an append-only audit trail,
//! credential storage with signed bearer tokens, and a payslip document vault
//! with validated extensions and collision-resistant naming.

pub mod audit;
pub mod auth;
pub mod dates;
pub mod errors;
pub mod ledger;
pub mod models;
pub mod registry;
pub mod text;
pub mod vault;
