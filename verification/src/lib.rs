//! Inventory and loan ledger for a care-service equipment pool.
//!
//! The ledger keeps borrowers, stocked items and loans, and writes an
//! append-only audit log of every change. Every operation is applied as one
//! unit: either the whole change and its events become visible, or nothing
//! does.
pub mod audit;
pub mod backup;
pub mod catalogue;
pub mod commands;
pub mod consistency;
pub mod database;
pub mod error;
pub mod ident;
pub mod item_ledger;
pub mod laws;
pub mod ledger;
pub mod loan_ledger;
pub mod lock;
pub mod models;
pub mod ordering;
pub mod queries;
pub mod report;
pub mod restore;
pub mod text;
pub mod time;
pub mod user_directory;
