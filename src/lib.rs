//! Schema-migration engine: reconciles local SQL migration files against the
//! ledger of applied migrations kept in the target database, and applies the
//! new ones in name order under an advisory lock.

pub mod archive;
pub mod client;
pub mod clock;
pub mod config;
pub mod driver;
pub mod error;
pub mod history;
pub mod laws;
pub mod migration;
pub mod reconcile;
pub mod recorder;
pub mod report;
pub mod schema;
pub mod text;
pub mod util;
