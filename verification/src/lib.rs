//! Synchronisation of a local folder with a remote Tracim shared space:
//! the decision logic (event reduction, conflict resolution, startup
//! synchronisation, local state bookkeeping) with its contracts.

pub mod activity;
pub mod change;
pub mod conflict;
pub mod content;
pub mod context;
pub mod database;
pub mod decimal;
pub mod event;
pub mod executor;
pub mod ignore;
pub mod operation;
pub mod operator;
pub mod password;
pub mod path;
pub mod reducer;
pub mod runner;
pub mod state;
pub mod sync;
pub mod text;
pub mod types;
pub mod util;
pub mod watcher;
