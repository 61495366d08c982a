//! A locally held snapshot of the Lightning Network connectivity ranking:
//! the rules for refreshing it from the ranking source and for answering
//! filtered, sorted queries over it.

pub mod errors;
pub mod node;
pub mod query;
pub mod reconcile;
pub mod response;
pub mod scheduler;
pub mod service;
pub mod snapshot;
pub mod text;
pub mod units;
