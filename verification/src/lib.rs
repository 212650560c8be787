//! A small log-ingestion library: an append-only, id-indexed record store,
//! level/kernel filtering and substring search over it, kernel tagging and
//! date-rotated file naming for persistence, the per-connection ingestion
//! state machine, and the model of filesystem-watch events.

pub mod components;
pub mod query;
pub mod persist;
pub mod ingest;
pub mod watch;
