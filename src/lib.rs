//! An in-memory repository of short text records ("snaps"), with unique
//! identities, newest-first listing, and the mapping of its outcomes onto HTTP
//! responses. Callers that share one repository across threads hold it behind
//! one lock, so that each of its operations is atomic.

pub mod models;
pub mod state;
pub mod store;
pub mod router;
