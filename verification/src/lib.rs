//! A verified core for a minimal todo-list CRUD service.
//!
//! The library models the entry store (a flat collection of entries with
//! store-assigned ids), the JSON marshalling of entries, and the mapping
//! from storage outcomes to HTTP responses. The surrounding process
//! (HTTP server, database driver) lives outside the library and hands it
//! plain values.

pub mod json;
pub mod laws;
pub mod models;
pub mod services;
pub mod store;

pub use models::CreateEntryData;
pub use models::Entry;
pub use models::RawRow;
pub use models::StoreError;
pub use models::UpdateEntryData;
