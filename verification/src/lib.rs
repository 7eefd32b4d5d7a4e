//! A multi-tenant registry of named event type records.
//!
//! Each tenant owns a namespace of records identified by name. A record
//! carries a free-text description, an optional structured schema payload,
//! an optional feature-flag gate, and a soft-archive status. The registry
//! offers create/unarchive, full replace, tri-state partial update,
//! idempotent archive, single-record get, and forward-only cursor
//! pagination, all scoped to one tenant per call and filtered by the
//! caller's allowed feature flags.

pub mod order;
pub mod visibility;
pub mod model;
pub mod patch;
pub mod registry;
pub mod laws;
