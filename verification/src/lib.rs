//! An event-sourcing toolkit: aggregates fold events into state and decide
//! which new events a command produces; an append-only log with optimistic
//! concurrency stores them; read models are rebuilt by folding the log.

pub mod aggregate;
pub mod command;
pub mod error;
pub mod event;
pub mod handler;
pub mod ids;
pub mod metadata;
pub mod naming;
pub mod read_model;
pub mod service;
pub mod snapshot;
pub mod store;
pub mod subscription;
pub mod testing;
pub mod text;
pub mod upcast;

pub use aggregate::{render, render_from, Aggregate};
pub use command::Command;
pub use error::{ServiceError, StoreError};
pub use event::{DomainEvent, ExpectedRevision, Metadata, Recorded};
pub use handler::{CommandKind, Handles};
pub use ids::{AggregateType, EventId, Revision, StreamId};
pub use metadata::MetadataExt;
pub use read_model::View;
pub use service::Service;
pub use snapshot::{SnapshotEnvelope, SnapshotPolicy};
pub use store::memory::MemoryStore;
pub use store::projection::Projection;
pub use upcast::{Upcaster, Upcasters};
