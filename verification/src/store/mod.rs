//! Storage: the append-only event log and the small document store used for
//! read models and checkpoints.

pub mod memory;
pub mod projection;
pub mod rules;
pub mod select;
