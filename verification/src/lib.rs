//! Schema-evolution layer for binary-encoded messages.
//!
//! A value is written as a wire envelope: a fixed-width little-endian
//! revision header followed by the payload bytes of the value's own schema
//! revision. A receiver holding a newer schema decodes an older envelope by
//! decoding it as the predecessor schema and migrating the result forward,
//! one revision link at a time.

pub mod codec;
pub mod sample;
pub mod text;
pub mod v1;
pub mod versioned;
pub mod wire;

pub use crate::v1 as wire_protocol;
pub use crate::wire::{
    deserialize_revision, serialize_revision, Lineage, NoPrevious, Payload, Revise, WireError,
};
