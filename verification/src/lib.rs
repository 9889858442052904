//! A schema-registry-aware event encoding and delivery pipeline.
//!
//! Given a structured record and a schema identity, the library resolves a
//! numeric schema id against a registry (caching resolutions), encodes the
//! record into the registry wire format (a one-byte magic marker, the schema
//! id as four big-endian bytes, then the schema-conformant binary body), and
//! models synchronous delivery to a broker topic through a bounded outbound
//! queue with explicit per-record success or failure reporting.

use vstd::prelude::*;

pub mod codec;
pub mod decode;
pub mod delivery;
pub mod encoder;
pub mod error;
pub mod pipeline;
pub mod registry;
pub mod schema;
pub mod validate;
pub mod value;
pub mod varint;
pub mod wire;

verus! {

} // verus!
