//! The error taxonomy of the pipeline. Every failure is surfaced to the
//! caller as one of these variants; none is downgraded to a generic
//! failure, and none terminates the process.

use vstd::prelude::*;

use crate::validate::FieldPath;

verus! {

/// A typed produce failure: transport or logical registry failures,
/// non-conformance found by the encoder, and backpressure, timing or
/// broker-side delivery failures.
pub enum ProduceError {
    /// The registry could not be reached at the transport level.
    RegistryUnreachable,
    /// The registry has no schema under the subject.
    SchemaNotFound { subject: Vec<u8> },
    /// The record does not conform to the schema; the path names the
    /// field that failed.
    Encoding { path: FieldPath },
    /// The bounded outbound queue is at capacity.
    QueueFull,
    /// The broker did not acknowledge within the delivery timeout.
    DeliveryTimeout,
    /// The broker rejected the message.
    BrokerRejected { reason: Vec<u8> },
}

} // verus!
