//! The pipeline facade: one produce call composes resolver, encoder and
//! delivery client, short-circuiting on the first failure and preserving
//! the error taxonomy end to end. Each call walks the state machine
//! Idle -> Resolving -> Encoding -> Sending -> Delivered or Failed; the
//! terminal states are final for that call and nothing is retried.
//!
//! The registry and the broker are outside services: when the schema id is
//! not cached the call hands back the registry operation to perform, and
//! the delivery outcome enters through the broker's report.

use vstd::prelude::*;

use crate::codec::{enc_body, record_conforms};
use crate::delivery::{DeliveryClient, ProduceRequest, ProduceResult};
use crate::encoder::encode;
use crate::error::ProduceError;
use crate::registry::{
    cache_lookup, cache_store, identity_subject, ResolveStep, ResolvedSchema, Resolver,
    SchemaIdentity,
};
use crate::schema::RecordSchema;
use crate::validate::body_fault;
use crate::value::RecordValue;
use crate::wire::wire_bytes;

verus! {

/// A registry operation the caller must perform before the call can go on.
pub enum RegistryRequest {
    /// Fetch the latest schema id under the subject.
    Lookup { subject: Vec<u8> },
    /// Register the schema document under the subject.
    Register { subject: Vec<u8>, document: Vec<u8> },
}

/// What the registry answered.
pub enum RegistryReply {
    /// The schema id, from a lookup or an idempotent registration.
    Id(u32),
    /// No schema is registered under the subject.
    NotFound,
    /// The registry could not be reached; surfaced, never retried here.
    Unreachable,
}

/// Where one produce call stands.
pub enum PipelineState {
    Idle,
    Resolving,
    Encoding { resolved: ResolvedSchema },
    Sending,
    Delivered { partition: i32, offset: i64 },
    Failed { error: ProduceError },
}

/// One produce call walking the pipeline state machine.
pub struct ProduceCall {
    pub state: PipelineState,
}

impl ProduceCall {
    /// A fresh call.
    pub fn new() -> (c: ProduceCall)
        ensures
            c.state is Idle,
    {
        ProduceCall { state: PipelineState::Idle }
    }

    /// Resolve the schema id from the cache, or name the registry
    /// operation that is needed.
    pub fn begin(&mut self, resolver: &Resolver, identity: &SchemaIdentity) -> (r: Option<
        RegistryRequest,
    >)
        requires
            old(self).state is Idle,
        ensures
            ({
                let subj = identity_subject(identity@);
                let key = identity@.document;
                match r {
                    None => final(self).state matches PipelineState::Encoding { resolved }
                        && cache_lookup(resolver@, subj, key) == Some(resolved.schema_id)
                        && resolved.subject@ == subj,
                    Some(req) => final(self).state is Resolving && cache_lookup(
                        resolver@,
                        subj,
                        key,
                    ) is None && match req {
                        RegistryRequest::Lookup { subject } => subject@ == subj && key is None,
                        RegistryRequest::Register { subject, document } => subject@ == subj && key
                            == Some(document@),
                    },
                }
            }),
    {
        match resolver.resolve_step(identity) {
            ResolveStep::Resolved(resolved) => {
                self.state = PipelineState::Encoding { resolved };
                None
            },
            ResolveStep::NeedLookup { subject } => {
                self.state = PipelineState::Resolving;
                Some(RegistryRequest::Lookup { subject })
            },
            ResolveStep::NeedRegister { subject, document } => {
                self.state = PipelineState::Resolving;
                Some(RegistryRequest::Register { subject, document })
            },
        }
    }

    /// Fold the registry's answer in: cache a returned id and move on to
    /// encoding, or fail with the registry error, which is surfaced as-is.
    pub fn registry_reply(
        &mut self,
        resolver: &mut Resolver,
        identity: &SchemaIdentity,
        reply: RegistryReply,
    )
        requires
            old(self).state is Resolving,
        ensures
            ({
                let subj = identity_subject(identity@);
                let key = identity@.document;
                match reply {
                    RegistryReply::Id(id) => {
                        &&& final(resolver)@ == cache_store(old(resolver)@, subj, key, id)
                        &&& cache_lookup(final(resolver)@, subj, key) == Some(id)
                        &&& final(self).state matches PipelineState::Encoding { resolved }
                            && resolved.schema_id == id && resolved.subject@ == subj
                    },
                    RegistryReply::NotFound => {
                        &&& final(resolver)@ == old(resolver)@
                        &&& final(self).state matches PipelineState::Failed { error }
                            && error matches ProduceError::SchemaNotFound { subject } && subject@
                            == subj
                    },
                    RegistryReply::Unreachable => {
                        &&& final(resolver)@ == old(resolver)@
                        &&& final(self).state matches PipelineState::Failed { error }
                            && error is RegistryUnreachable
                    },
                }
            }),
    {
        match reply {
            RegistryReply::Id(id) => {
                let resolved = resolver.record_resolution(identity, id);
                self.state = PipelineState::Encoding { resolved };
            },
            RegistryReply::NotFound => {
                let subject = crate::registry::compute_subject(&identity.strategy);
                self.state = PipelineState::Failed {
                    error: ProduceError::SchemaNotFound { subject },
                };
            },
            RegistryReply::Unreachable => {
                self.state = PipelineState::Failed { error: ProduceError::RegistryUnreachable };
            },
        }
    }

    /// Encode the record under the resolved schema and build the produce
    /// request. A non-conforming record fails the call here, with the
    /// faulting field path, and no request is ever handed to delivery.
    pub fn encode_step(
        &mut self,
        schema: &RecordSchema,
        record: &RecordValue,
        topic: Vec<u8>,
        key: Option<Vec<u8>>,
        partition: Option<i32>,
    ) -> (r: Option<ProduceRequest>)
        requires
            old(self).state is Encoding,
        ensures
            ({
                let resolved = old(self).state->Encoding_resolved;
                if record_conforms(schema@, record@) {
                    &&& r matches Some(req) && req.payload@ == wire_bytes(
                        resolved.schema_id,
                        enc_body(record@),
                    ) && req.topic@ == topic@ && req.key == key && req.partition == partition
                        && req.headers is None
                    &&& final(self).state is Sending
                } else {
                    &&& r is None
                    &&& final(self).state matches PipelineState::Failed { error }
                        && error matches ProduceError::Encoding { path } && body_fault(
                        schema@,
                        record@,
                    ) == Some(path@)
                }
            }),
    {
        let resolved = match &self.state {
            PipelineState::Encoding { resolved } => resolved,
            _ => unreached(),
        };
        match encode(resolved, schema, record) {
            Ok(payload) => {
                let req = ProduceRequest { topic, key, payload, partition, headers: None };
                self.state = PipelineState::Sending;
                Some(req)
            },
            Err(path) => {
                self.state = PipelineState::Failed {
                    error: ProduceError::Encoding { path },
                };
                None
            },
        }
    }

    /// Hand the request to the delivery client. A full queue fails the
    /// call fast with QueueFull and the untouched request back.
    pub fn submit(&mut self, client: &mut DeliveryClient, req: ProduceRequest) -> (r: Option<
        ProduceRequest,
    >)
        requires
            old(self).state is Sending,
            old(client).wf(),
        ensures
            final(client).wf(),
            final(client).capacity == old(client).capacity,
            old(client).queue@.len() < old(client).capacity ==> {
                &&& r is None
                &&& final(client).queue@ == old(client).queue@.push(req)
                &&& final(self).state is Sending
            },
            old(client).queue@.len() == old(client).capacity ==> {
                &&& r == Some(req)
                &&& final(client).queue@ == old(client).queue@
                &&& final(self).state matches PipelineState::Failed { error } && error
                    is QueueFull
            },
    {
        match client.try_enqueue(req) {
            Ok(()) => None,
            Err((error, original)) => {
                self.state = PipelineState::Failed { error };
                Some(original)
            },
        }
    }

    /// Fold the broker's report in: the terminal state of the call.
    pub fn complete(&mut self, outcome: ProduceResult)
        requires
            old(self).state is Sending,
        ensures
            outcome matches ProduceResult::Delivered { partition, offset } ==> final(self).state
                == (PipelineState::Delivered { partition, offset }),
            outcome matches ProduceResult::Failed { error, original } ==> final(self).state
                matches PipelineState::Failed { error: e } && e == error,
    {
        match outcome {
            ProduceResult::Delivered { partition, offset } => {
                self.state = PipelineState::Delivered { partition, offset };
            },
            ProduceResult::Failed { error, original: _ } => {
                self.state = PipelineState::Failed { error };
            },
        }
    }
}

/// What one produce call came to while everything it needed was local.
pub enum ProduceOutcome {
    /// The schema id is not cached: this registry operation is needed
    /// first; nothing was encoded or queued.
    NeedRegistry(RegistryRequest),
    /// The request is in the outbound queue awaiting the broker.
    Queued,
    /// The call failed; the taxonomy error, with the built request when
    /// delivery rejected it.
    Rejected { error: ProduceError, original: Option<ProduceRequest> },
}

/// The composed facade: resolve from the cache, encode, and queue for
/// delivery, short-circuiting on the first failure. A cache miss asks for
/// the registry operation instead; a non-conforming record is rejected
/// before delivery is ever involved; a full queue rejects with QueueFull
/// and the built request attached.
pub fn produce(
    resolver: &Resolver,
    client: &mut DeliveryClient,
    identity: &SchemaIdentity,
    schema: &RecordSchema,
    record: &RecordValue,
    topic: Vec<u8>,
    key: Option<Vec<u8>>,
    partition: Option<i32>,
) -> (r: ProduceOutcome)
    requires
        old(client).wf(),
    ensures
        final(client).wf(),
        final(client).capacity == old(client).capacity,
        ({
            let subj = identity_subject(identity@);
            let dockey = identity@.document;
            match r {
                ProduceOutcome::NeedRegistry(req) => {
                    &&& cache_lookup(resolver@, subj, dockey) is None
                    &&& final(client).queue@ == old(client).queue@
                    &&& match req {
                        RegistryRequest::Lookup { subject } => subject@ == subj && dockey is None,
                        RegistryRequest::Register { subject, document } => subject@ == subj
                            && dockey == Some(document@),
                    }
                },
                ProduceOutcome::Queued => {
                    &&& cache_lookup(resolver@, subj, dockey) is Some
                    &&& record_conforms(schema@, record@)
                    &&& old(client).queue@.len() < old(client).capacity
                    &&& final(client).queue@.len() == old(client).queue@.len() + 1
                    &&& final(client).queue@ == old(client).queue@.push(
                        final(client).queue@.last(),
                    )
                    &&& final(client).queue@.last().payload@ == wire_bytes(
                        cache_lookup(resolver@, subj, dockey)->Some_0,
                        enc_body(record@),
                    )
                    &&& final(client).queue@.last().topic@ == topic@
                },
                ProduceOutcome::Rejected { error, original } => {
                    &&& final(client).queue@ == old(client).queue@
                    &&& match error {
                        ProduceError::Encoding { path } => {
                            &&& cache_lookup(resolver@, subj, dockey) is Some
                            &&& !record_conforms(schema@, record@)
                            &&& body_fault(schema@, record@) == Some(path@)
                            &&& original is None
                        },
                        ProduceError::QueueFull => {
                            &&& cache_lookup(resolver@, subj, dockey) is Some
                            &&& record_conforms(schema@, record@)
                            &&& old(client).queue@.len() == old(client).capacity
                            &&& original matches Some(req) && req.payload@ == wire_bytes(
                                cache_lookup(resolver@, subj, dockey)->Some_0,
                                enc_body(record@),
                            )
                        },
                        _ => false,
                    }
                },
            }
        }),
{
    let mut call = ProduceCall::new();
    match call.begin(resolver, identity) {
        Some(request) => ProduceOutcome::NeedRegistry(request),
        None => {
            match call.encode_step(schema, record, topic, key, partition) {
                None => {
                    let error = match call.state {
                        PipelineState::Failed { error } => error,
                        _ => unreached(),
                    };
                    ProduceOutcome::Rejected { error, original: None }
                },
                Some(req) => {
                    match call.submit(client, req) {
                        None => ProduceOutcome::Queued,
                        Some(original) => ProduceOutcome::Rejected {
                            error: ProduceError::QueueFull,
                            original: Some(original),
                        },
                    }
                },
            }
        },
    }
}

} // verus!
