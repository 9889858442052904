//! The wire encoder: validate a record against its schema, serialize it
//! into the binary body, and prefix the five-byte wire header carrying the
//! resolved schema id. Non-conforming records are rejected with the path
//! of the first fault, never encoded with substitutes.

use vstd::prelude::*;

use crate::codec::{enc_body, encode_body, lemma_conforms_implies_ok, record_conforms};
use crate::registry::ResolvedSchema;
use crate::schema::RecordSchema;
use crate::validate::{body_fault, validate_record, FieldPath};
use crate::value::RecordValue;
use crate::wire::{make_payload, wire_bytes, EncodedPayload};

verus! {

/// Encode a record against the schema a resolution stands for. Succeeds
/// exactly on conforming records, and then produces the wire form of the
/// resolved schema id over the record's binary body; otherwise reports
/// the first fault's field path.
pub fn encode(resolved: &ResolvedSchema, schema: &RecordSchema, record: &RecordValue) -> (r:
    Result<EncodedPayload, FieldPath>)
    ensures
        r is Ok <==> record_conforms(schema@, record@),
        r matches Ok(p) ==> {
            &&& p@ == wire_bytes(resolved.schema_id, enc_body(record@))
            &&& p.wf()
            &&& p@.len() >= 5
            &&& p.spec_schema_id() == resolved.schema_id
            &&& p.spec_body() == enc_body(record@)
        },
        r matches Err(path) ==> body_fault(schema@, record@) == Some(path@),
{
    match validate_record(schema, record) {
        Err(path) => Err(path),
        Ok(()) => {
            proof {
                lemma_conforms_implies_ok(schema@, record@);
            }
            let body = encode_body(record);
            Ok(make_payload(resolved.schema_id, body))
        },
    }
}

} // verus!
