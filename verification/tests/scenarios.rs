//! End-to-end scenarios through the pipeline facade: a successful produce
//! against a registered schema, and an encoding failure that never reaches
//! delivery.

use record_producer::delivery::{DeliveryClient, ProduceResult};
use record_producer::error::ProduceError;
use record_producer::pipeline::{
    produce, PipelineState, ProduceCall, ProduceOutcome, RegistryReply, RegistryRequest,
};
use record_producer::registry::{SchemaIdentity, SubjectStrategy};
use record_producer::schema::{
    FieldType, InnerField, InnerSchema, PrimType, RecordSchema, SchemaField,
};
use record_producer::value::{
    FieldValue, InnerEntry, InnerRecord, PrimValue, RecordEntry, RecordValue,
};

fn bytes(s: &str) -> Vec<u8> {
    s.as_bytes().to_vec()
}

fn raw_schema_document() -> Vec<u8> {
    bytes(
        "{\"namespace\":\"com.rusty.test\",\"type\":\"record\",\"name\":\"teamorganization\"}",
    )
}

fn team_schema() -> RecordSchema {
    RecordSchema {
        name: bytes("teamorganization"),
        fields: vec![
            SchemaField {
                name: bytes("founder"),
                ty: FieldType::Prim(PrimType::PString),
            },
            SchemaField {
                name: bytes("co_founder"),
                ty: FieldType::Prim(PrimType::PString),
            },
            SchemaField {
                name: bytes("employees"),
                ty: FieldType::RecordArray(InnerSchema {
                    fields: vec![
                        InnerField {
                            name: bytes("firstName"),
                            ty: PrimType::PString,
                        },
                        InnerField {
                            name: bytes("lastName"),
                            ty: PrimType::PString,
                        },
                        InnerField {
                            name: bytes("age"),
                            ty: PrimType::PInt,
                        },
                        InnerField {
                            name: bytes("employee_id"),
                            ty: PrimType::PLong,
                        },
                    ],
                }),
            },
        ],
    }
}

fn employee(first: &str, last: &str, age: i32, id: Option<i64>) -> InnerRecord {
    let mut entries = vec![
        InnerEntry {
            name: bytes("firstName"),
            value: PrimValue::VString(bytes(first)),
        },
        InnerEntry {
            name: bytes("lastName"),
            value: PrimValue::VString(bytes(last)),
        },
        InnerEntry {
            name: bytes("age"),
            value: PrimValue::VInt(age),
        },
    ];
    if let Some(id) = id {
        entries.push(InnerEntry {
            name: bytes("employee_id"),
            value: PrimValue::VLong(id),
        });
    }
    InnerRecord { entries }
}

fn team_record(employees: Vec<InnerRecord>) -> RecordValue {
    RecordValue {
        entries: vec![
            RecordEntry {
                name: bytes("founder"),
                value: FieldValue::Prim(PrimValue::VString(bytes("Brian"))),
            },
            RecordEntry {
                name: bytes("co_founder"),
                value: FieldValue::Prim(PrimValue::VString(bytes("Mary"))),
            },
            RecordEntry {
                name: bytes("employees"),
                value: FieldValue::RecordArray(employees),
            },
        ],
    }
}

fn full_team() -> Vec<InnerRecord> {
    vec![
        employee("Mary", "X", 52, Some(234321534)),
        employee("Ron", "P", 23, Some(341523413)),
        employee("Rachelle", "W", 45, Some(122334234)),
        employee("Alexa", "T", 31, Some(656343463)),
    ]
}

fn identity() -> SchemaIdentity {
    SchemaIdentity {
        strategy: SubjectStrategy::TopicName {
            topic: bytes("teamorganization"),
        },
        document: Some(raw_schema_document()),
    }
}

/// Run one produce call to completion against a simulated registry and
/// broker, returning the result the caller sees.
fn run_call(
    resolver: &mut record_producer::registry::Resolver,
    client: &mut DeliveryClient,
    schema: &RecordSchema,
    record: &RecordValue,
    registry_id: u32,
    partition: i32,
    offset: i64,
) -> ProduceResult {
    let mut call = ProduceCall::new();
    if let Some(request) = call.begin(resolver, &identity()) {
        // the registry registers the supplied document idempotently
        match request {
            RegistryRequest::Register { subject, .. } => {
                assert_eq!(subject, bytes("teamorganization-value"));
            }
            RegistryRequest::Lookup { .. } => panic!("a supplied document registers"),
        }
        call.registry_reply(resolver, &identity(), RegistryReply::Id(registry_id));
    }
    let req = match call.encode_step(schema, record, bytes("TEST1"), Some(bytes("key1")), None) {
        Some(req) => req,
        None => match call.state {
            PipelineState::Failed { error } => {
                return ProduceResult::Failed {
                    error,
                    original: None,
                }
            }
            _ => panic!("no request and no failure"),
        },
    };
    assert!(call.submit(client, req).is_none(), "queue has room");
    // the broker acknowledges the front of the queue
    let outcome = client.on_ack(partition, offset).expect("one message in flight");
    let result = match &outcome {
        ProduceResult::Delivered { partition, offset } => ProduceResult::Delivered {
            partition: *partition,
            offset: *offset,
        },
        _ => panic!("acknowledgment is a delivery"),
    };
    call.complete(outcome);
    assert!(matches!(call.state, PipelineState::Delivered { .. }));
    result
}

#[test]
fn produce_two_records_offsets_increase() {
    let mut resolver = record_producer::registry::Resolver::new();
    let mut client = DeliveryClient::new(10);
    let schema = team_schema();
    let record = team_record(full_team());
    let first = run_call(&mut resolver, &mut client, &schema, &record, 21, 0, 7);
    let second = run_call(&mut resolver, &mut client, &schema, &record, 21, 0, 8);
    match (first, second) {
        (
            ProduceResult::Delivered {
                partition: p1,
                offset: o1,
            },
            ProduceResult::Delivered {
                partition: p2,
                offset: o2,
            },
        ) => {
            assert!(p1 >= 0);
            assert_eq!(p1, p2);
            assert!(o2 > o1, "offsets on one partition increase");
        }
        _ => panic!("both sends succeed"),
    }
}

#[test]
fn encoding_failure_never_reaches_delivery() {
    let mut resolver = record_producer::registry::Resolver::new();
    let mut client = DeliveryClient::new(10);
    let schema = team_schema();
    // the second employee is missing employee_id
    let record = team_record(vec![
        employee("Mary", "X", 52, Some(234321534)),
        employee("Ron", "P", 23, None),
    ]);
    let result = run_call(&mut resolver, &mut client, &schema, &record, 21, 0, 7);
    match result {
        ProduceResult::Failed { error, original } => {
            assert!(original.is_none());
            match error {
                ProduceError::Encoding { path } => {
                    assert_eq!(path.field, bytes("employees"));
                    assert_eq!(path.index, Some(1));
                    assert_eq!(path.inner_field, Some(bytes("employee_id")));
                }
                _ => panic!("the failure is an encoding error"),
            }
        }
        _ => panic!("a non-conforming record must fail"),
    }
    // send was never invoked: nothing entered the outbound queue
    assert_eq!(client.pending(), 0);
}

#[test]
fn composed_facade_full_path() {
    let mut resolver = record_producer::registry::Resolver::new();
    let mut client = DeliveryClient::new(10);
    let schema = team_schema();
    let record = team_record(full_team());
    // cache miss: the facade names the registry operation, nothing queued
    match produce(
        &resolver,
        &mut client,
        &identity(),
        &schema,
        &record,
        bytes("TEST1"),
        None,
        None,
    ) {
        ProduceOutcome::NeedRegistry(RegistryRequest::Register { subject, document }) => {
            assert_eq!(subject, bytes("teamorganization-value"));
            assert_eq!(document, raw_schema_document());
        }
        _ => panic!("cache miss asks for registration"),
    }
    assert_eq!(client.pending(), 0);
    resolver.record_resolution(&identity(), 21);
    // cache hit: encoded and queued
    match produce(
        &resolver,
        &mut client,
        &identity(),
        &schema,
        &record,
        bytes("TEST1"),
        None,
        None,
    ) {
        ProduceOutcome::Queued => {}
        _ => panic!("resolved identity with conforming record queues"),
    }
    assert_eq!(client.pending(), 1);
}

#[test]
fn composed_facade_queue_full() {
    let mut resolver = record_producer::registry::Resolver::new();
    let mut client = DeliveryClient::new(1);
    let schema = team_schema();
    let record = team_record(full_team());
    resolver.record_resolution(&identity(), 21);
    match produce(
        &resolver,
        &mut client,
        &identity(),
        &schema,
        &record,
        bytes("TEST1"),
        None,
        None,
    ) {
        ProduceOutcome::Queued => {}
        _ => panic!("first send queues"),
    }
    match produce(
        &resolver,
        &mut client,
        &identity(),
        &schema,
        &record,
        bytes("TEST1"),
        None,
        None,
    ) {
        ProduceOutcome::Rejected { error, original } => {
            assert!(matches!(error, ProduceError::QueueFull));
            let original = original.expect("the built request comes back");
            assert_eq!(original.topic, bytes("TEST1"));
        }
        _ => panic!("full queue rejects with backpressure"),
    }
    assert_eq!(client.pending(), 1);
}
