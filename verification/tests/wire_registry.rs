//! Wire header, resolver cache, and delivery queue tests.

use record_producer::delivery::{DeliveryClient, ProduceRequest, ProduceResult};
use record_producer::error::ProduceError;
use record_producer::registry::{
    compute_subject, ResolveStep, Resolver, SchemaIdentity, SubjectStrategy,
};
use record_producer::wire::make_payload;

fn bytes(s: &str) -> Vec<u8> {
    s.as_bytes().to_vec()
}

fn request(topic: &str, tag: u32) -> ProduceRequest {
    ProduceRequest {
        topic: bytes(topic),
        key: None,
        payload: make_payload(tag, vec![]),
        partition: None,
        headers: None,
    }
}

#[test]
fn header_is_magic_and_big_endian_id() {
    let p = make_payload(0x01020304, vec![7, 8, 9]);
    assert_eq!(p.bytes, vec![0u8, 1, 2, 3, 4, 7, 8, 9]);
    assert_eq!(p.len(), 8);
    assert_eq!(p.schema_id(), 0x01020304);
}

#[test]
fn header_length_is_at_least_five() {
    let p = make_payload(42, vec![]);
    assert_eq!(p.bytes, vec![0u8, 0, 0, 0, 42]);
    assert!(p.len() >= 5);
}

#[test]
fn varying_id_changes_only_the_id_bytes() {
    let body = vec![1u8, 2, 3, 4, 5, 6];
    let a = make_payload(7, body.clone());
    let b = make_payload(0xFFFF_FFFF, body.clone());
    assert_eq!(a.bytes.len(), b.bytes.len());
    assert_eq!(a.bytes[0], b.bytes[0]);
    assert_eq!(&a.bytes[5..], &b.bytes[5..]);
    assert_ne!(&a.bytes[1..5], &b.bytes[1..5]);
}

#[test]
fn subjects_follow_the_strategy() {
    let s = compute_subject(&SubjectStrategy::TopicName {
        topic: bytes("teamorganization"),
    });
    assert_eq!(s, bytes("teamorganization-value"));
    let s = compute_subject(&SubjectStrategy::RecordName {
        record: bytes("teamorganization"),
    });
    assert_eq!(s, bytes("teamorganization"));
    let s = compute_subject(&SubjectStrategy::TopicRecordName {
        topic: bytes("TEST1"),
        record: bytes("teamorganization"),
    });
    assert_eq!(s, bytes("TEST1-teamorganization"));
}

#[test]
fn repeated_resolution_is_cached_and_identical() {
    let mut resolver = Resolver::new();
    let identity = SchemaIdentity {
        strategy: SubjectStrategy::TopicName {
            topic: bytes("teamorganization"),
        },
        document: Some(bytes("{\"type\":\"record\"}")),
    };
    // first resolution: the document must be registered
    let first = resolver.resolve_step(&identity);
    let (subject, document) = match first {
        ResolveStep::NeedRegister { subject, document } => (subject, document),
        _ => panic!("fresh cache must ask for registration"),
    };
    assert_eq!(subject, bytes("teamorganization-value"));
    assert_eq!(document, bytes("{\"type\":\"record\"}"));
    let resolved = resolver.record_resolution(&identity, 17);
    assert_eq!(resolved.schema_id, 17);
    // second and third resolutions: same id, straight from the cache
    for _ in 0..2 {
        match resolver.resolve_step(&identity) {
            ResolveStep::Resolved(r) => {
                assert_eq!(r.schema_id, 17);
                assert_eq!(r.subject, bytes("teamorganization-value"));
            }
            _ => panic!("identical identity must resolve from the cache"),
        }
    }
}

#[test]
fn different_document_is_a_different_key() {
    let mut resolver = Resolver::new();
    let identity = SchemaIdentity {
        strategy: SubjectStrategy::RecordName {
            record: bytes("team"),
        },
        document: Some(bytes("v1")),
    };
    resolver.record_resolution(&identity, 1);
    let changed = SchemaIdentity {
        strategy: SubjectStrategy::RecordName {
            record: bytes("team"),
        },
        document: Some(bytes("v2")),
    };
    match resolver.resolve_step(&changed) {
        ResolveStep::NeedRegister { .. } => {}
        _ => panic!("a structurally different document must go to the registry"),
    }
}

#[test]
fn invalidate_forgets_a_subject() {
    let mut resolver = Resolver::new();
    let identity = SchemaIdentity {
        strategy: SubjectStrategy::RecordName {
            record: bytes("team"),
        },
        document: None,
    };
    resolver.record_resolution(&identity, 9);
    match resolver.resolve_step(&identity) {
        ResolveStep::Resolved(r) => assert_eq!(r.schema_id, 9),
        _ => panic!("cached"),
    }
    resolver.invalidate(&bytes("team"));
    match resolver.resolve_step(&identity) {
        ResolveStep::NeedLookup { subject } => assert_eq!(subject, bytes("team")),
        _ => panic!("invalidated subject must go back to the registry"),
    }
}

#[test]
fn full_queue_fails_fast_and_keeps_the_message() {
    let mut client = DeliveryClient::new(2);
    assert!(client.try_enqueue(request("TEST1", 1)).is_ok());
    assert!(client.try_enqueue(request("TEST1", 2)).is_ok());
    assert_eq!(client.pending(), 2);
    let (error, original) = client
        .try_enqueue(request("TEST1", 3))
        .expect_err("queue at capacity must fail fast");
    assert!(matches!(error, ProduceError::QueueFull));
    // the message comes back untouched, not silently dropped
    assert_eq!(original.topic, bytes("TEST1"));
    assert_eq!(original.payload.schema_id(), 3);
    assert_eq!(client.pending(), 2);
    // space frees on acknowledgment, and the blocked message can be resent
    let _ = client.on_ack(0, 41);
    assert_eq!(client.pending(), 1);
    assert!(client.try_enqueue(original).is_ok());
    assert_eq!(client.pending(), 2);
}

#[test]
fn failed_delivery_returns_the_original_message() {
    let mut client = DeliveryClient::new(4);
    assert!(client.try_enqueue(request("TEST1", 5)).is_ok());
    match client.on_rejected(bytes("message too large")) {
        Some(ProduceResult::Failed { error, original }) => {
            assert!(matches!(error, ProduceError::BrokerRejected { .. }));
            let original = original.expect("original message attached");
            assert_eq!(original.payload.schema_id(), 5);
        }
        _ => panic!("rejection must surface a typed failure"),
    }
    assert!(client.try_enqueue(request("TEST1", 6)).is_ok());
    match client.on_timeout() {
        Some(ProduceResult::Failed { error, original }) => {
            assert!(matches!(error, ProduceError::DeliveryTimeout));
            assert_eq!(original.expect("attached").payload.schema_id(), 6);
        }
        _ => panic!("timeout must surface a typed failure"),
    }
    assert_eq!(client.pending(), 0);
    assert!(client.on_timeout().is_none());
}
