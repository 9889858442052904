//! Wire-level and codec tests: exact bytes of the primitive encodings, the
//! wire header, validation faults, and the encode/decode round trip.

use record_producer::codec::{encode_body, encode_prim};
use record_producer::encoder::encode;
use record_producer::registry::ResolvedSchema;
use record_producer::decode::decode_body;
use record_producer::schema::{
    FieldType, InnerField, InnerSchema, PrimType, RecordSchema, SchemaField,
};
use record_producer::validate::validate_record;
use record_producer::value::{
    FieldValue, InnerEntry, InnerRecord, PrimValue, RecordEntry, RecordValue,
};
use record_producer::varint::{decode_varint, encode_varint, zigzag_decode, zigzag_encode};

fn bytes(s: &str) -> Vec<u8> {
    s.as_bytes().to_vec()
}

fn prim_field(name: &str, ty: PrimType) -> SchemaField {
    SchemaField {
        name: bytes(name),
        ty: FieldType::Prim(ty),
    }
}

fn employee_inner_schema() -> InnerSchema {
    InnerSchema {
        fields: vec![
            InnerField {
                name: bytes("firstName"),
                ty: PrimType::PString,
            },
            InnerField {
                name: bytes("lastName"),
                ty: PrimType::PString,
            },
            InnerField {
                name: bytes("age"),
                ty: PrimType::PInt,
            },
            InnerField {
                name: bytes("employee_id"),
                ty: PrimType::PLong,
            },
        ],
    }
}

fn team_schema() -> RecordSchema {
    RecordSchema {
        name: bytes("teamorganization"),
        fields: vec![
            prim_field("founder", PrimType::PString),
            prim_field("co_founder", PrimType::PString),
            SchemaField {
                name: bytes("employees"),
                ty: FieldType::RecordArray(employee_inner_schema()),
            },
        ],
    }
}

fn employee(first: &str, last: &str, age: i32, id: i64) -> InnerRecord {
    InnerRecord {
        entries: vec![
            InnerEntry {
                name: bytes("firstName"),
                value: PrimValue::VString(bytes(first)),
            },
            InnerEntry {
                name: bytes("lastName"),
                value: PrimValue::VString(bytes(last)),
            },
            InnerEntry {
                name: bytes("age"),
                value: PrimValue::VInt(age),
            },
            InnerEntry {
                name: bytes("employee_id"),
                value: PrimValue::VLong(id),
            },
        ],
    }
}

fn team_record(employees: Vec<InnerRecord>) -> RecordValue {
    RecordValue {
        entries: vec![
            RecordEntry {
                name: bytes("founder"),
                value: FieldValue::Prim(PrimValue::VString(bytes("Brian"))),
            },
            RecordEntry {
                name: bytes("co_founder"),
                value: FieldValue::Prim(PrimValue::VString(bytes("Mary"))),
            },
            RecordEntry {
                name: bytes("employees"),
                value: FieldValue::RecordArray(employees),
            },
        ],
    }
}

fn four_employees() -> Vec<InnerRecord> {
    vec![
        employee("Mary", "X", 52, 234321534),
        employee("Ron", "P", 23, 341523413),
        employee("Rachelle", "W", 45, 122334234),
        employee("Alexa", "T", 31, 656343463),
    ]
}

#[test]
fn zigzag_small_values() {
    assert_eq!(zigzag_encode(0), 0);
    assert_eq!(zigzag_encode(-1), 1);
    assert_eq!(zigzag_encode(1), 2);
    assert_eq!(zigzag_encode(-2), 3);
    assert_eq!(zigzag_encode(i64::MAX), u64::MAX - 1);
    assert_eq!(zigzag_encode(i64::MIN), u64::MAX);
    for x in [0i64, 1, -1, 63, -64, 64, i64::MAX, i64::MIN] {
        assert_eq!(zigzag_decode(zigzag_encode(x)), x);
    }
}

#[test]
fn varint_exact_bytes() {
    let mut out: Vec<u8> = Vec::new();
    encode_varint(1, &mut out);
    assert_eq!(out, vec![1u8]);
    let mut out: Vec<u8> = Vec::new();
    encode_varint(128, &mut out);
    assert_eq!(out, vec![0x80u8, 0x01]);
    let mut out: Vec<u8> = Vec::new();
    encode_varint(300, &mut out);
    assert_eq!(out, vec![0xACu8, 0x02]);
}

#[test]
fn varint_roundtrip_and_truncation() {
    let mut out: Vec<u8> = Vec::new();
    encode_varint(987654321, &mut out);
    let (v, next) = decode_varint(&out, 0).expect("decodes");
    assert_eq!(v, 987654321);
    assert_eq!(next, out.len());
    let truncated: Vec<u8> = out[..out.len() - 1].to_vec();
    assert!(decode_varint(&truncated, 0).is_none());
}

#[test]
fn string_primitive_exact_bytes() {
    let mut out: Vec<u8> = Vec::new();
    encode_prim(&PrimValue::VString(bytes("Brian")), &mut out);
    // length 5 zig-zags to 10, then the five UTF-8 bytes
    assert_eq!(out, vec![10u8, b'B', b'r', b'i', b'a', b'n']);
}

#[test]
fn int_primitive_exact_bytes() {
    let mut out: Vec<u8> = Vec::new();
    encode_prim(&PrimValue::VInt(52), &mut out);
    assert_eq!(out, vec![104u8]);
    let mut out: Vec<u8> = Vec::new();
    encode_prim(&PrimValue::VLong(-1), &mut out);
    assert_eq!(out, vec![1u8]);
}

#[test]
fn body_of_flat_record_is_concatenation() {
    let schema = RecordSchema {
        name: bytes("pair"),
        fields: vec![
            prim_field("a", PrimType::PString),
            prim_field("b", PrimType::PInt),
        ],
    };
    let record = RecordValue {
        entries: vec![
            RecordEntry {
                name: bytes("a"),
                value: FieldValue::Prim(PrimValue::VString(bytes("hi"))),
            },
            RecordEntry {
                name: bytes("b"),
                value: FieldValue::Prim(PrimValue::VInt(-3)),
            },
        ],
    };
    assert!(validate_record(&schema, &record).is_ok());
    let body = encode_body(&record);
    assert_eq!(body, vec![4u8, b'h', b'i', 5u8]);
}

#[test]
fn roundtrip_nested_record() {
    let schema = team_schema();
    let record = team_record(four_employees());
    assert!(validate_record(&schema, &record).is_ok());
    let body = encode_body(&record);
    let back = decode_body(&schema, &body).expect("body decodes under its schema");
    assert!(back == record);
}

#[test]
fn roundtrip_empty_array() {
    let schema = team_schema();
    let record = team_record(vec![]);
    assert!(validate_record(&schema, &record).is_ok());
    let body = encode_body(&record);
    let back = decode_body(&schema, &body).expect("body decodes under its schema");
    assert!(back == record);
}

#[test]
fn decode_rejects_trailing_bytes() {
    let schema = team_schema();
    let record = team_record(four_employees());
    let mut body = encode_body(&record);
    body.push(0);
    assert!(decode_body(&schema, &body).is_none());
}

#[test]
fn consumer_reads_header_then_decodes() {
    let schema = team_schema();
    let record = team_record(four_employees());
    let resolved = ResolvedSchema {
        schema_id: 42,
        subject: bytes("teamorganization-value"),
    };
    let payload = encode(&resolved, &schema, &record)
        .ok()
        .expect("conforming record encodes");
    // a consumer reads the five header bytes first, selects the schema by
    // id, and decodes the rest
    assert_eq!(payload.schema_id(), 42);
    assert_eq!(payload.bytes[0], 0);
    let body: Vec<u8> = payload.bytes[5..].to_vec();
    let back = decode_body(&schema, &body).expect("body decodes");
    assert!(back == record);
}

#[test]
fn missing_required_field_is_named() {
    let schema = team_schema();
    // founder is absent: the first schema field is missing
    let record = RecordValue {
        entries: vec![RecordEntry {
            name: bytes("co_founder"),
            value: FieldValue::Prim(PrimValue::VString(bytes("Mary"))),
        }],
    };
    let path = validate_record(&schema, &record).expect_err("must not conform");
    assert_eq!(path.field, bytes("founder"));
    assert_eq!(path.index, None);
    assert_eq!(path.inner_field, None);
}

#[test]
fn type_mismatch_is_named() {
    let schema = RecordSchema {
        name: bytes("one"),
        fields: vec![prim_field("n", PrimType::PInt)],
    };
    let record = RecordValue {
        entries: vec![RecordEntry {
            name: bytes("n"),
            value: FieldValue::Prim(PrimValue::VString(bytes("7"))),
        }],
    };
    let path = validate_record(&schema, &record).expect_err("string where int expected");
    assert_eq!(path.field, bytes("n"));
}

#[test]
fn fault_inside_array_names_item_and_inner_field() {
    let schema = team_schema();
    let mut employees = four_employees();
    employees[2].entries.remove(3); // drop employee_id of the third entry
    let record = team_record(employees);
    let path = validate_record(&schema, &record).expect_err("must not conform");
    assert_eq!(path.field, bytes("employees"));
    assert_eq!(path.index, Some(2));
    assert_eq!(path.inner_field, Some(bytes("employee_id")));
}
