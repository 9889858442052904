//! The binary body encoding of a record and its inverse. The body is
//! positional: field values are written in schema definition order with no
//! name tags. Primitives are written as zig-zag varints (int, long) or as a
//! varint byte length followed by the bytes (string). An array is written as
//! one counted block of items followed by a zero count; an empty array is
//! the zero count alone.

use vstd::prelude::*;

use crate::schema::{FieldTypeV, InnerFieldV, PrimType, RecordSchemaV, SchemaFieldV};
use crate::value::{
    FieldValue, FieldValueV, InnerEntry, InnerEntryV, InnerRecord, InnerRecordV, PrimValue,
    PrimValueV, RecordEntry, RecordEntryV, RecordValue, RecordValueV,
};
use crate::varint::{
    decode_varint, encode_varint, parse_varint, unzigzag, varint, zigzag, zigzag_decode,
    zigzag_encode,
};

verus! {

/// A string's byte length must fit the signed 64-bit length prefix.
pub open spec fn prim_size_ok(v: PrimValueV) -> bool {
    match v {
        PrimValueV::VString(b) => b.len() <= i64::MAX,
        _ => true,
    }
}

/// Every primitive of a nested record is encodable.
pub open spec fn inner_record_ok(r: InnerRecordV) -> bool {
    forall|k: int| 0 <= k < r.entries.len() ==> prim_size_ok(#[trigger] r.entries[k].value)
}

/// A field value is encodable: sizes fit their signed 64-bit prefixes.
pub open spec fn field_ok(v: FieldValueV) -> bool {
    match v {
        FieldValueV::Prim(p) => prim_size_ok(p),
        FieldValueV::RecordArray(items) => items.len() <= i64::MAX && forall|m: int|
            0 <= m < items.len() ==> inner_record_ok(#[trigger] items[m]),
    }
}

/// Every field of a record is encodable.
pub open spec fn record_ok(r: RecordValueV) -> bool {
    forall|k: int| 0 <= k < r.entries.len() ==> field_ok(#[trigger] r.entries[k].value)
}

/// A primitive value has the primitive type the schema declares.
pub open spec fn prim_matches(v: PrimValueV, t: PrimType) -> bool {
    match t {
        PrimType::PString => v is VString,
        PrimType::PInt => v is VInt,
        PrimType::PLong => v is VLong,
    }
}

/// A nested record conforms to its schema: one entry per schema field, in
/// schema order, under the schema's name, of the declared type, encodable.
pub open spec fn inner_conforms(fields: Seq<InnerFieldV>, r: InnerRecordV) -> bool {
    &&& r.entries.len() == fields.len()
    &&& forall|k: int|
        0 <= k < fields.len() ==> {
            &&& (#[trigger] r.entries[k]).name == fields[k].name
            &&& prim_matches(r.entries[k].value, fields[k].ty)
            &&& prim_size_ok(r.entries[k].value)
        }
}

/// A top-level field value conforms to the declared field type.
pub open spec fn field_conforms(t: FieldTypeV, v: FieldValueV) -> bool {
    match t {
        FieldTypeV::Prim(pt) => match v {
            FieldValueV::Prim(pv) => prim_matches(pv, pt) && prim_size_ok(pv),
            _ => false,
        },
        FieldTypeV::RecordArray(isv) => match v {
            FieldValueV::RecordArray(items) => {
                &&& items.len() <= i64::MAX
                &&& forall|m: int|
                    0 <= m < items.len() ==> inner_conforms(isv.fields, #[trigger] items[m])
            },
            _ => false,
        },
    }
}

/// A record conforms to a schema: one entry per schema field, in schema
/// order, under the schema's name, with a conforming value.
pub open spec fn record_conforms(schema: RecordSchemaV, r: RecordValueV) -> bool {
    &&& r.entries.len() == schema.fields.len()
    &&& forall|k: int|
        0 <= k < schema.fields.len() ==> {
            &&& (#[trigger] r.entries[k]).name == schema.fields[k].name
            &&& field_conforms(schema.fields[k].ty, r.entries[k].value)
        }
}

/// Conformance includes every size bound encoding needs.
pub proof fn lemma_conforms_implies_ok(schema: RecordSchemaV, r: RecordValueV)
    requires
        record_conforms(schema, r),
    ensures
        record_ok(r),
{
    assert forall|k: int| 0 <= k < r.entries.len() implies field_ok(
        #[trigger] r.entries[k].value,
    ) by {
        assert(r.entries[k].name == schema.fields[k].name);
        assert(field_conforms(schema.fields[k].ty, r.entries[k].value));
        match schema.fields[k].ty {
            FieldTypeV::Prim(pt) => {},
            FieldTypeV::RecordArray(isv) => {
                match r.entries[k].value {
                    FieldValueV::RecordArray(items) => {
                        assert forall|m: int| 0 <= m < items.len() implies inner_record_ok(
                            #[trigger] items[m],
                        ) by {
                            assert(inner_conforms(isv.fields, items[m]));
                        }
                    },
                    _ => {},
                }
            },
        }
    }
}

/// The bytes of one primitive value.
pub open spec fn enc_prim(v: PrimValueV) -> Seq<u8> {
    match v {
        PrimValueV::VString(b) => varint(zigzag(b.len() as i64)) + b,
        PrimValueV::VInt(x) => varint(zigzag(x as i64)),
        PrimValueV::VLong(x) => varint(zigzag(x)),
    }
}

/// The bytes of a nested record: its primitives in order.
pub open spec fn enc_inner(entries: Seq<InnerEntryV>) -> Seq<u8>
    decreases entries.len(),
{
    if entries.len() == 0 {
        Seq::empty()
    } else {
        enc_prim(entries[0].value) + enc_inner(entries.skip(1))
    }
}

/// The bytes of consecutive array items.
pub open spec fn enc_items(items: Seq<InnerRecordV>) -> Seq<u8>
    decreases items.len(),
{
    if items.len() == 0 {
        Seq::empty()
    } else {
        enc_inner(items[0].entries) + enc_items(items.skip(1))
    }
}

/// The bytes of an array field: one counted block and a zero terminator,
/// or the zero count alone when the array is empty.
pub open spec fn enc_array(items: Seq<InnerRecordV>) -> Seq<u8> {
    if items.len() == 0 {
        varint(zigzag(0))
    } else {
        varint(zigzag(items.len() as i64)) + enc_items(items) + varint(zigzag(0))
    }
}

/// The bytes of one top-level field value.
pub open spec fn enc_field(v: FieldValueV) -> Seq<u8> {
    match v {
        FieldValueV::Prim(p) => enc_prim(p),
        FieldValueV::RecordArray(items) => enc_array(items),
    }
}

/// The bytes of consecutive top-level fields.
pub open spec fn enc_entries(entries: Seq<RecordEntryV>) -> Seq<u8>
    decreases entries.len(),
{
    if entries.len() == 0 {
        Seq::empty()
    } else {
        enc_field(entries[0].value) + enc_entries(entries.skip(1))
    }
}

/// The binary body of a whole record.
pub open spec fn enc_body(r: RecordValueV) -> Seq<u8> {
    enc_entries(r.entries)
}

/// Append a copy of b to out.
fn push_bytes(out: &mut Vec<u8>, b: &Vec<u8>)
    ensures
        final(out)@ == old(out)@ + b@,
{
    let mut k: usize = 0;
    while k < b.len()
        invariant
            k <= b@.len(),
            out@ == old(out)@ + b@.subrange(0, k as int),
        decreases b@.len() - k,
    {
        out.push(b[k]);
        k = k + 1;
        assert(out@ =~= old(out)@ + b@.subrange(0, k as int));
    }
    assert(b@.subrange(0, b@.len() as int) =~= b@);
}

/// An owned copy of b.
pub(crate) fn clone_bytes(b: &Vec<u8>) -> (r: Vec<u8>)
    ensures
        r@ == b@,
{
    let mut r: Vec<u8> = Vec::new();
    push_bytes(&mut r, b);
    r
}

/// An owned copy of b[from..to].
pub(crate) fn copy_range(b: &Vec<u8>, from: usize, to: usize) -> (r: Vec<u8>)
    requires
        from <= to <= b@.len(),
    ensures
        r@ == b@.subrange(from as int, to as int),
{
    let mut r: Vec<u8> = Vec::new();
    let mut k: usize = from;
    while k < to
        invariant
            from <= k <= to <= b@.len(),
            r@ == b@.subrange(from as int, k as int),
        decreases to - k,
    {
        r.push(b[k]);
        k = k + 1;
        assert(r@ =~= b@.subrange(from as int, k as int));
    }
    r
}

/// Append the encoding of one primitive value to out.
pub fn encode_prim(v: &PrimValue, out: &mut Vec<u8>)
    requires
        prim_size_ok(v@),
    ensures
        final(out)@ == old(out)@ + enc_prim(v@),
{
    match v {
        PrimValue::VString(b) => {
            let n: i64 = b.len() as i64;
            encode_varint(zigzag_encode(n), out);
            push_bytes(out, b);
            assert(final(out)@ =~= old(out)@ + enc_prim(v@));
        },
        PrimValue::VInt(x) => {
            encode_varint(zigzag_encode(*x as i64), out);
        },
        PrimValue::VLong(x) => {
            encode_varint(zigzag_encode(*x), out);
        },
    }
}

/// Append the encodings of r's primitives from position k on.
fn encode_inner_from(r: &InnerRecord, k: usize, out: &mut Vec<u8>)
    requires
        inner_record_ok(r@),
        k <= r@.entries.len(),
    ensures
        final(out)@ == old(out)@ + enc_inner(r@.entries.skip(k as int)),
    decreases r@.entries.len() - k,
{
    if k < r.entries.len() {
        assert(r@.entries[k as int] == r.entries@[k as int]@);
        assert(prim_size_ok(r@.entries[k as int].value));
        encode_prim(&r.entries[k].value, out);
        encode_inner_from(r, k + 1, out);
        proof {
            let es = r@.entries;
            assert(es.skip(k as int)[0] == es[k as int]);
            assert(es.skip(k as int).skip(1) =~= es.skip(k as int + 1));
            assert(final(out)@ =~= old(out)@ + enc_inner(es.skip(k as int)));
        }
    } else {
        assert(r@.entries.skip(k as int) =~= Seq::<InnerEntryV>::empty());
    }
}

/// Append the binary form of one nested record to out.
pub fn encode_inner_record(r: &InnerRecord, out: &mut Vec<u8>)
    requires
        inner_record_ok(r@),
    ensures
        final(out)@ == old(out)@ + enc_inner(r@.entries),
{
    encode_inner_from(r, 0, out);
    assert(r@.entries.skip(0) =~= r@.entries);
}

/// Append the encodings of the array items from position m on.
fn encode_items_from(items: &Vec<InnerRecord>, m: usize, out: &mut Vec<u8>)
    requires
        m <= items@.len(),
        forall|j: int| 0 <= j < items@.len() ==> inner_record_ok(#[trigger] items@[j]@),
    ensures
        final(out)@ == old(out)@ + enc_items(
            items@.map_values(|r: InnerRecord| r@).skip(m as int),
        ),
    decreases items@.len() - m,
{
    let ghost views = items@.map_values(|r: InnerRecord| r@);
    if m < items.len() {
        encode_inner_record(&items[m], out);
        encode_items_from(items, m + 1, out);
        proof {
            assert(views.skip(m as int)[0] == views[m as int]);
            assert(views.skip(m as int).skip(1) =~= views.skip(m as int + 1));
            assert(final(out)@ =~= old(out)@ + enc_items(views.skip(m as int)));
        }
    } else {
        assert(views.skip(m as int) =~= Seq::<InnerRecordV>::empty());
    }
}

/// Append the encoding of an array field to out.
pub fn encode_array(items: &Vec<InnerRecord>, out: &mut Vec<u8>)
    requires
        items@.len() <= i64::MAX,
        forall|j: int| 0 <= j < items@.len() ==> inner_record_ok(#[trigger] items@[j]@),
    ensures
        final(out)@ == old(out)@ + enc_array(items@.map_values(|r: InnerRecord| r@)),
    decreases items@.len(),
{
    let ghost views = items@.map_values(|r: InnerRecord| r@);
    if items.len() == 0 {
        encode_varint(zigzag_encode(0), out);
    } else {
        encode_varint(zigzag_encode(items.len() as i64), out);
        encode_items_from(items, 0, out);
        encode_varint(zigzag_encode(0), out);
        proof {
            assert(views.skip(0) =~= views);
            assert(final(out)@ =~= old(out)@ + enc_array(views));
        }
    }
}

/// Append the encoding of one top-level field value to out.
pub fn encode_field(v: &FieldValue, out: &mut Vec<u8>)
    requires
        field_ok(v@),
    ensures
        final(out)@ == old(out)@ + enc_field(v@),
{
    match v {
        FieldValue::Prim(p) => encode_prim(p, out),
        FieldValue::RecordArray(items) => {
            proof {
                let views = items@.map_values(|r: InnerRecord| r@);
                assert forall|j: int| 0 <= j < items@.len() implies inner_record_ok(
                    #[trigger] items@[j]@,
                ) by {
                    assert(views[j] == items@[j]@);
                }
            }
            encode_array(items, out);
        },
    }
}

/// Append the encodings of r's fields from position k on.
fn encode_entries_from(r: &RecordValue, k: usize, out: &mut Vec<u8>)
    requires
        record_ok(r@),
        k <= r@.entries.len(),
    ensures
        final(out)@ == old(out)@ + enc_entries(r@.entries.skip(k as int)),
    decreases r@.entries.len() - k,
{
    if k < r.entries.len() {
        assert(r@.entries[k as int] == r.entries@[k as int]@);
        assert(field_ok(r@.entries[k as int].value));
        encode_field(&r.entries[k].value, out);
        encode_entries_from(r, k + 1, out);
        proof {
            let es = r@.entries;
            assert(es.skip(k as int)[0] == es[k as int]);
            assert(es.skip(k as int).skip(1) =~= es.skip(k as int + 1));
            assert(final(out)@ =~= old(out)@ + enc_entries(es.skip(k as int)));
        }
    } else {
        assert(r@.entries.skip(k as int) =~= Seq::<RecordEntryV>::empty());
    }
}

/// The binary body of a record: its field values in order, no name tags.
pub fn encode_body(r: &RecordValue) -> (out: Vec<u8>)
    requires
        record_ok(r@),
    ensures
        out@ == enc_body(r@),
{
    let mut out: Vec<u8> = Vec::new();
    encode_entries_from(r, 0, &mut out);
    assert(r@.entries.skip(0) =~= r@.entries);
    out
}

} // verus!
