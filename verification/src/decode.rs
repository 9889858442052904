//! The inverse of the body encoding: schema-directed parsing of body bytes
//! back into a structured record, and the proof that parsing inverts
//! encoding. A consumer that has read the wire header and selected the
//! schema decodes the remaining bytes with these functions.

use vstd::prelude::*;

use crate::codec::{
    copy_range, enc_array, enc_body, enc_entries, enc_field, enc_inner, enc_items, enc_prim,
    field_conforms, inner_conforms, prim_matches, prim_size_ok, record_conforms,
};
use crate::schema::{
    FieldType, FieldTypeV, InnerField, InnerFieldV, InnerSchema, PrimType,
    RecordSchema, RecordSchemaV, SchemaField, SchemaFieldV,
};
use crate::value::{
    FieldValue, FieldValueV, InnerEntry, InnerEntryV, InnerRecord, InnerRecordV, PrimValue,
    PrimValueV, RecordEntry, RecordEntryV, RecordValue, RecordValueV,
};
use crate::varint::{
    decode_varint, lemma_parse_varint_bounds, lemma_parse_varint_of_encoding,
    lemma_zigzag_roundtrip, parse_varint, unzigzag, varint, zigzag, zigzag_decode,
};

verus! {

/// Parse one primitive of type t from s at index i.
pub open spec fn parse_prim(t: PrimType, s: Seq<u8>, i: int) -> Option<(PrimValueV, int)> {
    match parse_varint(s, i) {
        None => None,
        Some((n, j)) => match t {
            PrimType::PString => {
                let len = unzigzag(n) as int;
                if len < 0 || j + len > s.len() {
                    None
                } else {
                    Some((PrimValueV::VString(s.subrange(j, j + len)), j + len))
                }
            },
            PrimType::PInt => {
                if unzigzag(n) < i32::MIN || unzigzag(n) > i32::MAX {
                    None
                } else {
                    Some((PrimValueV::VInt(unzigzag(n) as i32), j))
                }
            },
            PrimType::PLong => Some((PrimValueV::VLong(unzigzag(n)), j)),
        },
    }
}

/// Parse the primitives of a nested record, fields[fi..] in order.
pub open spec fn parse_inner_fields(fields: Seq<InnerFieldV>, s: Seq<u8>, i: int) -> Option<
    (Seq<InnerEntryV>, int),
>
    decreases fields.len(),
{
    if fields.len() == 0 {
        Some((Seq::empty(), i))
    } else {
        match parse_prim(fields[0].ty, s, i) {
            None => None,
            Some((v, j)) => match parse_inner_fields(fields.skip(1), s, j) {
                None => None,
                Some((rest, k)) => Some(
                    (seq![InnerEntryV { name: fields[0].name, value: v }] + rest, k),
                ),
            },
        }
    }
}

/// Parse count consecutive array items.
pub open spec fn parse_items(fields: Seq<InnerFieldV>, s: Seq<u8>, i: int, count: int) -> Option<
    (Seq<InnerRecordV>, int),
>
    decreases count,
{
    if count <= 0 {
        Some((Seq::empty(), i))
    } else {
        match parse_inner_fields(fields, s, i) {
            None => None,
            Some((entries, j)) => match parse_items(fields, s, j, count - 1) {
                None => None,
                Some((rest, k)) => Some((seq![InnerRecordV { entries }] + rest, k)),
            },
        }
    }
}

/// Parse an array field: one non-negative counted block of items followed
/// by a zero count, or the zero count alone.
pub open spec fn parse_array(fields: Seq<InnerFieldV>, s: Seq<u8>, i: int) -> Option<
    (Seq<InnerRecordV>, int),
> {
    match parse_varint(s, i) {
        None => None,
        Some((n, j)) => {
            let c = unzigzag(n) as int;
            if c < 0 {
                None
            } else if c == 0 {
                Some((Seq::empty(), j))
            } else {
                match parse_items(fields, s, j, c) {
                    None => None,
                    Some((items, k)) => match parse_varint(s, k) {
                        None => None,
                        Some((z, l)) => if unzigzag(z) == 0 {
                            Some((items, l))
                        } else {
                            None
                        },
                    },
                }
            }
        },
    }
}

/// Parse one top-level field value of the declared type.
pub open spec fn parse_field(t: FieldTypeV, s: Seq<u8>, i: int) -> Option<(FieldValueV, int)> {
    match t {
        FieldTypeV::Prim(pt) => match parse_prim(pt, s, i) {
            None => None,
            Some((v, j)) => Some((FieldValueV::Prim(v), j)),
        },
        FieldTypeV::RecordArray(isv) => match parse_array(isv.fields, s, i) {
            None => None,
            Some((items, j)) => Some((FieldValueV::RecordArray(items), j)),
        },
    }
}

/// Parse the top-level fields in order.
pub open spec fn parse_record_fields(fields: Seq<SchemaFieldV>, s: Seq<u8>, i: int) -> Option<
    (Seq<RecordEntryV>, int),
>
    decreases fields.len(),
{
    if fields.len() == 0 {
        Some((Seq::empty(), i))
    } else {
        match parse_field(fields[0].ty, s, i) {
            None => None,
            Some((v, j)) => match parse_record_fields(fields.skip(1), s, j) {
                None => None,
                Some((rest, k)) => Some(
                    (seq![RecordEntryV { name: fields[0].name, value: v }] + rest, k),
                ),
            },
        }
    }
}

/// Parse a whole body: all fields, consuming every byte.
pub open spec fn parse_body(schema: RecordSchemaV, s: Seq<u8>) -> Option<RecordValueV> {
    match parse_record_fields(schema.fields, s, 0) {
        None => None,
        Some((entries, j)) => if j == s.len() {
            Some(RecordValueV { entries })
        } else {
            None
        },
    }
}

/// A subrange equal to a concatenation splits into subranges equal to the
/// two parts.
proof fn lemma_subrange_split(s: Seq<u8>, i: int, a: Seq<u8>, b: Seq<u8>)
    requires
        0 <= i,
        i + a.len() + b.len() <= s.len(),
        s.subrange(i, i + a.len() + b.len()) == a + b,
    ensures
        s.subrange(i, i + a.len() as int) == a,
        s.subrange(i + a.len() as int, i + a.len() + b.len()) == b,
{
    let whole = s.subrange(i, i + a.len() + b.len());
    assert forall|k: int| 0 <= k < a.len() implies s.subrange(i, i + a.len() as int)[k] == a[k] by {
        assert(whole[k] == (a + b)[k]);
    }
    assert(s.subrange(i, i + a.len() as int) =~= a);
    assert forall|k: int| 0 <= k < b.len() implies s.subrange(
        i + a.len() as int,
        i + a.len() + b.len(),
    )[k] == b[k] by {
        assert(whole[a.len() + k] == (a + b)[a.len() + k]);
    }
    assert(s.subrange(i + a.len() as int, i + a.len() + b.len()) =~= b);
}

/// Parsing at the encoding of a conforming primitive yields that primitive.
proof fn lemma_parse_prim_of_encoding(t: PrimType, v: PrimValueV, s: Seq<u8>, i: int)
    requires
        prim_matches(v, t),
        prim_size_ok(v),
        0 <= i,
        i + enc_prim(v).len() <= s.len(),
        s.subrange(i, i + enc_prim(v).len() as int) == enc_prim(v),
    ensures
        parse_prim(t, s, i) == Some((v, i + enc_prim(v).len() as int)),
{
    match v {
        PrimValueV::VString(b) => {
            let lenv: i64 = b.len() as i64;
            let head = varint(zigzag(lenv));
            lemma_subrange_split(s, i, head, b);
            lemma_parse_varint_of_encoding(s, i, zigzag(lenv));
            lemma_zigzag_roundtrip(lenv);
            let j = i + head.len() as int;
            assert(s.subrange(j, j + b.len() as int) == b);
        },
        PrimValueV::VInt(x) => {
            assert(s.subrange(i, i + enc_prim(v).len() as int) == varint(zigzag(x as i64)));
            lemma_parse_varint_of_encoding(s, i, zigzag(x as i64));
            lemma_zigzag_roundtrip(x as i64);
        },
        PrimValueV::VLong(x) => {
            lemma_parse_varint_of_encoding(s, i, zigzag(x));
            lemma_zigzag_roundtrip(x);
        },
    }
}

/// Parsing at the encoding of a conforming nested record yields exactly its
/// entries.
proof fn lemma_parse_inner_of_encoding(
    fields: Seq<InnerFieldV>,
    entries: Seq<InnerEntryV>,
    s: Seq<u8>,
    i: int,
)
    requires
        inner_conforms(fields, InnerRecordV { entries }),
        0 <= i,
        i + enc_inner(entries).len() <= s.len(),
        s.subrange(i, i + enc_inner(entries).len() as int) == enc_inner(entries),
    ensures
        parse_inner_fields(fields, s, i) == Some((entries, i + enc_inner(entries).len() as int)),
    decreases fields.len(),
{
    if fields.len() == 0 {
        assert(entries =~= Seq::<InnerEntryV>::empty());
    } else {
        let head = enc_prim(entries[0].value);
        let tail = enc_inner(entries.skip(1));
        assert(enc_inner(entries) == head + tail);
        lemma_subrange_split(s, i, head, tail);
        assert(prim_matches(entries[0].value, fields[0].ty) && prim_size_ok(entries[0].value));
        lemma_parse_prim_of_encoding(fields[0].ty, entries[0].value, s, i);
        let j = i + head.len() as int;
        assert(inner_conforms(fields.skip(1), InnerRecordV { entries: entries.skip(1) })) by {
            assert forall|k: int| 0 <= k < fields.skip(1).len() implies {
                &&& (#[trigger] entries.skip(1)[k]).name == fields.skip(1)[k].name
                &&& prim_matches(entries.skip(1)[k].value, fields.skip(1)[k].ty)
                &&& prim_size_ok(entries.skip(1)[k].value)
            } by {
                assert(entries.skip(1)[k] == entries[k + 1]);
                assert(fields.skip(1)[k] == fields[k + 1]);
                assert(entries[k + 1].name == fields[k + 1].name);
            }
        };
        lemma_parse_inner_of_encoding(fields.skip(1), entries.skip(1), s, j);
        assert(seq![InnerEntryV { name: fields[0].name, value: entries[0].value }] + entries.skip(1)
            =~= entries);
    }
}

/// Parsing at the encoding of conforming items yields exactly those items.
proof fn lemma_parse_items_of_encoding(
    fields: Seq<InnerFieldV>,
    items: Seq<InnerRecordV>,
    s: Seq<u8>,
    i: int,
)
    requires
        forall|m: int| 0 <= m < items.len() ==> inner_conforms(fields, #[trigger] items[m]),
        0 <= i,
        i + enc_items(items).len() <= s.len(),
        s.subrange(i, i + enc_items(items).len() as int) == enc_items(items),
    ensures
        parse_items(fields, s, i, items.len() as int) == Some(
            (items, i + enc_items(items).len() as int),
        ),
    decreases items.len(),
{
    if items.len() == 0 {
    } else {
        let head = enc_inner(items[0].entries);
        let tail = enc_items(items.skip(1));
        assert(enc_items(items) == head + tail);
        lemma_subrange_split(s, i, head, tail);
        assert(inner_conforms(fields, items[0]));
        assert(items[0] == InnerRecordV { entries: items[0].entries });
        lemma_parse_inner_of_encoding(fields, items[0].entries, s, i);
        let j = i + head.len() as int;
        assert(forall|m: int|
            0 <= m < items.skip(1).len() ==> inner_conforms(fields, #[trigger] items.skip(1)[m]));
        lemma_parse_items_of_encoding(fields, items.skip(1), s, j);
        assert(seq![InnerRecordV { entries: items[0].entries }] + items.skip(1) =~= items);
    }
}

/// Parsing at the encoding of a conforming array yields exactly its items.
proof fn lemma_parse_array_of_encoding(
    fields: Seq<InnerFieldV>,
    items: Seq<InnerRecordV>,
    s: Seq<u8>,
    i: int,
)
    requires
        items.len() <= i64::MAX,
        forall|m: int| 0 <= m < items.len() ==> inner_conforms(fields, #[trigger] items[m]),
        0 <= i,
        i + enc_array(items).len() <= s.len(),
        s.subrange(i, i + enc_array(items).len() as int) == enc_array(items),
    ensures
        parse_array(fields, s, i) == Some((items, i + enc_array(items).len() as int)),
{
    lemma_zigzag_roundtrip(0);
    if items.len() == 0 {
        lemma_parse_varint_of_encoding(s, i, zigzag(0));
    } else {
        let countv: i64 = items.len() as i64;
        let head = varint(zigzag(countv));
        let mid = enc_items(items);
        let zero = varint(zigzag(0));
        assert(enc_array(items) == head + mid + zero);
        assert(head + mid + zero =~= head + (mid + zero));
        lemma_subrange_split(s, i, head, mid + zero);
        lemma_parse_varint_of_encoding(s, i, zigzag(countv));
        lemma_zigzag_roundtrip(countv);
        let j = i + head.len() as int;
        lemma_subrange_split(s, j, mid, zero);
        lemma_parse_items_of_encoding(fields, items, s, j);
        let k = j + mid.len() as int;
        lemma_parse_varint_of_encoding(s, k, zigzag(0));
    }
}

/// Parsing at the encoding of a conforming field value yields that value.
proof fn lemma_parse_field_of_encoding(t: FieldTypeV, v: FieldValueV, s: Seq<u8>, i: int)
    requires
        field_conforms(t, v),
        0 <= i,
        i + enc_field(v).len() <= s.len(),
        s.subrange(i, i + enc_field(v).len() as int) == enc_field(v),
    ensures
        parse_field(t, s, i) == Some((v, i + enc_field(v).len() as int)),
{
    match t {
        FieldTypeV::Prim(pt) => match v {
            FieldValueV::Prim(pv) => {
                lemma_parse_prim_of_encoding(pt, pv, s, i);
            },
            _ => {},
        },
        FieldTypeV::RecordArray(isv) => match v {
            FieldValueV::RecordArray(items) => {
                lemma_parse_array_of_encoding(isv.fields, items, s, i);
            },
            _ => {},
        },
    }
}

/// Parsing at the encoding of a conforming record yields exactly its
/// entries.
proof fn lemma_parse_record_fields_of_encoding(
    fields: Seq<SchemaFieldV>,
    entries: Seq<RecordEntryV>,
    s: Seq<u8>,
    i: int,
)
    requires
        entries.len() == fields.len(),
        forall|k: int|
            0 <= k < fields.len() ==> {
                &&& (#[trigger] entries[k]).name == fields[k].name
                &&& field_conforms(fields[k].ty, entries[k].value)
            },
        0 <= i,
        i + enc_entries(entries).len() <= s.len(),
        s.subrange(i, i + enc_entries(entries).len() as int) == enc_entries(entries),
    ensures
        parse_record_fields(fields, s, i) == Some(
            (entries, i + enc_entries(entries).len() as int),
        ),
    decreases fields.len(),
{
    if fields.len() == 0 {
        assert(entries =~= Seq::<RecordEntryV>::empty());
    } else {
        let head = enc_field(entries[0].value);
        let tail = enc_entries(entries.skip(1));
        assert(enc_entries(entries) == head + tail);
        lemma_subrange_split(s, i, head, tail);
        lemma_parse_field_of_encoding(fields[0].ty, entries[0].value, s, i);
        let j = i + head.len() as int;
        assert forall|k: int| 0 <= k < fields.skip(1).len() implies {
            &&& (#[trigger] entries.skip(1)[k]).name == fields.skip(1)[k].name
            &&& field_conforms(fields.skip(1)[k].ty, entries.skip(1)[k].value)
        } by {
            assert(entries.skip(1)[k] == entries[k + 1]);
            assert(fields.skip(1)[k] == fields[k + 1]);
            assert(entries[k + 1].name == fields[k + 1].name);
        }
        lemma_parse_record_fields_of_encoding(fields.skip(1), entries.skip(1), s, j);
        assert(seq![RecordEntryV { name: fields[0].name, value: entries[0].value }] + entries.skip(
            1,
        ) =~= entries);
    }
}

/// Read one primitive of type t from bytes at index i.
pub fn decode_prim(t: PrimType, bytes: &Vec<u8>, i: usize) -> (r: Option<(PrimValue, usize)>)
    ensures
        match r {
            None => parse_prim(t, bytes@, i as int) is None,
            Some((v, j)) => parse_prim(t, bytes@, i as int) == Some((v@, j as int)),
        },
{
    match decode_varint(bytes, i) {
        None => None,
        Some((n, j)) => {
            proof {
                lemma_parse_varint_bounds(bytes@, i as int);
            }
            match t {
                PrimType::PString => {
                    let len: i64 = zigzag_decode(n);
                    if len < 0 {
                        None
                    } else {
                        let remaining: usize = bytes.len() - j;
                        if (len as u64) > (remaining as u64) {
                            None
                        } else {
                            let l: usize = len as usize;
                            let b = copy_range(bytes, j, j + l);
                            Some((PrimValue::VString(b), j + l))
                        }
                    }
                },
                PrimType::PInt => {
                    let x: i64 = zigzag_decode(n);
                    if x < (i32::MIN as i64) || x > (i32::MAX as i64) {
                        None
                    } else {
                        Some((PrimValue::VInt(x as i32), j))
                    }
                },
                PrimType::PLong => Some((PrimValue::VLong(zigzag_decode(n)), j)),
            }
        },
    }
}

/// Read the primitives of a nested record, schema fields fi.. in order.
fn decode_inner_from(fields: &Vec<InnerField>, fi: usize, bytes: &Vec<u8>, i: usize) -> (r: Option<
    (Vec<InnerEntry>, usize),
>)
    requires
        fi <= fields@.len(),
    ensures
        ({
            let fv = fields@.map_values(|f: InnerField| f@).skip(fi as int);
            match r {
                None => parse_inner_fields(fv, bytes@, i as int) is None,
                Some((es, j)) => parse_inner_fields(fv, bytes@, i as int) == Some(
                    (es@.map_values(|e: InnerEntry| e@), j as int),
                ),
            }
        }),
    decreases fields@.len() - fi,
{
    let ghost fv = fields@.map_values(|f: InnerField| f@).skip(fi as int);
    if fi == fields.len() {
        let es: Vec<InnerEntry> = Vec::new();
        assert(fv =~= Seq::<InnerFieldV>::empty());
        assert(es@.map_values(|e: InnerEntry| e@) =~= Seq::<InnerEntryV>::empty());
        return Some((es, i));
    }
    assert(fv[0] == fields@[fi as int]@);
    match decode_prim(fields[fi].ty, bytes, i) {
        None => None,
        Some((v, j)) => {
            match decode_inner_from(fields, fi + 1, bytes, j) {
                None => {
                    proof {
                        assert(fields@.map_values(|f: InnerField| f@).skip(fi as int + 1)
                            =~= fv.skip(1));
                    }
                    None
                },
                Some((rest, k)) => {
                    let ghost old_rest = rest@;
                    let mut rest = rest;
                    let name = crate::codec::clone_bytes(&fields[fi].name);
                    rest.insert(0, InnerEntry { name, value: v });
                    proof {
                        assert(fields@.map_values(|f: InnerField| f@).skip(fi as int + 1)
                            =~= fv.skip(1));
                        assert(rest@ =~= seq![rest@[0]] + old_rest);
                        assert(rest@[0]@ == InnerEntryV { name: fv[0].name, value: v@ });
                        assert(rest@.map_values(|e: InnerEntry| e@) =~= seq![
                            InnerEntryV { name: fv[0].name, value: v@ },
                        ] + old_rest.map_values(|e: InnerEntry| e@));
                    }
                    Some((rest, k))
                },
            }
        },
    }
}

/// Read count consecutive array items.
fn decode_items(fields: &Vec<InnerField>, bytes: &Vec<u8>, i: usize, count: u64) -> (r: Option<
    (Vec<InnerRecord>, usize),
>)
    ensures
        ({
            let fv = fields@.map_values(|f: InnerField| f@);
            match r {
                None => parse_items(fv, bytes@, i as int, count as int) is None,
                Some((items, j)) => parse_items(fv, bytes@, i as int, count as int) == Some(
                    (items@.map_values(|x: InnerRecord| x@), j as int),
                ),
            }
        }),
    decreases count,
{
    let ghost fv = fields@.map_values(|f: InnerField| f@);
    if count == 0 {
        let items: Vec<InnerRecord> = Vec::new();
        assert(items@.map_values(|x: InnerRecord| x@) =~= Seq::<InnerRecordV>::empty());
        return Some((items, i));
    }
    assert(fv.skip(0) =~= fv);
    match decode_inner_from(fields, 0, bytes, i) {
        None => None,
        Some((entries, j)) => {
            match decode_items(fields, bytes, j, count - 1) {
                None => None,
                Some((rest, k)) => {
                    let ghost old_rest = rest@;
                    let mut rest = rest;
                    rest.insert(0, InnerRecord { entries });
                    proof {
                        assert(rest@ =~= seq![rest@[0]] + old_rest);
                        assert(rest@.map_values(|x: InnerRecord| x@) =~= seq![rest@[0]@]
                            + old_rest.map_values(|x: InnerRecord| x@));
                    }
                    Some((rest, k))
                },
            }
        },
    }
}

/// Read an array field: a non-negative counted block and its terminator.
pub fn decode_array(ischema: &InnerSchema, bytes: &Vec<u8>, i: usize) -> (r: Option<
    (Vec<InnerRecord>, usize),
>)
    ensures
        ({
            let fv = ischema@.fields;
            match r {
                None => parse_array(fv, bytes@, i as int) is None,
                Some((items, j)) => parse_array(fv, bytes@, i as int) == Some(
                    (items@.map_values(|x: InnerRecord| x@), j as int),
                ),
            }
        }),
{
    match decode_varint(bytes, i) {
        None => None,
        Some((n, j)) => {
            let c: i64 = zigzag_decode(n);
            if c < 0 {
                None
            } else if c == 0 {
                let items: Vec<InnerRecord> = Vec::new();
                assert(items@.map_values(|x: InnerRecord| x@) =~= Seq::<InnerRecordV>::empty());
                Some((items, j))
            } else {
                match decode_items(&ischema.fields, bytes, j, c as u64) {
                    None => None,
                    Some((items, k)) => match decode_varint(bytes, k) {
                        None => None,
                        Some((z, l)) => if zigzag_decode(z) == 0 {
                            Some((items, l))
                        } else {
                            None
                        },
                    },
                }
            }
        },
    }
}

/// Read one top-level field value of the declared type.
pub fn decode_field(t: &FieldType, bytes: &Vec<u8>, i: usize) -> (r: Option<(FieldValue, usize)>)
    ensures
        match r {
            None => parse_field(t@, bytes@, i as int) is None,
            Some((v, j)) => parse_field(t@, bytes@, i as int) == Some((v@, j as int)),
        },
{
    match t {
        FieldType::Prim(pt) => match decode_prim(*pt, bytes, i) {
            None => None,
            Some((v, j)) => Some((FieldValue::Prim(v), j)),
        },
        FieldType::RecordArray(ischema) => match decode_array(ischema, bytes, i) {
            None => None,
            Some((items, j)) => Some((FieldValue::RecordArray(items), j)),
        },
    }
}

/// Read the top-level fields, schema fields fi.. in order.
fn decode_record_from(fields: &Vec<SchemaField>, fi: usize, bytes: &Vec<u8>, i: usize) -> (r:
    Option<(Vec<RecordEntry>, usize)>)
    requires
        fi <= fields@.len(),
    ensures
        ({
            let fv = fields@.map_values(|f: SchemaField| f@).skip(fi as int);
            match r {
                None => parse_record_fields(fv, bytes@, i as int) is None,
                Some((es, j)) => parse_record_fields(fv, bytes@, i as int) == Some(
                    (es@.map_values(|e: RecordEntry| e@), j as int),
                ),
            }
        }),
    decreases fields@.len() - fi,
{
    let ghost fv = fields@.map_values(|f: SchemaField| f@).skip(fi as int);
    if fi == fields.len() {
        let es: Vec<RecordEntry> = Vec::new();
        assert(fv =~= Seq::<SchemaFieldV>::empty());
        assert(es@.map_values(|e: RecordEntry| e@) =~= Seq::<RecordEntryV>::empty());
        return Some((es, i));
    }
    assert(fv[0] == fields@[fi as int]@);
    match decode_field(&fields[fi].ty, bytes, i) {
        None => None,
        Some((v, j)) => {
            match decode_record_from(fields, fi + 1, bytes, j) {
                None => {
                    proof {
                        assert(fields@.map_values(|f: SchemaField| f@).skip(fi as int + 1)
                            =~= fv.skip(1));
                    }
                    None
                },
                Some((rest, k)) => {
                    let ghost old_rest = rest@;
                    let mut rest = rest;
                    let name = crate::codec::clone_bytes(&fields[fi].name);
                    rest.insert(0, RecordEntry { name, value: v });
                    proof {
                        assert(fields@.map_values(|f: SchemaField| f@).skip(fi as int + 1)
                            =~= fv.skip(1));
                        assert(rest@ =~= seq![rest@[0]] + old_rest);
                        assert(rest@[0]@ == RecordEntryV { name: fv[0].name, value: v@ });
                        assert(rest@.map_values(|e: RecordEntry| e@) =~= seq![
                            RecordEntryV { name: fv[0].name, value: v@ },
                        ] + old_rest.map_values(|e: RecordEntry| e@));
                    }
                    Some((rest, k))
                },
            }
        },
    }
}

/// Decode a whole binary body against a schema, consuming every byte.
pub fn decode_body(schema: &RecordSchema, bytes: &Vec<u8>) -> (r: Option<RecordValue>)
    ensures
        match r {
            None => parse_body(schema@, bytes@) is None,
            Some(v) => parse_body(schema@, bytes@) == Some(v@),
        },
{
    assert(schema@.fields.skip(0) =~= schema@.fields);
    match decode_record_from(&schema.fields, 0, bytes, 0) {
        None => None,
        Some((entries, j)) => {
            if j == bytes.len() {
                Some(RecordValue { entries })
            } else {
                None
            }
        },
    }
}

/// The round-trip law: the body encoding of any record that conforms to a
/// schema parses back, under the same schema, to exactly that record.
pub proof fn lemma_body_roundtrip(schema: RecordSchemaV, r: RecordValueV)
    requires
        record_conforms(schema, r),
    ensures
        parse_body(schema, enc_body(r)) == Some(r),
{
    let s = enc_body(r);
    assert(s.subrange(0, s.len() as int) =~= s);
    lemma_parse_record_fields_of_encoding(schema.fields, r.entries, s, 0);
    assert(RecordValueV { entries: r.entries } == r);
}

} // verus!
