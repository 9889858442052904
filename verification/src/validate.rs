//! Structural validation of a record against a schema, with the exact
//! position of the first fault. A record that does not conform to its
//! schema is rejected with the path of the offending field — a missing
//! required field, a type mismatch, or an array element failing
//! nested-record validation — rather than encoded with defaults.

use vstd::prelude::*;

use crate::codec::{
    clone_bytes, field_conforms, inner_conforms, prim_matches, prim_size_ok, record_conforms,
};
use crate::schema::{
    FieldType, FieldTypeV, InnerField, InnerFieldV, PrimType, RecordSchema, RecordSchemaV,
    SchemaField,
};
use crate::value::{
    FieldValue, FieldValueV, InnerRecord, InnerRecordV, PrimValue, PrimValueV, RecordValue,
    RecordValueV,
};

verus! {

/// The path of a field that failed validation: the top-level field, and,
/// when the fault lies inside an array of nested records, the item index
/// and the nested field.
#[derive(PartialEq, Eq, Debug)]
pub struct FieldPath {
    pub field: Vec<u8>,
    pub index: Option<usize>,
    pub inner_field: Option<Vec<u8>>,
}

/// Mathematical image of a FieldPath.
pub struct FieldPathV {
    pub field: Seq<u8>,
    pub index: Option<int>,
    pub inner_field: Option<Seq<u8>>,
}

impl View for FieldPath {
    type V = FieldPathV;

    open spec fn view(&self) -> FieldPathV {
        FieldPathV {
            field: self.field@,
            index: match self.index {
                Some(m) => Some(m as int),
                None => None,
            },
            inner_field: match self.inner_field {
                Some(ref nm) => Some(nm@),
                None => None,
            },
        }
    }
}

/// The name of the first nested field from position k on that the nested
/// record fails, or of the first unexpected extra entry; None when the
/// suffix is clean.
pub open spec fn check_inner(fields: Seq<InnerFieldV>, r: InnerRecordV, k: int) -> Option<Seq<u8>>
    decreases fields.len() - k,
{
    if k < 0 || k >= fields.len() {
        if r.entries.len() > fields.len() {
            Some(r.entries[fields.len() as int].name)
        } else {
            None
        }
    } else if k >= r.entries.len() || r.entries[k].name != fields[k].name || !prim_matches(
        r.entries[k].value,
        fields[k].ty,
    ) || !prim_size_ok(r.entries[k].value) {
        Some(fields[k].name)
    } else {
        check_inner(fields, r, k + 1)
    }
}

/// The first faulty array item from position m on: its index and the name
/// of the nested field it fails.
pub open spec fn check_items(
    fields: Seq<InnerFieldV>,
    items: Seq<InnerRecordV>,
    m: int,
) -> Option<(int, Seq<u8>)>
    decreases items.len() - m,
{
    if m < 0 || m >= items.len() {
        None
    } else {
        match check_inner(fields, items[m], 0) {
            Some(nm) => Some((m, nm)),
            None => check_items(fields, items, m + 1),
        }
    }
}

/// The fault of one field value against its declared type: item index and
/// nested field name where they apply.
pub open spec fn check_field(t: FieldTypeV, v: FieldValueV) -> Option<
    (Option<int>, Option<Seq<u8>>),
> {
    match t {
        FieldTypeV::Prim(pt) => match v {
            FieldValueV::Prim(pv) => if prim_matches(pv, pt) && prim_size_ok(pv) {
                None
            } else {
                Some((None, None))
            },
            _ => Some((None, None)),
        },
        FieldTypeV::RecordArray(isv) => match v {
            FieldValueV::RecordArray(items) => if items.len() > i64::MAX {
                Some((None, None))
            } else {
                match check_items(isv.fields, items, 0) {
                    None => None,
                    Some((m, nm)) => Some((Some(m), Some(nm))),
                }
            },
            _ => Some((None, None)),
        },
    }
}

/// The first fault of the record from field k on, as a full path.
pub open spec fn check_record(schema: RecordSchemaV, r: RecordValueV, k: int) -> Option<FieldPathV>
    decreases schema.fields.len() - k,
{
    if k < 0 || k >= schema.fields.len() {
        if r.entries.len() > schema.fields.len() {
            Some(
                FieldPathV {
                    field: r.entries[schema.fields.len() as int].name,
                    index: None,
                    inner_field: None,
                },
            )
        } else {
            None
        }
    } else if k >= r.entries.len() || r.entries[k].name != schema.fields[k].name {
        Some(FieldPathV { field: schema.fields[k].name, index: None, inner_field: None })
    } else {
        match check_field(schema.fields[k].ty, r.entries[k].value) {
            None => check_record(schema, r, k + 1),
            Some((idx, inm)) => Some(
                FieldPathV { field: schema.fields[k].name, index: idx, inner_field: inm },
            ),
        }
    }
}

/// The first fault of a whole record, or None when it conforms.
pub open spec fn body_fault(schema: RecordSchemaV, r: RecordValueV) -> Option<FieldPathV> {
    check_record(schema, r, 0)
}

proof fn lemma_check_inner_none(fields: Seq<InnerFieldV>, r: InnerRecordV, k: int)
    requires
        0 <= k <= fields.len(),
    ensures
        check_inner(fields, r, k) is None <==> {
            &&& r.entries.len() <= fields.len()
            &&& forall|j: int|
                k <= j < fields.len() ==> {
                    &&& j < r.entries.len()
                    &&& (#[trigger] r.entries[j]).name == fields[j].name
                    &&& prim_matches(r.entries[j].value, fields[j].ty)
                    &&& prim_size_ok(r.entries[j].value)
                }
        },
    decreases fields.len() - k,
{
    if k < fields.len() {
        lemma_check_inner_none(fields, r, k + 1);
    }
}

/// No fault means conformance, and conversely.
pub proof fn lemma_inner_fault_iff_conforms(fields: Seq<InnerFieldV>, r: InnerRecordV)
    ensures
        check_inner(fields, r, 0) is None <==> inner_conforms(fields, r),
{
    lemma_check_inner_none(fields, r, 0);
    if check_inner(fields, r, 0) is None {
        if fields.len() > 0 {
            let e = r.entries[fields.len() - 1];
            assert(e.name == fields[fields.len() - 1].name);
            assert(fields.len() - 1 < r.entries.len());
        }
    }
}

proof fn lemma_check_items_none(fields: Seq<InnerFieldV>, items: Seq<InnerRecordV>, m: int)
    requires
        0 <= m <= items.len(),
    ensures
        check_items(fields, items, m) is None <==> forall|j: int|
            m <= j < items.len() ==> inner_conforms(fields, #[trigger] items[j]),
    decreases items.len() - m,
{
    if m < items.len() {
        lemma_inner_fault_iff_conforms(fields, items[m]);
        lemma_check_items_none(fields, items, m + 1);
    }
}

/// No fault of a field value means it conforms to its type, and conversely.
pub proof fn lemma_field_fault_iff_conforms(t: FieldTypeV, v: FieldValueV)
    ensures
        check_field(t, v) is None <==> field_conforms(t, v),
{
    match t {
        FieldTypeV::Prim(pt) => {},
        FieldTypeV::RecordArray(isv) => {
            match v {
                FieldValueV::RecordArray(items) => {
                    lemma_check_items_none(isv.fields, items, 0);
                },
                _ => {},
            }
        },
    }
}

proof fn lemma_check_record_none(schema: RecordSchemaV, r: RecordValueV, k: int)
    requires
        0 <= k <= schema.fields.len(),
    ensures
        check_record(schema, r, k) is None <==> {
            &&& r.entries.len() <= schema.fields.len()
            &&& forall|j: int|
                k <= j < schema.fields.len() ==> {
                    &&& j < r.entries.len()
                    &&& (#[trigger] r.entries[j]).name == schema.fields[j].name
                    &&& field_conforms(schema.fields[j].ty, r.entries[j].value)
                }
        },
    decreases schema.fields.len() - k,
{
    if k < schema.fields.len() {
        lemma_check_record_none(schema, r, k + 1);
        if k < r.entries.len() && r.entries[k].name == schema.fields[k].name {
            lemma_field_fault_iff_conforms(schema.fields[k].ty, r.entries[k].value);
        }
    }
}

/// Validation finds no fault exactly in the records that conform.
pub proof fn lemma_fault_iff_conforms(schema: RecordSchemaV, r: RecordValueV)
    ensures
        body_fault(schema, r) is None <==> record_conforms(schema, r),
{
    lemma_check_record_none(schema, r, 0);
    if body_fault(schema, r) is None {
        if schema.fields.len() > 0 {
            let e = r.entries[schema.fields.len() - 1];
            assert(e.name == schema.fields[schema.fields.len() - 1].name);
            assert(schema.fields.len() - 1 < r.entries.len());
        }
    }
}

/// A record whose first departure from the schema is a missing field — the
/// earlier fields are present and clean, and at position k the schema's
/// field is absent — is always rejected with a path naming exactly that
/// field, never encoded with a substitute.
pub proof fn lemma_missing_field_is_named(schema: RecordSchemaV, r: RecordValueV, k: int)
    requires
        0 <= k < schema.fields.len(),
        forall|j: int|
            0 <= j < k ==> {
                &&& j < r.entries.len()
                &&& (#[trigger] r.entries[j]).name == schema.fields[j].name
                &&& field_conforms(schema.fields[j].ty, r.entries[j].value)
            },
        k >= r.entries.len() || r.entries[k].name != schema.fields[k].name,
    ensures
        body_fault(schema, r) == Some(
            FieldPathV { field: schema.fields[k].name, index: None, inner_field: None },
        ),
{
    lemma_check_record_prefix(schema, r, 0, k);
}

proof fn lemma_check_record_prefix(schema: RecordSchemaV, r: RecordValueV, start: int, k: int)
    requires
        0 <= start <= k < schema.fields.len(),
        forall|j: int|
            start <= j < k ==> {
                &&& j < r.entries.len()
                &&& (#[trigger] r.entries[j]).name == schema.fields[j].name
                &&& field_conforms(schema.fields[j].ty, r.entries[j].value)
            },
        k >= r.entries.len() || r.entries[k].name != schema.fields[k].name,
    ensures
        check_record(schema, r, start) == Some(
            FieldPathV { field: schema.fields[k].name, index: None, inner_field: None },
        ),
    decreases k - start,
{
    if start < k {
        lemma_field_fault_iff_conforms(schema.fields[start].ty, r.entries[start].value);
        lemma_check_record_prefix(schema, r, start + 1, k);
    }
}

/// True exactly when the two byte vectors hold the same bytes.
pub fn bytes_eq(a: &Vec<u8>, b: &Vec<u8>) -> (r: bool)
    ensures
        r == (a@ == b@),
{
    if a.len() != b.len() {
        return false;
    }
    let mut k: usize = 0;
    while k < a.len()
        invariant
            k <= a@.len(),
            a@.len() == b@.len(),
            forall|j: int| 0 <= j < k ==> a@[j] == b@[j],
        decreases a@.len() - k,
    {
        if a[k] != b[k] {
            return false;
        }
        k = k + 1;
    }
    proof {
        assert(a@ =~= b@);
    }
    true
}

/// True exactly when v has type t and its sizes are encodable.
fn prim_ok(t: PrimType, v: &PrimValue) -> (r: bool)
    ensures
        r == (prim_matches(v@, t) && prim_size_ok(v@)),
{
    match t {
        PrimType::PString => match v {
            PrimValue::VString(b) => (b.len() as u64) <= (i64::MAX as u64),
            _ => false,
        },
        PrimType::PInt => match v {
            PrimValue::VInt(_) => true,
            _ => false,
        },
        PrimType::PLong => match v {
            PrimValue::VLong(_) => true,
            _ => false,
        },
    }
}

/// First fault of a nested record from field k on, mirroring check_inner.
fn validate_inner_from(fields: &Vec<InnerField>, r: &InnerRecord, k: usize) -> (res: Option<
    Vec<u8>,
>)
    requires
        k <= fields@.len(),
    ensures
        ({
            let fv = fields@.map_values(|f: InnerField| f@);
            match res {
                None => check_inner(fv, r@, k as int) is None,
                Some(nm) => check_inner(fv, r@, k as int) == Some(nm@),
            }
        }),
    decreases fields@.len() - k,
{
    let ghost fv = fields@.map_values(|f: InnerField| f@);
    if k == fields.len() {
        if r.entries.len() > fields.len() {
            assert(r@.entries[fv.len() as int] == r.entries@[fields@.len() as int]@);
            Some(clone_bytes(&r.entries[fields.len()].name))
        } else {
            None
        }
    } else {
        assert(fv[k as int] == fields@[k as int]@);
        if k >= r.entries.len() {
            Some(clone_bytes(&fields[k].name))
        } else {
            assert(r@.entries[k as int] == r.entries@[k as int]@);
            if !bytes_eq(&r.entries[k].name, &fields[k].name) {
                Some(clone_bytes(&fields[k].name))
            } else if !prim_ok(fields[k].ty, &r.entries[k].value) {
                Some(clone_bytes(&fields[k].name))
            } else {
                validate_inner_from(fields, r, k + 1)
            }
        }
    }
}

/// First faulty item from position m on, mirroring check_items.
fn validate_items_from(fields: &Vec<InnerField>, items: &Vec<InnerRecord>, m: usize) -> (res:
    Option<(usize, Vec<u8>)>)
    requires
        m <= items@.len(),
    ensures
        ({
            let fv = fields@.map_values(|f: InnerField| f@);
            let iv = items@.map_values(|x: InnerRecord| x@);
            match res {
                None => check_items(fv, iv, m as int) is None,
                Some((j, nm)) => check_items(fv, iv, m as int) == Some((j as int, nm@)),
            }
        }),
    decreases items@.len() - m,
{
    let ghost iv = items@.map_values(|x: InnerRecord| x@);
    if m == items.len() {
        None
    } else {
        assert(iv[m as int] == items@[m as int]@);
        match validate_inner_from(fields, &items[m], 0) {
            Some(nm) => Some((m, nm)),
            None => validate_items_from(fields, items, m + 1),
        }
    }
}

/// Fault of one field value against its declared type, mirroring
/// check_field.
fn validate_field(t: &FieldType, v: &FieldValue) -> (res: Option<(Option<usize>, Option<Vec<u8>>)>)
    ensures
        match res {
            None => check_field(t@, v@) is None,
            Some((idx, inm)) => check_field(t@, v@) == Some(
                (
                    match idx {
                        Some(m) => Some(m as int),
                        None => None,
                    },
                    match inm {
                        Some(ref nm) => Some(nm@),
                        None => None,
                    },
                ),
            ),
        },
{
    match t {
        FieldType::Prim(pt) => match v {
            FieldValue::Prim(pv) => if prim_ok(*pt, pv) {
                None
            } else {
                Some((None, None))
            },
            _ => Some((None, None)),
        },
        FieldType::RecordArray(ischema) => match v {
            FieldValue::RecordArray(items) => {
                if (items.len() as u64) > (i64::MAX as u64) {
                    Some((None, None))
                } else {
                    match validate_items_from(&ischema.fields, items, 0) {
                        None => None,
                        Some((m, nm)) => Some((Some(m), Some(nm))),
                    }
                }
            },
            _ => Some((None, None)),
        },
    }
}

/// First fault of the record from field k on, mirroring check_record.
fn validate_record_from(schema: &RecordSchema, r: &RecordValue, k: usize) -> (res: Option<
    FieldPath,
>)
    requires
        k <= schema@.fields.len(),
    ensures
        match res {
            None => check_record(schema@, r@, k as int) is None,
            Some(p) => check_record(schema@, r@, k as int) == Some(p@),
        },
    decreases schema@.fields.len() - k,
{
    if k == schema.fields.len() {
        if r.entries.len() > schema.fields.len() {
            assert(r@.entries[schema@.fields.len() as int] == r.entries@[schema@.fields.len() as int]@);
            Some(
                FieldPath {
                    field: clone_bytes(&r.entries[schema.fields.len()].name),
                    index: None,
                    inner_field: None,
                },
            )
        } else {
            None
        }
    } else {
        assert(schema@.fields[k as int] == schema.fields@[k as int]@);
        if k >= r.entries.len() {
            Some(
                FieldPath { field: clone_bytes(&schema.fields[k].name), index: None, inner_field: None },
            )
        } else {
            assert(r@.entries[k as int] == r.entries@[k as int]@);
            if !bytes_eq(&r.entries[k].name, &schema.fields[k].name) {
                Some(
                    FieldPath {
                        field: clone_bytes(&schema.fields[k].name),
                        index: None,
                        inner_field: None,
                    },
                )
            } else {
                match validate_field(&schema.fields[k].ty, &r.entries[k].value) {
                    None => validate_record_from(schema, r, k + 1),
                    Some((idx, inm)) => Some(
                        FieldPath {
                            field: clone_bytes(&schema.fields[k].name),
                            index: idx,
                            inner_field: inm,
                        },
                    ),
                }
            }
        }
    }
}

/// Validate a record against a schema: Ok exactly for conforming records,
/// otherwise the path of the first fault.
pub fn validate_record(schema: &RecordSchema, r: &RecordValue) -> (res: Result<(), FieldPath>)
    ensures
        res is Ok <==> record_conforms(schema@, r@),
        res is Ok ==> body_fault(schema@, r@) is None,
        res matches Err(p) ==> body_fault(schema@, r@) == Some(p@),
{
    proof {
        lemma_fault_iff_conforms(schema@, r@);
    }
    match validate_record_from(schema, r, 0) {
        None => Ok(()),
        Some(p) => Err(p),
    }
}

} // verus!
