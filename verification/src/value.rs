//! Structured record values, mirroring the schema shapes: primitive values,
//! nested records of primitives, and records whose fields are primitives or
//! arrays of nested records. String data is carried as UTF-8 bytes.

use vstd::prelude::*;

verus! {

/// A primitive value.
#[derive(PartialEq, Eq, Debug)]
pub enum PrimValue {
    VString(Vec<u8>),
    VInt(i32),
    VLong(i64),
}

/// A named field value inside a nested record.
#[derive(PartialEq, Eq, Debug)]
pub struct InnerEntry {
    pub name: Vec<u8>,
    pub value: PrimValue,
}

/// A nested record: named primitive values in schema order.
#[derive(PartialEq, Eq, Debug)]
pub struct InnerRecord {
    pub entries: Vec<InnerEntry>,
}

/// A top-level field value.
#[derive(PartialEq, Eq, Debug)]
pub enum FieldValue {
    Prim(PrimValue),
    RecordArray(Vec<InnerRecord>),
}

/// A named top-level field value.
#[derive(PartialEq, Eq, Debug)]
pub struct RecordEntry {
    pub name: Vec<u8>,
    pub value: FieldValue,
}

/// A structured record: named field values in schema order.
#[derive(PartialEq, Eq, Debug)]
pub struct RecordValue {
    pub entries: Vec<RecordEntry>,
}

/// Mathematical image of a PrimValue.
pub enum PrimValueV {
    VString(Seq<u8>),
    VInt(i32),
    VLong(i64),
}

/// Mathematical image of an InnerEntry.
pub struct InnerEntryV {
    pub name: Seq<u8>,
    pub value: PrimValueV,
}

/// Mathematical image of an InnerRecord.
pub struct InnerRecordV {
    pub entries: Seq<InnerEntryV>,
}

/// Mathematical image of a FieldValue.
pub enum FieldValueV {
    Prim(PrimValueV),
    RecordArray(Seq<InnerRecordV>),
}

/// Mathematical image of a RecordEntry.
pub struct RecordEntryV {
    pub name: Seq<u8>,
    pub value: FieldValueV,
}

/// Mathematical image of a RecordValue.
pub struct RecordValueV {
    pub entries: Seq<RecordEntryV>,
}

impl View for PrimValue {
    type V = PrimValueV;

    open spec fn view(&self) -> PrimValueV {
        match self {
            PrimValue::VString(b) => PrimValueV::VString(b@),
            PrimValue::VInt(x) => PrimValueV::VInt(*x),
            PrimValue::VLong(x) => PrimValueV::VLong(*x),
        }
    }
}

impl View for InnerEntry {
    type V = InnerEntryV;

    open spec fn view(&self) -> InnerEntryV {
        InnerEntryV { name: self.name@, value: self.value@ }
    }
}

impl View for InnerRecord {
    type V = InnerRecordV;

    open spec fn view(&self) -> InnerRecordV {
        InnerRecordV { entries: self.entries@.map_values(|e: InnerEntry| e@) }
    }
}

impl View for FieldValue {
    type V = FieldValueV;

    open spec fn view(&self) -> FieldValueV {
        match self {
            FieldValue::Prim(v) => FieldValueV::Prim(v@),
            FieldValue::RecordArray(items) => FieldValueV::RecordArray(
                items@.map_values(|r: InnerRecord| r@),
            ),
        }
    }
}

impl View for RecordEntry {
    type V = RecordEntryV;

    open spec fn view(&self) -> RecordEntryV {
        RecordEntryV { name: self.name@, value: self.value@ }
    }
}

impl View for RecordValue {
    type V = RecordValueV;

    open spec fn view(&self) -> RecordValueV {
        RecordValueV { entries: self.entries@.map_values(|e: RecordEntry| e@) }
    }
}

} // verus!
