//! The structural schema a record is encoded against: a named record whose
//! fields are primitives (string, int, long) or arrays of nested records of
//! primitives. Field order is the schema definition order; the binary body
//! carries no field-name tags, so this order fixes the body layout.
//!
//! Names are carried as their UTF-8 bytes, which is also how the body format
//! measures and writes string data.

use vstd::prelude::*;

verus! {

/// A primitive field type.
#[derive(Clone, Copy, PartialEq, Eq, Structural, Debug)]
pub enum PrimType {
    PString,
    PInt,
    PLong,
}

/// A field of a nested record: primitives only.
#[derive(PartialEq, Eq, Debug)]
pub struct InnerField {
    pub name: Vec<u8>,
    pub ty: PrimType,
}

/// The schema of the records held by an array field.
#[derive(PartialEq, Eq, Debug)]
pub struct InnerSchema {
    pub fields: Vec<InnerField>,
}

/// The type of a top-level field.
#[derive(PartialEq, Eq, Debug)]
pub enum FieldType {
    Prim(PrimType),
    RecordArray(InnerSchema),
}

/// A top-level field.
#[derive(PartialEq, Eq, Debug)]
pub struct SchemaField {
    pub name: Vec<u8>,
    pub ty: FieldType,
}

/// A record schema: its type name and its fields in definition order.
#[derive(PartialEq, Eq, Debug)]
pub struct RecordSchema {
    pub name: Vec<u8>,
    pub fields: Vec<SchemaField>,
}

/// Mathematical image of an InnerField.
pub struct InnerFieldV {
    pub name: Seq<u8>,
    pub ty: PrimType,
}

/// Mathematical image of an InnerSchema.
pub struct InnerSchemaV {
    pub fields: Seq<InnerFieldV>,
}

/// Mathematical image of a FieldType.
pub enum FieldTypeV {
    Prim(PrimType),
    RecordArray(InnerSchemaV),
}

/// Mathematical image of a SchemaField.
pub struct SchemaFieldV {
    pub name: Seq<u8>,
    pub ty: FieldTypeV,
}

/// Mathematical image of a RecordSchema.
pub struct RecordSchemaV {
    pub name: Seq<u8>,
    pub fields: Seq<SchemaFieldV>,
}

impl View for InnerField {
    type V = InnerFieldV;

    open spec fn view(&self) -> InnerFieldV {
        InnerFieldV { name: self.name@, ty: self.ty }
    }
}

impl View for InnerSchema {
    type V = InnerSchemaV;

    open spec fn view(&self) -> InnerSchemaV {
        InnerSchemaV { fields: self.fields@.map_values(|f: InnerField| f@) }
    }
}

impl View for FieldType {
    type V = FieldTypeV;

    open spec fn view(&self) -> FieldTypeV {
        match self {
            FieldType::Prim(t) => FieldTypeV::Prim(*t),
            FieldType::RecordArray(s) => FieldTypeV::RecordArray(s@),
        }
    }
}

impl View for SchemaField {
    type V = SchemaFieldV;

    open spec fn view(&self) -> SchemaFieldV {
        SchemaFieldV { name: self.name@, ty: self.ty@ }
    }
}

impl View for RecordSchema {
    type V = RecordSchemaV;

    open spec fn view(&self) -> RecordSchemaV {
        RecordSchemaV { name: self.name@, fields: self.fields@.map_values(|f: SchemaField| f@) }
    }
}

} // verus!
