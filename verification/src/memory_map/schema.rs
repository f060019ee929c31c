//! The data model of a memory map: a protocol and a tree of typed fields.
//!
//! Contracts speak of a field tree through its model, [`FieldModel`], in which
//! the children of a group are a mathematical sequence.

use std::collections::HashMap;
use vstd::prelude::*;

use crate::memory_map::binary64::Binary64;

verus! {

/// Global constraints of one memory map.
#[derive(Clone, Debug, PartialEq)]
pub struct Protocol {
    /// An optional name for the protocol.
    pub name: Option<String>,
    /// Highest address that the end of a field may reach.
    pub address_max: u64,
    /// Minimum addressable data size in bytes.
    pub data_min: u8,
}

/// How the bits of a bitfield are named.
#[derive(Clone, Debug, PartialEq)]
pub enum BitfieldStyle {
    /// Names of the bits from index 0 upward. Bits beyond the list are reserved.
    FromZero(Vec<String>),
    /// Pairs of a bit's name and its index.
    Discrete(HashMap<String, u64>),
}

/// The type of a field.
#[derive(Clone, Debug, PartialEq)]
pub enum FieldType {
    /// A group of other fields, such as a contiguous block of registers.
    Group,
    /// A string of the given length in bytes.
    String(u64),
    /// An enumeration over `length` bits.
    Enum { length: u32, map: HashMap<String, u32> },
    /// `length` bits with named indices.
    Bitfield { length: u32, bits: BitfieldStyle },
    /// An unsigned integer of the given length in bits.
    Unsigned(u32),
    /// A two's complement integer of the given length in bits.
    Signed(u32),
    /// Unsigned fixed point with bit weights from `2^high` down to `2^low`.
    UFixed { high: i32, low: i32 },
    /// Signed fixed point with bit weights from `2^high` down to `2^low`.
    SFixed { high: i32, low: i32 },
}

/// What a group contains: one field or a list of fields.
#[derive(Debug, PartialEq)]
pub enum OneOrMoreField {
    One(Box<Field>),
    More(Vec<Field>),
}

/// A default value of a field.
#[derive(Clone, Debug, PartialEq)]
pub enum Value {
    String(String),
    Unsigned(u64),
    Signed(i64),
    Float(Binary64),
}

/// Access permission of a field.
#[derive(Clone, Copy, Debug, PartialEq, Eq, Structural)]
pub enum Access {
    /// Read-only access is permitted.
    Read,
    /// Write-only access is permitted.
    Write,
    /// Both read and write access is permitted.
    ReadWrite,
}

impl Default for Access {
    fn default() -> (access: Access)
        ensures
            access == Access::Read,
    {
        Access::Read
    }
}

/// One node of the field tree.
#[derive(Debug, PartialEq)]
pub struct Field {
    pub name: String,
    /// Start address. Without one, the field follows the field before it.
    pub address: Option<u64>,
    /// Access permission. Without one, the field inherits it.
    pub access: Option<Access>,
    pub field_type: FieldType,
    /// The fields of a group.
    pub contains: Option<OneOrMoreField>,
    /// The default value of the field.
    pub value: Option<Value>,
    /// The unit of measurement of a numeric field.
    pub unit: Option<String>,
    /// The least value that a numeric field is meant to take.
    pub min: Option<Binary64>,
    /// The greatest value that a numeric field is meant to take.
    pub max: Option<Binary64>,
    /// A description of the values that the field can take.
    pub range: String,
}

impl Field {
    /// A field of the given name and type, with nothing else said of it.
    pub fn new(name: String, field_type: FieldType) -> (field: Field)
        ensures
            field.name == name,
            field.field_type == field_type,
            field.address is None,
            field.access is None,
            field.contains is None,
            field.value is None,
            field.unit is None,
            field.min is None,
            field.max is None,
            field.range@ == Seq::<char>::empty(),
    {
        Field {
            name,
            address: None,
            access: None,
            field_type,
            contains: None,
            value: None,
            unit: None,
            min: None,
            max: None,
            range: String::new(),
        }
    }
}

/// A memory map: a protocol and the root of its field tree.
#[derive(Debug, PartialEq)]
pub struct MemoryMap {
    pub protocol: Protocol,
    pub field: Field,
}

/// The children of a group in the model of a field tree.
pub enum Children {
    One(Box<FieldModel>),
    More(Seq<FieldModel>),
}

/// The model of a field tree.
pub struct FieldModel {
    pub name: String,
    pub address: Option<u64>,
    pub access: Option<Access>,
    pub field_type: FieldType,
    pub contains: Option<Children>,
    pub value: Option<Value>,
    pub unit: Option<String>,
    pub min: Option<Binary64>,
    pub max: Option<Binary64>,
    pub range: String,
}

/// The model of a field: the same node over the models of its children.
pub open spec fn model(field: Field) -> FieldModel
    decreases field,
{
    FieldModel {
        name: field.name,
        address: field.address,
        access: field.access,
        field_type: field.field_type,
        contains: match field.contains {
            None => None,
            Some(OneOrMoreField::One(child)) => Some(Children::One(Box::new(model(*child)))),
            Some(OneOrMoreField::More(children)) => Some(Children::More(models(children@))),
        },
        value: field.value,
        unit: field.unit,
        min: field.min,
        max: field.max,
        range: field.range,
    }
}

/// The models of a sequence of fields, in the same order.
pub open spec fn models(fields: Seq<Field>) -> Seq<FieldModel>
    decreases fields,
{
    Seq::new(
        fields.len(),
        |i: int|
            if 0 <= i < fields.len() {
                model(fields[i])
            } else {
                arbitrary()
            },
    )
}

impl View for Field {
    type V = FieldModel;

    open spec fn view(&self) -> FieldModel {
        model(*self)
    }
}

} // verus!
