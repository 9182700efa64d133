//! The parts of a protobuf message description that schemas are built
//! from: each field's name, kind, presence and repetition.
use vstd::prelude::*;

verus! {

/// The kind of a protobuf field.
#[derive(Debug, PartialEq, Eq)]
pub enum ProtoKind {
    Double,
    Float,
    Int32,
    Int64,
    Uint32,
    Uint64,
    Sint32,
    Sint64,
    Fixed32,
    Fixed64,
    Sfixed32,
    Sfixed64,
    Bool,
    String,
    Bytes,
    Message(ProtoMessage),
    Enum(ProtoEnum),
}

/// A field of a protobuf message.
#[derive(Debug, PartialEq, Eq)]
pub struct ProtoField {
    /// The field's name as the `.proto` file writes it.
    pub name: String,
    pub kind: ProtoKind,
    /// The field has optional cardinality.
    pub optional: bool,
    /// The field is a list (repeated, and not a map).
    pub list: bool,
}

/// A protobuf message: its fields in declaration order.
#[derive(Debug, PartialEq, Eq)]
pub struct ProtoMessage {
    pub fields: Vec<ProtoField>,
}

/// A protobuf enum: the names of its values in declaration order.
#[derive(Debug, PartialEq, Eq)]
pub struct ProtoEnum {
    pub values: Vec<String>,
}

} // verus!
