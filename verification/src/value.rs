//! The GraphQL values that schemas are checked against.
use vstd::prelude::*;

verus! {

#[verifier::external_type_specification]
#[verifier::external_body]
pub struct ExNumber(serde_json::Number);

#[verifier::external_type_specification]
#[verifier::external_body]
pub struct ExBytes(bytes::Bytes);

/// A constant GraphQL value. An object holds its entries in order, each
/// name at most once; a lookup finds the first entry of a name.
#[derive(Debug, PartialEq)]
pub enum Value {
    Null,
    Number(serde_json::Number),
    String(String),
    Boolean(bool),
    Binary(bytes::Bytes),
    Enum(String),
    List(Vec<Value>),
    Object(Vec<(String, Value)>),
}

} // verus!
