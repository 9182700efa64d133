//! The part of a configuration that schema comparison reads: the declared
//! types, their fields, and the type of each field.
use vstd::prelude::*;
use crate::text::{first_index, keys_of, find_key};

verus! {

/// A field of a configured type.
#[derive(Debug, PartialEq, Eq)]
pub struct Field {
    /// The name of the field's type.
    pub type_of: String,
}

/// A configured type: its fields, in order, each name at most once.
#[derive(Debug, PartialEq, Eq)]
pub struct Type {
    pub fields: Vec<(String, Field)>,
}

/// The configuration: its types, in order, each name at most once.
#[derive(Debug, PartialEq, Eq)]
pub struct ConfigModule {
    pub types: Vec<(String, Type)>,
}

/// The type name of field `key` of type `ty`, where both are declared.
pub open spec fn field_type(cfg: ConfigModule, ty: Seq<char>, key: Seq<char>) -> Option<Seq<char>> {
    let ti = first_index(keys_of(cfg.types@), ty);
    if 0 <= ti < cfg.types@.len() {
        let fields = cfg.types@[ti].1.fields@;
        let fi = first_index(keys_of(fields), key);
        if 0 <= fi < fields.len() {
            Some(fields[fi].1.type_of@)
        } else {
            None
        }
    } else {
        None
    }
}

impl ConfigModule {
    /// The type name of field `key` of type `ty`, as
    /// `types.get(ty).and_then(|t| t.fields.get(key))` finds it.
    pub fn field_type(&self, ty: &String, key: &String) -> (r: Option<&String>)
        ensures
            match r {
                Some(t) => field_type(*self, ty@, key@) == Some(t@),
                None => field_type(*self, ty@, key@) is None,
            },
    {
        match find_key(&self.types, ty) {
            Some(ti) => {
                let fields = &self.types[ti].1.fields;
                match find_key(fields, key) {
                    Some(fi) => Some(&fields[fi].1.type_of),
                    None => None,
                }
            },
            None => None,
        }
    }
}

} // verus!
