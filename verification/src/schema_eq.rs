//! `==` on schemas.
use vstd::prelude::*;
use crate::json_schema::{JsonSchema, schema_eq};

verus! {

impl PartialEq for JsonSchema {
    fn eq(&self, other: &JsonSchema) -> (r: bool) {
        self.same_schema(other)
    }
}

impl vstd::std_specs::cmp::PartialEqSpecImpl for JsonSchema {
    open spec fn obeys_eq_spec() -> bool {
        true
    }

    open spec fn eq_spec(&self, other: &JsonSchema) -> bool {
        schema_eq(self@, other@)
    }
}

} // verus!
