//! JSON schemas: the shape that a value must have, checks of values
//! against a schema, and comparison of two schemas.
use vstd::prelude::*;
use crate::config::{ConfigModule, field_type};
use crate::names::{NameSet, strictly_sorted, lemma_sorted_set_eq, sorted_names};
use crate::proto::{ProtoMessage, ProtoField, ProtoKind, ProtoEnum};
use crate::text::{
    decimal, decimal_string, first_index, keys_of, find_key, lemma_first_index, str_debug,
    debug_quote, camel_case, to_camel_case, concat_str,
};
use crate::valid::{CauseModel, Valid, fail_model, trace_model, strings_model};
use crate::value::Value;

verus! {

/// The shape of a JSON value. `==` compares objects as maps: the same
/// number of fields, and each field's schema equal to that of the other's
/// field of the same name. The text that `{:?}` gives a schema, with
/// objects and enums as `{..}`, is `debug_string`'s; the derived `Debug`
/// shows an object's fields as a list.
#[derive(Debug, Eq)]
pub enum JsonSchema {
    /// An object with these fields. The builders give each name once;
    /// where a name repeats, lookups by name find its first field.
    Obj(Vec<(String, JsonSchema)>),
    /// A list whose items have this shape.
    Arr(Box<JsonSchema>),
    /// A value of this shape, or null.
    Opt(Box<JsonSchema>),
    /// One of these names.
    Enum(NameSet),
    Str,
    Num,
    Bool,
}

/// What a schema is, with strings as text.
pub enum SchemaModel {
    Obj(Seq<(Seq<char>, SchemaModel)>),
    Arr(Box<SchemaModel>),
    Opt(Box<SchemaModel>),
    Enum(Seq<Seq<char>>),
    Str,
    Num,
    Bool,
}

/// The model of a schema.
pub open spec fn schema_model(s: JsonSchema) -> SchemaModel
    decreases s,
{
    match s {
        JsonSchema::Obj(fields) => SchemaModel::Obj(fields_model(fields@)),
        JsonSchema::Arr(x) => SchemaModel::Arr(Box::new(schema_model(*x))),
        JsonSchema::Opt(x) => SchemaModel::Opt(Box::new(schema_model(*x))),
        JsonSchema::Enum(n) => SchemaModel::Enum(n@),
        JsonSchema::Str => SchemaModel::Str,
        JsonSchema::Num => SchemaModel::Num,
        JsonSchema::Bool => SchemaModel::Bool,
    }
}

/// The model of an object's fields, in order.
pub open spec fn fields_model(f: Seq<(String, JsonSchema)>) -> Seq<(Seq<char>, SchemaModel)>
    decreases f,
{
    if f.len() == 0 {
        seq![]
    } else {
        fields_model(f.drop_last()) + seq![(f.last().0@, schema_model(f.last().1))]
    }
}

impl View for JsonSchema {
    type V = SchemaModel;

    open spec fn view(&self) -> SchemaModel {
        schema_model(*self)
    }
}

/// Each field's model is its name and its schema's model.
pub proof fn lemma_fields_model(f: Seq<(String, JsonSchema)>)
    ensures
        fields_model(f).len() == f.len(),
        forall|i: int|
            0 <= i < f.len() ==> #[trigger] fields_model(f)[i] == (f[i].0@, schema_model(f[i].1)),
    decreases f.len(),
{
    if f.len() > 0 {
        lemma_fields_model(f.drop_last());
    }
}


/// The value stored under the first entry named `name`, if any.
pub open spec fn lookup(entries: Seq<(String, Value)>, name: Seq<char>) -> Option<Value> {
    let i = first_index(keys_of(entries), name);
    if i >= 0 {
        Some(entries[i].1)
    } else {
        None
    }
}

/// The causes of failure when `value` is checked against `schema`.
pub open spec fn validate_model(schema: SchemaModel, value: Value) -> Seq<CauseModel>
    decreases schema, 0nat,
{
    match schema {
        SchemaModel::Str => if value is String {
            seq![]
        } else {
            fail_model("expected string"@)
        },
        SchemaModel::Num => if value is Number {
            seq![]
        } else {
            fail_model("expected number"@)
        },
        SchemaModel::Bool => if value is Boolean {
            seq![]
        } else {
            fail_model("expected boolean"@)
        },
        SchemaModel::Arr(item) => match value {
            Value::List(items) => items_model(*item, items@, items@.len()),
            _ => fail_model("expected array"@),
        },
        SchemaModel::Obj(fields) => match value {
            Value::Object(entries) => fields_check_model(fields, entries@, fields.len()),
            _ => fail_model("expected object"@),
        },
        SchemaModel::Opt(inner) => match value {
            Value::Null => seq![],
            _ => validate_model(*inner, value),
        },
        SchemaModel::Enum(_) => seq![],
    }
}

/// The causes for the first `n` items of a list, each traced by its
/// position.
pub open spec fn items_model(item: SchemaModel, items: Seq<Value>, n: nat) -> Seq<CauseModel>
    decreases item, n,
{
    if n == 0 || n > items.len() {
        seq![]
    } else {
        items_model(item, items, (n - 1) as nat) + trace_model(
            validate_model(item, items[n - 1]),
            decimal((n - 1) as nat),
        )
    }
}

/// The causes for the first `n` fields of an object schema, each traced by
/// the field's name.
pub open spec fn fields_check_model(
    fields: Seq<(Seq<char>, SchemaModel)>,
    entries: Seq<(String, Value)>,
    n: nat,
) -> Seq<CauseModel>
    decreases fields, n,
{
    if n == 0 || n > fields.len() {
        seq![]
    } else {
        let name = fields[n - 1].0;
        let schema = fields[n - 1].1;
        let this = match lookup(entries, name) {
            Some(v) => trace_model(validate_model(schema, v), name),
            None => if schema is Opt {
                seq![]
            } else {
                trace_model(fail_model("expected field to be non-nullable"@), name)
            },
        };
        fields_check_model(fields, entries, (n - 1) as nat) + this
    }
}

impl JsonSchema {
    /// Wraps the schema so that null is accepted too.
    pub fn optional(self) -> (r: JsonSchema)
        ensures
            r == JsonSchema::Opt(Box::new(self)),
            r@ == SchemaModel::Opt(Box::new(self@)),
    {
        JsonSchema::Opt(Box::new(self))
    }

    /// Whether the schema accepts null.
    pub fn is_optional(&self) -> (r: bool)
        ensures
            r == (self is Opt),
            r == (self@ is Opt),
    {
        matches!(self, JsonSchema::Opt(_))
    }

    /// Whether the schema rejects null.
    pub fn is_required(&self) -> (r: bool)
        ensures
            r == !(self is Opt),
            r == !(self@ is Opt),
    {
        !self.is_optional()
    }

    /// Checks `value` against the schema. Every mismatch is reported, each
    /// with the trail of field names and list positions that leads to it.
    #[verifier::loop_isolation(false)]
    pub fn validate(&self, value: &Value) -> (r: Valid)
        ensures
            r@ == validate_model(self@, *value),
        decreases self,
    {
        match self {
            JsonSchema::Str => match value {
                Value::String(_) => Valid::succeed(),
                _ => Valid::fail("expected string"),
            },
            JsonSchema::Num => match value {
                Value::Number(_) => Valid::succeed(),
                _ => Valid::fail("expected number"),
            },
            JsonSchema::Bool => match value {
                Value::Boolean(_) => Valid::succeed(),
                _ => Valid::fail("expected boolean"),
            },
            JsonSchema::Arr(item) => match value {
                Value::List(items) => {
                    let mut acc = Valid::succeed();
                    let mut i: usize = 0;
                    while i < items.len()
                        invariant
                            i <= items@.len(),
                            acc@ == items_model(item@, items@, i as nat),
                        decreases items@.len() - i,
                    {
                        let part = item.validate(&items[i]);
                        let label = decimal_string(i);
                        let part = part.trace(label.as_str());
                        acc = acc.combine(part);
                        i = i + 1;
                    }
                    acc
                },
                _ => Valid::fail("expected array"),
            },
            JsonSchema::Obj(fields) => match value {
                Value::Object(entries) => {
                    proof {
                        lemma_fields_model(fields@);
                    }
                    let ghost fm = fields_model(fields@);
                    let mut acc = Valid::succeed();
                    let mut k: usize = 0;
                    while k < fields.len()
                        invariant
                            k <= fields@.len(),
                            fm == fields_model(fields@),
                            fm.len() == fields@.len(),
                            forall|i: int|
                                0 <= i < fields@.len() ==> #[trigger] fm[i] == (
                                    fields@[i].0@,
                                    schema_model(fields@[i].1),
                                ),
                            acc@ == fields_check_model(fm, entries@, k as nat),
                        decreases fields@.len() - k,
                    {
                        let name = &fields[k].0;
                        let schema = &fields[k].1;
                        proof {
                            assert(decreases_to!(fields@ => fields@[k as int]));
                            assert(decreases_to!(*self => fields@[k as int].1));
                        }
                        assert(fm[k as int] == (name@, schema@));
                        let found = find_key(entries, name);
                        proof {
                            lemma_first_index(keys_of(entries@), name@);
                        }
                        let part = match found {
                            Some(i) => schema.validate(&entries[i].1).trace(name.as_str()),
                            None => if schema.is_required() {
                                Valid::fail("expected field to be non-nullable").trace(
                                    name.as_str(),
                                )
                            } else {
                                Valid::succeed()
                            },
                        };
                        acc = acc.combine(part);
                        k = k + 1;
                    }
                    acc
                },
                _ => Valid::fail("expected object"),
            },
            JsonSchema::Opt(inner) => match value {
                Value::Null => Valid::succeed(),
                _ => inner.validate(value),
            },
            JsonSchema::Enum(_) => Valid::succeed(),
        }
    }
}


/// The `{:?}` text of a schema: the variant's name, with the fields of an
/// object as `{"name": schema, ..}` and the names of an enum as
/// `{"a", ..}`, both in the order the schema holds them.
pub open spec fn debug_model(s: SchemaModel) -> Seq<char>
    decreases s, 0nat,
{
    match s {
        SchemaModel::Obj(f) => "Obj({"@ + fields_debug_model(f, f.len()) + "})"@,
        SchemaModel::Arr(x) => "Arr("@ + debug_model(*x) + ")"@,
        SchemaModel::Opt(x) => "Opt("@ + debug_model(*x) + ")"@,
        SchemaModel::Enum(names) => "Enum({"@ + names_debug_model(names, names.len()) + "})"@,
        SchemaModel::Str => "Str"@,
        SchemaModel::Num => "Num"@,
        SchemaModel::Bool => "Bool"@,
    }
}

/// The `{:?}` text of the first `n` fields, separated by `, `.
pub open spec fn fields_debug_model(f: Seq<(Seq<char>, SchemaModel)>, n: nat) -> Seq<char>
    decreases f, n,
{
    if n == 0 || n > f.len() {
        seq![]
    } else {
        fields_debug_model(f, (n - 1) as nat) + (if n > 1 {
            ", "@
        } else {
            seq![]
        }) + str_debug(f[n - 1].0) + ": "@ + debug_model(f[n - 1].1)
    }
}

/// The `{:?}` text of the first `n` names, separated by `, `.
pub open spec fn names_debug_model(names: Seq<Seq<char>>, n: nat) -> Seq<char>
    decreases n,
{
    if n == 0 || n > names.len() {
        seq![]
    } else {
        names_debug_model(names, (n - 1) as nat) + (if n > 1 {
            ", "@
        } else {
            seq![]
        }) + str_debug(names[n - 1])
    }
}

/// The causes of failure when `b` is compared with the expected schema
/// `a`, for the field `name` of the configured type `ty`.
pub open spec fn compare_model(
    a: SchemaModel,
    b: SchemaModel,
    name: Seq<char>,
    ty: Seq<char>,
    cfg: ConfigModule,
) -> Seq<CauseModel>
    decreases a, 0nat,
{
    match a {
        SchemaModel::Obj(af) => match b {
            SchemaModel::Obj(bf) => entries_compare_model(af, bf, ty, cfg, bf.len()),
            _ => trace_model(fail_model("expected Object type"@), ty),
        },
        SchemaModel::Arr(x) => match b {
            SchemaModel::Arr(y) => compare_model(*x, *y, name, ty, cfg),
            _ => trace_model(fail_model("expected Non repeatable type"@), name),
        },
        SchemaModel::Opt(x) => match b {
            SchemaModel::Opt(y) => compare_model(*x, *y, name, ty, cfg),
            _ => trace_model(fail_model("expected type to be required"@), name),
        },
        SchemaModel::Str => if b is Str {
            seq![]
        } else {
            trace_model(fail_model("expected String, got "@ + debug_model(b)), name)
        },
        SchemaModel::Num => if b is Num {
            seq![]
        } else {
            trace_model(fail_model("expected Number, got "@ + debug_model(b)), name)
        },
        SchemaModel::Bool => if b is Bool {
            seq![]
        } else {
            trace_model(fail_model("expected Boolean, got "@ + debug_model(b)), name)
        },
        SchemaModel::Enum(x) => match b {
            SchemaModel::Enum(y) => if x != y {
                trace_model(fail_model("expected Enum type"@), name)
            } else {
                seq![]
            },
            _ => seq![],
        },
    }
}

/// The causes for the first `n` fields of the compared object `bf`, each
/// checked against the field of the same name in the expected `af`.
pub open spec fn entries_compare_model(
    af: Seq<(Seq<char>, SchemaModel)>,
    bf: Seq<(Seq<char>, SchemaModel)>,
    ty: Seq<char>,
    cfg: ConfigModule,
    n: nat,
) -> Seq<CauseModel>
    decreases af, n,
{
    if n == 0 || n > bf.len() {
        seq![]
    } else {
        let key = bf[n - 1].0;
        let this = match field_type(cfg, ty, key) {
            Some(ft) => {
                let i = first_index(af.map_values(|e: (Seq<char>, SchemaModel)| e.0), key);
                if 0 <= i < af.len() {
                    compare_model(af[i].1, bf[n - 1].1, key, ft, cfg)
                } else {
                    fail_model("missing key: "@ + key)
                }
            },
            None => trace_model(fail_model("missing key: "@ + key), ty),
        };
        entries_compare_model(af, bf, ty, cfg, (n - 1) as nat) + this
    }
}


/// The names of a schema's fields are the names of its entries.
pub proof fn lemma_fields_model_keys(f: Seq<(String, JsonSchema)>)
    ensures
        fields_model(f).map_values(|e: (Seq<char>, SchemaModel)| e.0) == keys_of(f),
{
    lemma_fields_model(f);
    assert(fields_model(f).map_values(|e: (Seq<char>, SchemaModel)| e.0) =~= keys_of(f));
}

impl JsonSchema {
    /// The schema as `{:?}` prints it.
    #[verifier::loop_isolation(false)]
    pub fn debug_string(&self) -> (r: String)
        ensures
            r@ == debug_model(self@),
        decreases self,
    {
        match self {
            JsonSchema::Obj(f) => {
                proof {
                    lemma_fields_model(f@);
                }
                let ghost fm = fields_model(f@);
                let mut s = String::from_str("Obj({");
                let mut k: usize = 0;
                while k < f.len()
                    invariant
                        k <= f@.len(),
                        s@ == "Obj({"@ + fields_debug_model(fm, k as nat),
                    decreases f@.len() - k,
                {
                    proof {
                        assert(decreases_to!(f@ => f@[k as int]));
                        assert(fm[k as int] == (f@[k as int].0@, schema_model(f@[k as int].1)));
                    }
                    if k > 0 {
                        s.append(", ");
                    }
                    let q = debug_quote(f[k].0.as_str());
                    s.append(q.as_str());
                    s.append(": ");
                    let d = f[k].1.debug_string();
                    s.append(d.as_str());
                    k = k + 1;
                }
                s.append("})");
                s
            },
            JsonSchema::Arr(x) => {
                let mut s = String::from_str("Arr(");
                let d = x.debug_string();
                s.append(d.as_str());
                s.append(")");
                s
            },
            JsonSchema::Opt(x) => {
                let mut s = String::from_str("Opt(");
                let d = x.debug_string();
                s.append(d.as_str());
                s.append(")");
                s
            },
            JsonSchema::Enum(set) => {
                let names = set.names();
                let mut s = String::from_str("Enum({");
                let mut k: usize = 0;
                while k < names.len()
                    invariant
                        k <= names@.len(),
                        s@ == "Enum({"@ + names_debug_model(set@, k as nat),
                    decreases names@.len() - k,
                {
                    if k > 0 {
                        s.append(", ");
                    }
                    let q = debug_quote(names[k].as_str());
                    s.append(q.as_str());
                    k = k + 1;
                }
                s.append("})");
                s
            },
            JsonSchema::Str => String::from_str("Str"),
            JsonSchema::Num => String::from_str("Num"),
            JsonSchema::Bool => String::from_str("Bool"),
        }
    }
}


impl JsonSchema {
    /// Compares `other`, the schema found for field `name` of the configured
    /// type `ty`, with this expected schema, and reports every difference.
    /// For objects, each field of `other` is looked up in `ty`'s fields in
    /// `cfg_module` and compared with the field of the same name here,
    /// against the field's own type.
    #[verifier::loop_isolation(false)]
    pub fn compare(&self, other: &JsonSchema, name: &str, ty: String, cfg_module: &ConfigModule) -> (r:
        Valid)
        ensures
            r@ == compare_model(self@, other@, name@, ty@, *cfg_module),
        decreases self,
    {
        match self {
            JsonSchema::Obj(a) => match other {
                JsonSchema::Obj(b) => {
                    proof {
                        lemma_fields_model(a@);
                        lemma_fields_model(b@);
                        lemma_fields_model_keys(a@);
                    }
                    let ghost am = fields_model(a@);
                    let ghost bm = fields_model(b@);
                    let mut acc = Valid::succeed();
                    let mut k: usize = 0;
                    while k < b.len()
                        invariant
                            k <= b@.len(),
                            acc@ == entries_compare_model(am, bm, ty@, *cfg_module, k as nat),
                        decreases b@.len() - k,
                    {
                        let key = &b[k].0;
                        let other_field = &b[k].1;
                        assert(bm[k as int] == (key@, other_field@));
                        let part = match cfg_module.field_type(&ty, key) {
                            Some(field_ty) => match find_key(a, key) {
                                Some(i) => {
                                    proof {
                                        assert(decreases_to!(a@ => a@[i as int]));
                                        assert(am[i as int] == (a@[i as int].0@, a@[i as int].1@));
                                    }
                                    a[i].1.compare(
                                        other_field,
                                        key.as_str(),
                                        field_ty.clone(),
                                        cfg_module,
                                    )
                                },
                                None => {
                                    let msg = concat_str("missing key: ", key.as_str());
                                    Valid::fail(msg.as_str())
                                },
                            },
                            None => {
                                let msg = concat_str("missing key: ", key.as_str());
                                Valid::fail(msg.as_str()).trace(ty.as_str())
                            },
                        };
                        acc = acc.combine(part);
                        k = k + 1;
                    }
                    acc
                },
                _ => Valid::fail("expected Object type").trace(ty.as_str()),
            },
            JsonSchema::Arr(a) => match other {
                JsonSchema::Arr(b) => a.compare(b, name, ty, cfg_module),
                _ => Valid::fail("expected Non repeatable type").trace(name),
            },
            JsonSchema::Opt(a) => match other {
                JsonSchema::Opt(b) => a.compare(b, name, ty, cfg_module),
                _ => Valid::fail("expected type to be required").trace(name),
            },
            JsonSchema::Str => match other {
                JsonSchema::Str => Valid::succeed(),
                _ => {
                    let d = other.debug_string();
                    let msg = concat_str("expected String, got ", d.as_str());
                    Valid::fail(msg.as_str()).trace(name)
                },
            },
            JsonSchema::Num => match other {
                JsonSchema::Num => Valid::succeed(),
                _ => {
                    let d = other.debug_string();
                    let msg = concat_str("expected Number, got ", d.as_str());
                    Valid::fail(msg.as_str()).trace(name)
                },
            },
            JsonSchema::Bool => match other {
                JsonSchema::Bool => Valid::succeed(),
                _ => {
                    let d = other.debug_string();
                    let msg = concat_str("expected Boolean, got ", d.as_str());
                    Valid::fail(msg.as_str()).trace(name)
                },
            },
            JsonSchema::Enum(a) => match other {
                JsonSchema::Enum(b) => if !a.same_as(b) {
                    Valid::fail("expected Enum type").trace(name)
                } else {
                    Valid::succeed()
                },
                _ => Valid::succeed(),
            },
        }
    }
}


/// The names of a model's fields.
pub open spec fn model_keys(f: Seq<(Seq<char>, SchemaModel)>) -> Seq<Seq<char>> {
    f.map_values(|e: (Seq<char>, SchemaModel)| e.0)
}

/// The fields after setting `key` to `value` as a map does: the field of
/// that name gets the new schema in place, or a new field goes last.
pub open spec fn insert_model(f: Seq<(Seq<char>, SchemaModel)>, key: Seq<char>, value: SchemaModel) -> Seq<
    (Seq<char>, SchemaModel),
> {
    let i = first_index(model_keys(f), key);
    if 0 <= i < f.len() {
        f.update(i, (key, value))
    } else {
        f.push((key, value))
    }
}

/// The fields after setting each of the first `n` entries in turn.
pub open spec fn build_model(entries: Seq<(Seq<char>, SchemaModel)>, n: nat) -> Seq<
    (Seq<char>, SchemaModel),
>
    decreases n,
{
    if n == 0 || n > entries.len() {
        seq![]
    } else {
        insert_model(build_model(entries, (n - 1) as nat), entries[n - 1].0, entries[n - 1].1)
    }
}

/// Sets field `key` of `fields` to `value` as a map does.
fn insert_field(fields: &mut Vec<(String, JsonSchema)>, key: String, value: JsonSchema)
    ensures
        fields_model(final(fields)@) == insert_model(fields_model(old(fields)@), key@, value@),
{
    proof {
        lemma_fields_model(old(fields)@);
        lemma_fields_model_keys(old(fields)@);
    }
    let ghost before = fields_model(fields@);
    match find_key(fields, &key) {
        Some(i) => {
            let ghost k = key@;
            let ghost v = value@;
            fields.set(i, (key, value));
            proof {
                lemma_fields_model(fields@);
                assert(fields_model(fields@) =~= before.update(i as int, (k, v)));
            }
        },
        None => {
            let ghost k = key@;
            let ghost v = value@;
            fields.push((key, value));
            proof {
                lemma_fields_model(fields@);
                assert(fields_model(fields@) =~= before.push((k, v)));
            }
        },
    }
}

impl JsonSchema {
    /// An object schema built from `(name, schema)` entries as a map is
    /// built from them: a repeated name keeps its place and takes the later
    /// schema.
    pub fn from_entries(entries: Vec<(String, JsonSchema)>) -> (r: JsonSchema)
        ensures
            r@ == SchemaModel::Obj(build_model(fields_model(entries@), entries@.len())),
    {
        let ghost em = fields_model(entries@);
        proof {
            lemma_fields_model(entries@);
        }
        let mut rest = entries;
        let ghost all = rest@;
        let total = rest.len();
        assert(all.len() == total);
        let mut fields: Vec<(String, JsonSchema)> = Vec::new();
        let mut n: usize = 0;
        while rest.len() > 0
            invariant
                n + rest@.len() == all.len(),
                all.len() <= usize::MAX,
                rest@ == all.subrange(n as int, all.len() as int),
                em == fields_model(all),
                em.len() == all.len(),
                forall|i: int|
                    0 <= i < all.len() ==> #[trigger] em[i] == (all[i].0@, schema_model(all[i].1)),
                fields_model(fields@) == build_model(em, n as nat),
            decreases rest@.len(),
        {
            let (key, value) = rest.remove(0);
            assert(all[n as int] == (key, value));
            insert_field(&mut fields, key, value);
            n = n + 1;
            assert(rest@ =~= all.subrange(n as int, all.len() as int));
        }
        JsonSchema::Obj(fields)
    }
}

impl Default for JsonSchema {
    /// An object schema with no fields.
    fn default() -> (r: JsonSchema)
        ensures
            r@ == SchemaModel::Obj(seq![]),
    {
        let r = JsonSchema::Obj(Vec::new());
        assert(fields_model(Seq::<(String, JsonSchema)>::empty()) =~= seq![]);
        r
    }
}


/// The schema of a protobuf message: an object with a field per message
/// field, named in camel case.
pub open spec fn message_model(m: ProtoMessage) -> SchemaModel
    decreases m, 0nat,
{
    SchemaModel::Obj(build_model(proto_entries_model(m.fields@), m.fields@.len()))
}

/// The `(camel-case name, schema)` entry of each message field.
pub open spec fn proto_entries_model(fields: Seq<ProtoField>) -> Seq<(Seq<char>, SchemaModel)>
    decreases fields, 0nat,
{
    if fields.len() == 0 {
        seq![]
    } else {
        proto_entries_model(fields.drop_last()) + seq![
            (camel_case(fields.last().name@), field_model(fields.last())),
        ]
    }
}

/// Each message field's entry is its camel-case name and its schema.
pub proof fn lemma_proto_entries_model(f: Seq<ProtoField>)
    ensures
        proto_entries_model(f).len() == f.len(),
        forall|i: int|
            0 <= i < f.len() ==> #[trigger] proto_entries_model(f)[i] == (
                camel_case(f[i].name@),
                field_model(f[i]),
            ),
    decreases f.len(),
{
    if f.len() > 0 {
        lemma_proto_entries_model(f.drop_last());
    }
}

/// The schema of a protobuf enum: the set of its value names.
pub open spec fn enum_model(e: ProtoEnum) -> SchemaModel {
    SchemaModel::Enum(sorted_names(strings_model(e.values@).to_set()))
}

/// The schema of a protobuf field: numbers, booleans, strings and bytes map
/// to `Num`, `Bool` and `Str`, messages and enums to their schemas; an
/// optional field is wrapped in `Opt`, and a list field then in `Arr`.
pub open spec fn field_model(f: ProtoField) -> SchemaModel
    decreases f, 0nat,
{
    let base = match f.kind {
        ProtoKind::Bool => SchemaModel::Bool,
        ProtoKind::String => SchemaModel::Str,
        ProtoKind::Bytes => SchemaModel::Str,
        ProtoKind::Message(m) => message_model(m),
        ProtoKind::Enum(e) => enum_model(e),
        _ => SchemaModel::Num,
    };
    let b = if f.optional {
        SchemaModel::Opt(Box::new(base))
    } else {
        base
    };
    if f.list {
        SchemaModel::Arr(Box::new(b))
    } else {
        b
    }
}

impl JsonSchema {
    /// The schema of a protobuf enum.
    pub fn from_enum(e: &ProtoEnum) -> (r: JsonSchema)
        ensures
            r@ == enum_model(*e),
    {
        let mut set = NameSet::new();
        let ghost vs = strings_model(e.values@);
        let mut i: usize = 0;
        while i < e.values.len()
            invariant
                i <= e.values@.len(),
                vs == strings_model(e.values@),
                strictly_sorted(set@),
                forall|x: Seq<char>|
                    #[trigger] set@.to_set().contains(x) <==> exists|j: int|
                        0 <= j < i && vs[j] == x,
            decreases e.values@.len() - i,
        {
            let ghost before = set@;
            set.insert(e.values[i].clone());
            proof {
                assert(vs[i as int] == e.values@[i as int]@);
                assert forall|x: Seq<char>| #[trigger] set@.to_set().contains(x) <==> exists|j: int|
                    0 <= j < i + 1 && vs[j] == x by {
                    if set@.to_set().contains(x) && x != vs[i as int] {
                        assert(before.to_set().contains(x));
                    }
                    if exists|j: int| 0 <= j < i + 1 && vs[j] == x {
                        let j = choose|j: int| 0 <= j < i + 1 && vs[j] == x;
                        if j < i {
                            assert(before.to_set().contains(x));
                        }
                    }
                }
            }
            i = i + 1;
        }
        proof {
            assert(set@.to_set() =~= vs.to_set()) by {
                assert forall|x: Seq<char>| set@.to_set().contains(x) implies vs.to_set().contains(x) by {
                    let j = choose|j: int| 0 <= j < i && vs[j] == x;
                }
            }
            let t = sorted_names(vs.to_set());
            assert(strictly_sorted(set@) && set@.to_set() == vs.to_set());
            lemma_sorted_set_eq(t, set@);
        }
        JsonSchema::Enum(set)
    }

    /// The schema of a protobuf message: the object built by
    /// `from_entries` from each field's camel-case name and schema.
    pub fn from_message(m: &ProtoMessage) -> (r: JsonSchema)
        ensures
            r@ == message_model(*m),
        decreases m,
    {
        let mut entries: Vec<(String, JsonSchema)> = Vec::new();
        let mut i: usize = 0;
        while i < m.fields.len()
            invariant
                i <= m.fields@.len(),
                entries@.len() == i,
                forall|j: int|
                    0 <= j < i ==> #[trigger] entries@[j].0@ == camel_case(m.fields@[j].name@)
                        && entries@[j].1@ == field_model(m.fields@[j]),
            decreases m.fields@.len() - i,
        {
            let f = &m.fields[i];
            proof {
                assert(decreases_to!(m.fields@ => m.fields@[i as int]));
            }
            let key = to_camel_case(f.name.as_str());
            let schema = JsonSchema::from_field(f);
            entries.push((key, schema));
            i = i + 1;
        }
        proof {
            lemma_fields_model(entries@);
            lemma_proto_entries_model(m.fields@);
            assert(fields_model(entries@) =~= proto_entries_model(m.fields@));
        }
        JsonSchema::from_entries(entries)
    }

    /// The schema of a protobuf field.
    pub fn from_field(f: &ProtoField) -> (r: JsonSchema)
        ensures
            r@ == field_model(*f),
        decreases f,
    {
        let base = match &f.kind {
            ProtoKind::Bool => JsonSchema::Bool,
            ProtoKind::String => JsonSchema::Str,
            ProtoKind::Bytes => JsonSchema::Str,
            ProtoKind::Message(m) => JsonSchema::from_message(m),
            ProtoKind::Enum(e) => JsonSchema::from_enum(e),
            _ => JsonSchema::Num,
        };
        let ghost base_model = match &f.kind {
            ProtoKind::Bool => SchemaModel::Bool,
            ProtoKind::String => SchemaModel::Str,
            ProtoKind::Bytes => SchemaModel::Str,
            ProtoKind::Message(m) => message_model(*m),
            ProtoKind::Enum(e) => enum_model(*e),
            _ => SchemaModel::Num,
        };
        assert(base@ == base_model);
        let b = if f.optional {
            JsonSchema::Opt(Box::new(base))
        } else {
            base
        };
        let ghost b_model = if f.optional {
            SchemaModel::Opt(Box::new(base_model))
        } else {
            base_model
        };
        assert(b@ == b_model);
        assert(field_model(*f) == if f.list {
            SchemaModel::Arr(Box::new(b_model))
        } else {
            b_model
        });
        if f.list {
            JsonSchema::Arr(Box::new(b))
        } else {
            b
        }
    }
}


/// A schema made optional accepts null, and checks any other value as the
/// schema itself does.
pub proof fn law_optional_accepts_null(s: SchemaModel, v: Value)
    ensures
        validate_model(SchemaModel::Opt(Box::new(s)), Value::Null) == Seq::<CauseModel>::empty(),
        !(v is Null) ==> validate_model(SchemaModel::Opt(Box::new(s)), v) == validate_model(s, v),
{
}

/// Entry `j` is the last of the first `n` entries with its name.
pub open spec fn last_given(e: Seq<(Seq<char>, SchemaModel)>, n: nat, j: int) -> bool {
    &&& 0 <= j < n
    &&& forall|l: int| j < l < n ==> #[trigger] e[l].0 != e[j].0
}

/// Building an object from entries gives a map: no name twice, the names
/// given and no others, and each name with the last schema given for it.
pub proof fn law_from_entries_is_map(e: Seq<(Seq<char>, SchemaModel)>, n: nat)
    requires
        n <= e.len(),
    ensures
        model_keys(build_model(e, n)).no_duplicates(),
        model_keys(build_model(e, n)).to_set() == model_keys(e.take(n as int)).to_set(),
        forall|j: int|
            #[trigger] last_given(e, n, j) ==> exists|i: int|
                0 <= i < build_model(e, n).len() && #[trigger] build_model(e, n)[i] == e[j],
    decreases n,
{
    if n > 0 {
        let m = (n - 1) as nat;
        law_from_entries_is_map(e, m);
        let f = build_model(e, m);
        let k = e[m as int].0;
        let v = e[m as int].1;
        let b = build_model(e, n);
        assert(b == insert_model(f, k, v));
        let i = first_index(model_keys(f), k);
        lemma_first_index(model_keys(f), k);
        assert(e.take(n as int) =~= e.take(m as int).push((k, v)));
        assert(model_keys(e.take(n as int)) =~= model_keys(e.take(m as int)).push(k));
        model_keys(e.take(m as int)).lemma_push_to_set_commute(k);
        if 0 <= i < f.len() {
            assert(b == f.update(i, (k, v)));
            assert(model_keys(b) =~= model_keys(f));
            assert(model_keys(f).to_set().contains(k)) by {
                assert(model_keys(f)[i] == k);
            }
            assert(model_keys(e.take(n as int)).to_set() =~= model_keys(e.take(
                m as int,
            )).to_set().insert(k));
            assert forall|j: int| #[trigger] last_given(e, n, j) implies exists|c: int|
                0 <= c < b.len() && #[trigger] b[c] == e[j] by {
                if j == m {
                    assert(b[i] == e[j]);
                } else {
                    assert(last_given(e, m, j));
                    let c = choose|c: int| 0 <= c < f.len() && #[trigger] f[c] == e[j];
                    assert(e[m as int].0 != e[j].0);
                    assert(model_keys(f)[c] == e[j].0);
                    assert(c != i);
                    assert(b[c] == e[j]);
                }
            }
        } else {
            assert(b == f.push((k, v)));
            assert(model_keys(b) =~= model_keys(f).push(k));
            model_keys(f).lemma_push_to_set_commute(k);
            assert(!model_keys(f).contains(k));
            assert(model_keys(e.take(n as int)).to_set() =~= model_keys(e.take(
                m as int,
            )).to_set().insert(k));
            assert(model_keys(b).to_set() =~= model_keys(f).to_set().insert(k));
            assert forall|j: int| #[trigger] last_given(e, n, j) implies exists|c: int|
                0 <= c < b.len() && #[trigger] b[c] == e[j] by {
                if j == m {
                    assert(b[f.len() as int] == e[j]);
                } else {
                    assert(last_given(e, m, j));
                    let c = choose|c: int| 0 <= c < f.len() && #[trigger] f[c] == e[j];
                    assert(b[c] == e[j]);
                }
            }
        }
    } else {
        assert(model_keys(build_model(e, n)) =~= Seq::<Seq<char>>::empty());
        assert(model_keys(e.take(0)) =~= Seq::<Seq<char>>::empty());
    }
}


/// The schema holds no object schema at any depth.
pub open spec fn holds_no_object(s: SchemaModel) -> bool
    decreases s,
{
    match s {
        SchemaModel::Obj(_) => false,
        SchemaModel::Arr(x) => holds_no_object(*x),
        SchemaModel::Opt(x) => holds_no_object(*x),
        _ => true,
    }
}

/// A schema without objects compares equal to itself: no cause is
/// reported, whatever the configuration.
pub proof fn law_compare_reflexive(s: SchemaModel, name: Seq<char>, ty: Seq<char>, cfg: ConfigModule)
    requires
        holds_no_object(s),
    ensures
        compare_model(s, s, name, ty, cfg) == Seq::<CauseModel>::empty(),
    decreases s,
{
    match s {
        SchemaModel::Arr(x) => law_compare_reflexive(*x, name, ty, cfg),
        SchemaModel::Opt(x) => law_compare_reflexive(*x, name, ty, cfg),
        _ => {},
    }
}

impl Clone for JsonSchema {
    #[verifier::loop_isolation(false)]
    fn clone(&self) -> (r: JsonSchema)
        ensures
            r@ == self@,
        decreases self,
    {
        match self {
            JsonSchema::Obj(fields) => {
                let mut out: Vec<(String, JsonSchema)> = Vec::new();
                let mut k: usize = 0;
                while k < fields.len()
                    invariant
                        k <= fields@.len(),
                        out@.len() == k,
                        forall|i: int|
                            0 <= i < k ==> #[trigger] out@[i].0@ == fields@[i].0@ && out@[i].1@
                                == fields@[i].1@,
                    decreases fields@.len() - k,
                {
                    proof {
                        assert(decreases_to!(fields@ => fields@[k as int]));
                    }
                    let name = fields[k].0.clone();
                    let schema = fields[k].1.clone();
                    out.push((name, schema));
                    k = k + 1;
                }
                proof {
                    lemma_fields_model(out@);
                    lemma_fields_model(fields@);
                    assert(fields_model(out@) =~= fields_model(fields@));
                }
                JsonSchema::Obj(out)
            },
            JsonSchema::Arr(x) => JsonSchema::Arr(Box::new((**x).clone())),
            JsonSchema::Opt(x) => JsonSchema::Opt(Box::new((**x).clone())),
            JsonSchema::Enum(n) => JsonSchema::Enum(n.clone()),
            JsonSchema::Str => JsonSchema::Str,
            JsonSchema::Num => JsonSchema::Num,
            JsonSchema::Bool => JsonSchema::Bool,
        }
    }
}

/// Two schemas are equal, objects compared as maps are: the same number of
/// fields, and for each field here the other's field of that name has an
/// equal schema.
pub open spec fn schema_eq(a: SchemaModel, b: SchemaModel) -> bool
    decreases a, 0nat,
{
    match a {
        SchemaModel::Obj(af) => match b {
            SchemaModel::Obj(bf) => af.len() == bf.len() && fields_eq(af, bf, af.len()),
            _ => false,
        },
        SchemaModel::Arr(x) => match b {
            SchemaModel::Arr(y) => schema_eq(*x, *y),
            _ => false,
        },
        SchemaModel::Opt(x) => match b {
            SchemaModel::Opt(y) => schema_eq(*x, *y),
            _ => false,
        },
        SchemaModel::Enum(x) => match b {
            SchemaModel::Enum(y) => x == y,
            _ => false,
        },
        SchemaModel::Str => b is Str,
        SchemaModel::Num => b is Num,
        SchemaModel::Bool => b is Bool,
    }
}

/// Each of the first `n` fields of `af` has a field of the same name in
/// `bf` with an equal schema.
pub open spec fn fields_eq(
    af: Seq<(Seq<char>, SchemaModel)>,
    bf: Seq<(Seq<char>, SchemaModel)>,
    n: nat,
) -> bool
    decreases af, n,
{
    if n == 0 {
        true
    } else if n > af.len() {
        false
    } else {
        fields_eq(af, bf, (n - 1) as nat) && {
            let i = first_index(model_keys(bf), af[n - 1].0);
            0 <= i < bf.len() && schema_eq(af[n - 1].1, bf[i].1)
        }
    }
}

/// A prefix of fields that match matches too.
pub proof fn lemma_fields_eq_prefix(
    af: Seq<(Seq<char>, SchemaModel)>,
    bf: Seq<(Seq<char>, SchemaModel)>,
    m: nat,
    n: nat,
)
    requires
        m <= n,
        fields_eq(af, bf, n),
    ensures
        fields_eq(af, bf, m),
    decreases n,
{
    if m < n {
        lemma_fields_eq_prefix(af, bf, m, (n - 1) as nat);
    }
}

impl JsonSchema {
    /// Whether the schemas are equal, objects compared as maps.
    #[verifier::loop_isolation(false)]
    pub fn same_schema(&self, other: &JsonSchema) -> (r: bool)
        ensures
            r == schema_eq(self@, other@),
        decreases self,
    {
        match self {
            JsonSchema::Obj(a) => match other {
                JsonSchema::Obj(b) => {
                    proof {
                        lemma_fields_model(a@);
                        lemma_fields_model(b@);
                        lemma_fields_model_keys(b@);
                    }
                    let ghost am = fields_model(a@);
                    let ghost bm = fields_model(b@);
                    if a.len() != b.len() {
                        return false;
                    }
                    let mut k: usize = 0;
                    while k < a.len()
                        invariant
                            k <= a@.len(),
                            fields_eq(am, bm, k as nat),
                        decreases a@.len() - k,
                    {
                        let key = &a[k].0;
                        assert(am[k as int] == (key@, a@[k as int].1@));
                        proof {
                            assert(decreases_to!(a@ => a@[k as int]));
                        }
                        let same = match find_key(b, key) {
                            Some(i) => {
                                assert(bm[i as int] == (b@[i as int].0@, b@[i as int].1@));
                                a[k].1.same_schema(&b[i].1)
                            },
                            None => false,
                        };
                        if !same {
                            proof {
                                if fields_eq(am, bm, am.len()) {
                                    lemma_fields_eq_prefix(am, bm, (k + 1) as nat, am.len());
                                }
                            }
                            return false;
                        }
                        k = k + 1;
                    }
                    true
                },
                _ => false,
            },
            JsonSchema::Arr(x) => match other {
                JsonSchema::Arr(y) => x.same_schema(y),
                _ => false,
            },
            JsonSchema::Opt(x) => match other {
                JsonSchema::Opt(y) => x.same_schema(y),
                _ => false,
            },
            JsonSchema::Enum(x) => match other {
                JsonSchema::Enum(y) => x.same_as(y),
                _ => false,
            },
            JsonSchema::Str => match other {
                JsonSchema::Str => true,
                _ => false,
            },
            JsonSchema::Num => match other {
                JsonSchema::Num => true,
                _ => false,
            },
            JsonSchema::Bool => match other {
                JsonSchema::Bool => true,
                _ => false,
            },
        }
    }
}

/// A scalar schema accepts exactly the values of its own kind: `Str` the
/// strings, `Num` the numbers, `Bool` the booleans. Any other value gives
/// exactly one cause, naming the expected kind, with an empty trail.
pub proof fn law_scalar_schemas(v: Value)
    ensures
        (validate_model(SchemaModel::Str, v).len() == 0) <==> (v is String),
        (validate_model(SchemaModel::Num, v).len() == 0) <==> (v is Number),
        (validate_model(SchemaModel::Bool, v).len() == 0) <==> (v is Boolean),
        !(v is String) ==> validate_model(SchemaModel::Str, v) == seq![
            CauseModel { message: "expected string"@, trace: seq![] },
        ],
        !(v is Number) ==> validate_model(SchemaModel::Num, v) == seq![
            CauseModel { message: "expected number"@, trace: seq![] },
        ],
        !(v is Boolean) ==> validate_model(SchemaModel::Bool, v) == seq![
            CauseModel { message: "expected boolean"@, trace: seq![] },
        ],
{
}

/// An enum schema accepts every value.
pub proof fn law_enum_accepts_all(names: Seq<Seq<char>>, v: Value)
    ensures
        validate_model(SchemaModel::Enum(names), v).len() == 0,
{
}

/// The schema holds neither an object nor an enum schema at any depth:
/// it is built of `Str`, `Num` and `Bool` under `Arr` and `Opt`.
pub open spec fn is_plain(s: SchemaModel) -> bool
    decreases s,
{
    match s {
        SchemaModel::Arr(x) => is_plain(*x),
        SchemaModel::Opt(x) => is_plain(*x),
        SchemaModel::Str => true,
        SchemaModel::Num => true,
        SchemaModel::Bool => true,
        _ => false,
    }
}

/// Comparing two plain schemas reports nothing exactly when they are the
/// same schema: lists and optionals are compared by what they hold, so
/// `Arr(Num)` against `Arr(Str)` reports a cause.
pub proof fn law_compare_plain(
    a: SchemaModel,
    b: SchemaModel,
    name: Seq<char>,
    ty: Seq<char>,
    cfg: ConfigModule,
)
    requires
        is_plain(a),
        is_plain(b),
    ensures
        (compare_model(a, b, name, ty, cfg).len() == 0) <==> (a == b),
    decreases a,
{
    match a {
        SchemaModel::Arr(x) => {
            if let SchemaModel::Arr(y) = b {
                law_compare_plain(*x, *y, name, ty, cfg);
            }
        },
        SchemaModel::Opt(x) => {
            if let SchemaModel::Opt(y) = b {
                law_compare_plain(*x, *y, name, ty, cfg);
            }
        },
        _ => {},
    }
}

/// Comparing two lists, or two optionals, reports exactly the causes of
/// comparing what they hold, under the same name, type and configuration.
pub proof fn law_compare_wrapped(
    x: SchemaModel,
    y: SchemaModel,
    name: Seq<char>,
    ty: Seq<char>,
    cfg: ConfigModule,
)
    ensures
        compare_model(SchemaModel::Arr(Box::new(x)), SchemaModel::Arr(Box::new(y)), name, ty, cfg)
            == compare_model(x, y, name, ty, cfg),
        compare_model(SchemaModel::Opt(Box::new(x)), SchemaModel::Opt(Box::new(y)), name, ty, cfg)
            == compare_model(x, y, name, ty, cfg),
{
}

/// Schema equality is structural for schemas without objects: two such
/// schemas are equal exactly when they are the same schema, so `Arr(Num)`
/// differs from `Arr(Str)`, and two enums are equal exactly when they hold
/// the same names.
pub proof fn law_schema_eq_structural(a: SchemaModel, b: SchemaModel)
    requires
        holds_no_object(a),
        holds_no_object(b),
    ensures
        schema_eq(a, b) <==> (a == b),
    decreases a,
{
    match a {
        SchemaModel::Arr(x) => {
            if let SchemaModel::Arr(y) = b {
                law_schema_eq_structural(*x, *y);
            }
        },
        SchemaModel::Opt(x) => {
            if let SchemaModel::Opt(y) = b {
                law_schema_eq_structural(*x, *y);
            }
        },
        _ => {},
    }
}

/// The protobuf kinds that hold numbers.
pub open spec fn is_numeric_kind(k: ProtoKind) -> bool {
    ||| k is Double
    ||| k is Float
    ||| k is Int32
    ||| k is Int64
    ||| k is Uint32
    ||| k is Uint64
    ||| k is Sint32
    ||| k is Sint64
    ||| k is Fixed32
    ||| k is Fixed64
    ||| k is Sfixed32
    ||| k is Sfixed64
}

/// `base` made optional where the field is, then a list where it is one.
pub open spec fn wrap_field(f: ProtoField, base: SchemaModel) -> SchemaModel {
    let b = if f.optional {
        SchemaModel::Opt(Box::new(base))
    } else {
        base
    };
    if f.list {
        SchemaModel::Arr(Box::new(b))
    } else {
        b
    }
}

/// Every numeric field is a number, a boolean field a boolean, a string or
/// bytes field a string, and a message or enum field that message's or
/// enum's schema; each made optional where the field is, then a list where
/// it is one.
pub proof fn law_field_schemas(f: ProtoField)
    ensures
        is_numeric_kind(f.kind) ==> field_model(f) == wrap_field(f, SchemaModel::Num),
        f.kind is Bool ==> field_model(f) == wrap_field(f, SchemaModel::Bool),
        (f.kind is String || f.kind is Bytes) ==> field_model(f) == wrap_field(f, SchemaModel::Str),
        f.kind matches ProtoKind::Message(m) ==> field_model(f) == wrap_field(f, message_model(m)),
        f.kind matches ProtoKind::Enum(e) ==> field_model(f) == wrap_field(f, enum_model(e)),
{
}

/// A list passes a list schema exactly when each of its items passes the
/// item schema, and every cause found in it is traced first by the
/// position of the item it was found in.
pub proof fn law_list_items(item: SchemaModel, list: Vec<Value>)
    ensures
        (validate_model(SchemaModel::Arr(Box::new(item)), Value::List(list)).len() == 0) <==> (
        forall|i: int| 0 <= i < list@.len() ==> #[trigger] validate_model(item, list@[i]).len() == 0),
        forall|c: int|
            #![trigger validate_model(SchemaModel::Arr(Box::new(item)), Value::List(list))[c]]
            0 <= c < validate_model(SchemaModel::Arr(Box::new(item)), Value::List(list)).len()
                ==> exists|i: int|
                #![trigger decimal(i as nat)]
                0 <= i < list@.len() && validate_model(
                    SchemaModel::Arr(Box::new(item)),
                    Value::List(list),
                )[c].trace[0] == decimal(i as nat),
{
    lemma_items_model(item, list@, list@.len());
}

proof fn lemma_items_model(item: SchemaModel, items: Seq<Value>, n: nat)
    requires
        n <= items.len(),
    ensures
        (items_model(item, items, n).len() == 0) <==> (forall|i: int|
            0 <= i < n ==> #[trigger] validate_model(item, items[i]).len() == 0),
        forall|c: int|
            #![trigger items_model(item, items, n)[c]]
            0 <= c < items_model(item, items, n).len() ==> exists|i: int|
                #![trigger decimal(i as nat)]
                0 <= i < n && items_model(item, items, n)[c].trace[0] == decimal(i as nat),
    decreases n,
{
    if n > 0 {
        let m = (n - 1) as nat;
        lemma_items_model(item, items, m);
        let prev = items_model(item, items, m);
        let this = trace_model(validate_model(item, items[m as int]), decimal(m));
        assert(items_model(item, items, n) == prev + this);
        if forall|i: int| 0 <= i < n ==> #[trigger] validate_model(item, items[i]).len() == 0 {
            assert(validate_model(item, items[m as int]).len() == 0);
        }
        assert forall|c: int|
            #![trigger items_model(item, items, n)[c]]
            0 <= c < items_model(item, items, n).len() implies exists|i: int|
                #![trigger decimal(i as nat)]
                0 <= i < n && items_model(item, items, n)[c].trace[0] == decimal(i as nat) by {
            if c < prev.len() {
                assert(items_model(item, items, n)[c] == prev[c]);
                let i = choose|i: int| #![trigger decimal(i as nat)] 0 <= i < m && prev[c].trace[0] == decimal(i as nat);
                assert(items_model(item, items, n)[c].trace[0] == decimal(i as nat));
            } else {
                assert(items_model(item, items, n)[c] == this[c - prev.len()]);
                assert(this[c - prev.len()].trace[0] == decimal(m));
                assert(items_model(item, items, n)[c].trace[0] == decimal(m as int as nat));
            }
        }
    }
}

/// An object passes an object schema exactly when each field of the
/// schema is satisfied: a field that the object has passes the field's
/// schema, and a field that it lacks is optional.
pub proof fn law_object_fields(fields: Seq<(Seq<char>, SchemaModel)>, object: Vec<(String, Value)>)
    ensures
        (validate_model(SchemaModel::Obj(fields), Value::Object(object)).len() == 0) <==> (
        forall|k: int| 0 <= k < fields.len() ==> #[trigger] field_satisfied(fields[k], object@)),
{
    lemma_fields_check(fields, object@, fields.len());
}

/// The object's entries satisfy one field of an object schema.
pub open spec fn field_satisfied(field: (Seq<char>, SchemaModel), entries: Seq<(String, Value)>) -> bool {
    match lookup(entries, field.0) {
        Some(v) => validate_model(field.1, v).len() == 0,
        None => field.1 is Opt,
    }
}

proof fn lemma_fields_check(
    fields: Seq<(Seq<char>, SchemaModel)>,
    entries: Seq<(String, Value)>,
    n: nat,
)
    requires
        n <= fields.len(),
    ensures
        (fields_check_model(fields, entries, n).len() == 0) <==> (forall|k: int|
            0 <= k < n ==> #[trigger] field_satisfied(fields[k], entries)),
    decreases n,
{
    if n > 0 {
        let m = (n - 1) as nat;
        lemma_fields_check(fields, entries, m);
        if forall|k: int| 0 <= k < n ==> #[trigger] field_satisfied(fields[k], entries) {
            assert(field_satisfied(fields[m as int], entries));
        }
    }
}

} // verus!
