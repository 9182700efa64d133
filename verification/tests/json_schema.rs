use tailcall::config::{ConfigModule, Field, Type};
use tailcall::json_schema::JsonSchema;
use tailcall::names::NameSet;
use tailcall::proto::{ProtoEnum, ProtoField, ProtoKind, ProtoMessage};
use tailcall::valid::Valid;
use tailcall::value::Value;

fn obj(entries: Vec<(&str, JsonSchema)>) -> JsonSchema {
    JsonSchema::from_entries(entries.into_iter().map(|(k, v)| (k.to_string(), v)).collect())
}

fn object(entries: Vec<(&str, Value)>) -> Value {
    Value::Object(entries.into_iter().map(|(k, v)| (k.to_string(), v)).collect())
}

fn names(values: &[&str]) -> NameSet {
    let mut set = NameSet::new();
    for v in values {
        set.insert(v.to_string());
    }
    set
}

#[test]
fn test_validate_string() {
    let schema = JsonSchema::Str;
    let value = Value::String("hello".to_string());
    let result = schema.validate(&value);
    assert_eq!(result, Valid::succeed());
}

#[test]
fn test_validate_valid_object() {
    let schema = obj(vec![("name", JsonSchema::Str), ("age", JsonSchema::Num)]);
    let value = object(vec![
        ("name", Value::String("hello".to_string())),
        ("age", Value::Number(1.into())),
    ]);
    let result = schema.validate(&value);
    assert_eq!(result, Valid::succeed());
}

#[test]
fn test_validate_invalid_object() {
    let schema = obj(vec![("name", JsonSchema::Str), ("age", JsonSchema::Num)]);
    let value = object(vec![
        ("name", Value::String("hello".to_string())),
        ("age", Value::String("1".to_string())),
    ]);
    let result = schema.validate(&value);
    assert_eq!(result, Valid::fail("expected number").trace("age"));
}

#[test]
fn test_null_key() {
    let schema = obj(vec![
        ("name", JsonSchema::Str.optional()),
        ("age", JsonSchema::Num),
    ]);
    let value = object(vec![("age", Value::Number(1.into()))]);
    let result = schema.validate(&value);
    assert_eq!(result, Valid::succeed());
}

#[test]
fn validate_reports_each_wrong_kind() {
    assert_eq!(
        JsonSchema::Num.validate(&Value::Null),
        Valid::fail("expected number")
    );
    assert_eq!(
        JsonSchema::Bool.validate(&Value::String("true".to_string())),
        Valid::fail("expected boolean")
    );
    assert_eq!(
        JsonSchema::Str.validate(&Value::Boolean(true)),
        Valid::fail("expected string")
    );
    assert_eq!(
        JsonSchema::Arr(Box::new(JsonSchema::Num)).validate(&Value::Null),
        Valid::fail("expected array")
    );
    assert_eq!(
        obj(vec![]).validate(&Value::List(vec![])),
        Valid::fail("expected object")
    );
}

#[test]
fn validate_traces_list_positions() {
    let schema = JsonSchema::Arr(Box::new(JsonSchema::Num));
    let value = Value::List(vec![
        Value::Number(1.into()),
        Value::String("x".to_string()),
        Value::Number(2.into()),
        Value::Null,
    ]);
    let expected = Valid::fail("expected number")
        .trace("1")
        .combine(Valid::fail("expected number").trace("3"));
    assert_eq!(schema.validate(&value), expected);
}

#[test]
fn validate_traces_list_positions_past_ten() {
    let schema = JsonSchema::Arr(Box::new(JsonSchema::Bool));
    let mut items: Vec<Value> = (0..12).map(|_| Value::Boolean(true)).collect();
    items[11] = Value::Null;
    let result = schema.validate(&Value::List(items));
    assert_eq!(result, Valid::fail("expected boolean").trace("11"));
}

#[test]
fn validate_nested_trail_is_outermost_first() {
    let schema = obj(vec![(
        "posts",
        JsonSchema::Arr(Box::new(obj(vec![("id", JsonSchema::Num)]))),
    )]);
    let value = object(vec![(
        "posts",
        Value::List(vec![object(vec![("id", Value::Null)])]),
    )]);
    let result = schema.validate(&value);
    assert_eq!(
        result,
        Valid::fail("expected number").trace("id").trace("0").trace("posts")
    );
    let cause = &result.causes()[0];
    assert_eq!(cause.trace, vec!["posts".to_string(), "0".to_string(), "id".to_string()]);
}

#[test]
fn validate_missing_required_field() {
    let schema = obj(vec![("name", JsonSchema::Str), ("age", JsonSchema::Num)]);
    let value = object(vec![]);
    let expected = Valid::fail("expected field to be non-nullable")
        .trace("name")
        .combine(Valid::fail("expected field to be non-nullable").trace("age"));
    assert_eq!(schema.validate(&value), expected);
}

#[test]
fn optional_accepts_null_and_checks_the_rest() {
    let schema = JsonSchema::Num.optional();
    assert!(schema.is_optional());
    assert!(!schema.is_required());
    assert!(JsonSchema::Num.is_required());
    assert_eq!(schema.validate(&Value::Null), Valid::succeed());
    assert_eq!(
        schema.validate(&Value::Boolean(false)),
        Valid::fail("expected number")
    );
}

#[test]
fn enum_schema_accepts_any_value() {
    let schema = JsonSchema::Enum(names(&["A", "B"]));
    assert!(schema.validate(&Value::Null).is_succeed());
    assert!(schema.validate(&Value::Number(3.into())).is_succeed());
}

#[test]
fn from_entries_keeps_the_last_schema_of_a_name() {
    let schema = obj(vec![
        ("a", JsonSchema::Str),
        ("b", JsonSchema::Num),
        ("a", JsonSchema::Bool),
    ]);
    assert_eq!(
        schema,
        JsonSchema::Obj(vec![
            ("a".to_string(), JsonSchema::Bool),
            ("b".to_string(), JsonSchema::Num),
        ])
    );
}

#[test]
fn default_is_an_empty_object() {
    assert_eq!(JsonSchema::default(), JsonSchema::Obj(vec![]));
}

#[test]
fn name_set_is_sorted_without_repeats() {
    let set = names(&["b", "a", "c", "a", "ab"]);
    assert_eq!(
        set.names(),
        &vec!["a".to_string(), "ab".to_string(), "b".to_string(), "c".to_string()]
    );
    assert!(set.same_as(&names(&["c", "ab", "b", "a"])));
    assert!(!set.same_as(&names(&["a", "b", "c"])));
}

#[test]
fn debug_string_matches_debug_format() {
    let schema = JsonSchema::Opt(Box::new(obj(vec![
        ("say \"hi\"", JsonSchema::Arr(Box::new(JsonSchema::Str))),
        ("kind", JsonSchema::Enum(names(&["B", "A"]))),
    ])));
    assert_eq!(
        schema.debug_string(),
        "Opt(Obj({\"say \\\"hi\\\"\": Arr(Str), \"kind\": Enum({\"A\", \"B\"})}))"
    );
    assert_eq!(format!("{:?}", JsonSchema::Num), JsonSchema::Num.debug_string());
}

fn config() -> ConfigModule {
    ConfigModule {
        types: vec![
            (
                "Post".to_string(),
                Type {
                    fields: vec![
                        ("id".to_string(), Field { type_of: "Int".to_string() }),
                        ("title".to_string(), Field { type_of: "String".to_string() }),
                        ("author".to_string(), Field { type_of: "User".to_string() }),
                    ],
                },
            ),
            (
                "User".to_string(),
                Type {
                    fields: vec![("name".to_string(), Field { type_of: "String".to_string() })],
                },
            ),
        ],
    }
}

#[test]
fn compare_equal_objects() {
    let a = obj(vec![
        ("id", JsonSchema::Num),
        ("title", JsonSchema::Str.optional()),
        ("author", obj(vec![("name", JsonSchema::Str)])),
    ]);
    let b = obj(vec![
        ("id", JsonSchema::Num),
        ("title", JsonSchema::Str.optional()),
        ("author", obj(vec![("name", JsonSchema::Str)])),
    ]);
    assert_eq!(a.compare(&b, "post", "Post".to_string(), &config()), Valid::succeed());
}

#[test]
fn compare_reports_type_mismatches() {
    let a = obj(vec![
        ("id", JsonSchema::Num),
        ("title", JsonSchema::Str.optional()),
        ("author", obj(vec![("name", JsonSchema::Str)])),
    ]);
    let b = obj(vec![
        ("id", JsonSchema::Str),
        ("title", JsonSchema::Str),
        ("author", obj(vec![("name", JsonSchema::Bool)])),
    ]);
    let expected = Valid::fail("expected Number, got Str")
        .trace("id")
        .combine(Valid::fail("expected type to be required").trace("title"))
        .combine(Valid::fail("expected String, got Bool").trace("name"));
    assert_eq!(a.compare(&b, "post", "Post".to_string(), &config()), expected);
}

#[test]
fn compare_reports_missing_keys() {
    let a = obj(vec![("id", JsonSchema::Num)]);
    let b = obj(vec![("title", JsonSchema::Str), ("extra", JsonSchema::Num)]);
    let expected = Valid::fail("missing key: title")
        .combine(Valid::fail("missing key: extra").trace("Post"));
    assert_eq!(a.compare(&b, "post", "Post".to_string(), &config()), expected);
}

#[test]
fn compare_reports_shape_mismatches() {
    let cfg = config();
    assert_eq!(
        obj(vec![]).compare(&JsonSchema::Num, "f", "Post".to_string(), &cfg),
        Valid::fail("expected Object type").trace("Post")
    );
    assert_eq!(
        JsonSchema::Arr(Box::new(JsonSchema::Num)).compare(&JsonSchema::Num, "f", "T".to_string(), &cfg),
        Valid::fail("expected Non repeatable type").trace("f")
    );
    assert_eq!(
        JsonSchema::Str.compare(&obj(vec![("a", JsonSchema::Num)]), "f", "T".to_string(), &cfg),
        Valid::fail("expected String, got Obj({\"a\": Num})").trace("f")
    );
    assert_eq!(
        JsonSchema::Bool.compare(&JsonSchema::Num, "f", "T".to_string(), &cfg),
        Valid::fail("expected Boolean, got Num").trace("f")
    );
}

#[test]
fn compare_enums_by_their_sets() {
    let cfg = config();
    let a = JsonSchema::Enum(names(&["A", "B"]));
    assert!(a
        .compare(&JsonSchema::Enum(names(&["B", "A"])), "f", "T".to_string(), &cfg)
        .is_succeed());
    assert_eq!(
        a.compare(&JsonSchema::Enum(names(&["A"])), "f", "T".to_string(), &cfg),
        Valid::fail("expected Enum type").trace("f")
    );
    assert!(a.compare(&JsonSchema::Num, "f", "T".to_string(), &cfg).is_succeed());
}

fn field(name: &str, kind: ProtoKind, optional: bool, list: bool) -> ProtoField {
    ProtoField { name: name.to_string(), kind, optional, list }
}

#[test]
fn from_message_of_a_news_item() {
    let message = ProtoMessage {
        fields: vec![
            field("id", ProtoKind::Int32, true, false),
            field("title", ProtoKind::String, true, false),
            field("body", ProtoKind::String, true, false),
            field("post_image", ProtoKind::String, true, false),
        ],
    };
    let schema = JsonSchema::from_message(&message);
    assert_eq!(
        schema,
        JsonSchema::Obj(vec![
            ("id".to_string(), JsonSchema::Opt(Box::new(JsonSchema::Num))),
            ("title".to_string(), JsonSchema::Opt(Box::new(JsonSchema::Str))),
            ("body".to_string(), JsonSchema::Opt(Box::new(JsonSchema::Str))),
            ("postImage".to_string(), JsonSchema::Opt(Box::new(JsonSchema::Str))),
        ])
    );
}

#[test]
fn from_field_kinds_lists_and_enums() {
    let status = ProtoEnum { values: vec!["PUBLISHED".to_string(), "DRAFT".to_string()] };
    let inner = ProtoMessage { fields: vec![field("flag", ProtoKind::Bool, false, false)] };
    let message = ProtoMessage {
        fields: vec![
            field("tags", ProtoKind::Bytes, false, true),
            field("status", ProtoKind::Enum(status), true, false),
            field("inner_items", ProtoKind::Message(inner), false, true),
            field("score", ProtoKind::Double, false, false),
        ],
    };
    let schema = JsonSchema::from_message(&message);
    assert_eq!(
        schema,
        JsonSchema::Obj(vec![
            ("tags".to_string(), JsonSchema::Arr(Box::new(JsonSchema::Str))),
            (
                "status".to_string(),
                JsonSchema::Opt(Box::new(JsonSchema::Enum(names(&["DRAFT", "PUBLISHED"]))))
            ),
            (
                "innerItems".to_string(),
                JsonSchema::Arr(Box::new(JsonSchema::Obj(vec![("flag".to_string(), JsonSchema::Bool)])))
            ),
            ("score".to_string(), JsonSchema::Num),
        ])
    );
}

#[test]
fn clone_is_equal() {
    let schema = obj(vec![
        ("a", JsonSchema::Arr(Box::new(JsonSchema::Enum(names(&["X", "Y"]))))),
        ("b", JsonSchema::Num.optional()),
    ]);
    assert_eq!(schema.clone(), schema);
}

#[test]
fn objects_compare_as_maps() {
    let a = obj(vec![("x", JsonSchema::Num), ("y", JsonSchema::Str.optional())]);
    let b = obj(vec![("y", JsonSchema::Str.optional()), ("x", JsonSchema::Num)]);
    assert_eq!(a, b);
    let c = obj(vec![("y", JsonSchema::Str), ("x", JsonSchema::Num)]);
    assert_ne!(a, c);
    let d = obj(vec![("x", JsonSchema::Num)]);
    assert_ne!(a, d);
    assert_ne!(JsonSchema::Num, JsonSchema::Str);
    assert_eq!(
        JsonSchema::Enum(names(&["A", "B"])),
        JsonSchema::Enum(names(&["B", "A"]))
    );
}
