# tailcall (verified core)

A Verus-verified library for the value checks of a GraphQL gateway:

- `json_schema`: JSON schemas, the check of a GraphQL value against a
  schema, the comparison of two schemas against a configuration, and the
  schema of a protobuf message, enum or field.
- `valid`: validation outcomes with traced causes.
- `date`: the `Date` scalar: RFC 3339 full-dates, checked by the library,
  and date-times, parsed by `chrono`.
- `auth`: authentication providers, how their verdicts combine, and the
  per-request context that settles a verdict once.
- `grpc_error`, `tracker_error`: error types and their texts.
- `io`: environment access and `is_default`.

`app/` holds the async I/O traits, the HTTP request adapter, the schema
derivations of `schemars` and `serde`, and the conversions from
`async-graphql-value` and `prost-reflect` values into the library's own.
