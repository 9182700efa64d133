//! A verified core of a GraphQL gateway's value checks: JSON schemas that
//! validate values and compare against a configuration, the `Date` scalar,
//! the authentication context, and the error types of the gRPC and tracking
//! layers.

pub mod text;
pub mod valid;
pub mod names;
pub mod value;
pub mod json_schema;
pub mod schema_eq;
pub mod config;
pub mod proto;
pub mod date;
pub mod io;
pub mod auth;
pub mod outside;
pub mod grpc_error;
pub mod tracker_error;
