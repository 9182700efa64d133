use tailcall::grpc_error::{GrpcError, GrpcMethod};
use tailcall::io::{is_default, EnvIO};
use tailcall::tracker_error::TrackerError;
use std::borrow::Cow;
use std::collections::HashMap;

#[test]
fn grpc_error_messages() {
    assert_eq!(GrpcError::EmptyResponse.message(), "Empty Response");
    assert_eq!(GrpcError::MissingField("id".to_string()).message(), "Field not found : id");
    assert_eq!(
        GrpcError::MissingService("news.NewsService".to_string()).message(),
        "Couldn't find definitions for service news.NewsService"
    );
    assert_eq!(
        GrpcError::InputParsingFailed("NewsInput".to_string()).message(),
        "Failed to parse input according to type NewsInput"
    );
    let method = GrpcMethod {
        package: "news".to_string(),
        service: "NewsService".to_string(),
        name: "GetNews".to_string(),
    };
    assert_eq!(GrpcError::from(method).message(), "Couldn't find method GetNews");
}

#[test]
fn grpc_json_error_message_carries_the_json_error() {
    let json_err = serde_json::from_str::<u32>("x").unwrap_err();
    let text = json_err.to_string();
    let err = GrpcError::from(json_err);
    assert_eq!(err.message(), format!("Serde Json Error: {}", text));
    assert_eq!(err.debug_text(), format!("Serde Json Error : {}", text));
}

#[test]
fn tracker_error_messages() {
    let err = TrackerError::from(url::Url::parse("no scheme").unwrap_err());
    assert_eq!(err.message(), "Url Parser Error");
    let err = TrackerError::from(serde_json::from_str::<u32>("x").unwrap_err());
    assert_eq!(err.message(), "Serde JSON Error");
}

#[test]
fn is_default_compares_with_the_default() {
    assert!(is_default(&0u32));
    assert!(!is_default(&7u32));
    assert!(is_default(&String::new()));
    assert!(!is_default(&"a".to_string()));
    assert!(is_default(&tailcall::json_schema::JsonSchema::default()));
    assert!(!is_default(&tailcall::json_schema::JsonSchema::Num));
}

#[derive(Clone, Default)]
pub struct TestEnvIO(HashMap<String, String>);

impl EnvIO for TestEnvIO {
    fn get(&self, key: &str) -> Option<Cow<'_, str>> {
        self.0.get(key).map(Cow::from)
    }
}

#[test]
fn env_io_reads_variables() {
    let env = TestEnvIO(HashMap::from([("HOME".to_string(), "/root".to_string())]));
    assert_eq!(env.get("HOME").as_deref(), Some("/root"));
    assert_eq!(env.get("PATH"), None);
}
