//! The errors of the usage tracker and the text they are reported with.
use vstd::prelude::*;

verus! {

/// An error of the usage tracker.
pub enum TrackerError {
    Reqwest(reqwest::Error),
    InvalidHeaderValue(reqwest::header::InvalidHeaderValue),
    SerdeJson(serde_json::Error),
    UrlParser(url::ParseError),
}

/// The text an error is displayed and debug-printed with.
pub open spec fn tracker_message_model(e: TrackerError) -> Seq<char> {
    match e {
        TrackerError::Reqwest(_) => "Reqwest Error"@,
        TrackerError::InvalidHeaderValue(_) => "Invalid Header Value"@,
        TrackerError::SerdeJson(_) => "Serde JSON Error"@,
        TrackerError::UrlParser(_) => "Url Parser Error"@,
    }
}

impl TrackerError {
    /// The displayed text, as `Display` writes it; `Debug` writes the same.
    pub fn message(&self) -> (r: String)
        ensures
            r@ == tracker_message_model(*self),
    {
        match self {
            TrackerError::Reqwest(_) => String::from_str("Reqwest Error"),
            TrackerError::InvalidHeaderValue(_) => String::from_str("Invalid Header Value"),
            TrackerError::SerdeJson(_) => String::from_str("Serde JSON Error"),
            TrackerError::UrlParser(_) => String::from_str("Url Parser Error"),
        }
    }
}

impl From<reqwest::Error> for TrackerError {
    fn from(e: reqwest::Error) -> (r: TrackerError) {
        TrackerError::Reqwest(e)
    }
}

impl vstd::std_specs::convert::FromSpecImpl<reqwest::Error> for TrackerError {
    open spec fn obeys_from_spec() -> bool {
        true
    }

    open spec fn from_spec(v: reqwest::Error) -> TrackerError {
        TrackerError::Reqwest(v)
    }
}

impl From<reqwest::header::InvalidHeaderValue> for TrackerError {
    fn from(e: reqwest::header::InvalidHeaderValue) -> (r: TrackerError) {
        TrackerError::InvalidHeaderValue(e)
    }
}

impl vstd::std_specs::convert::FromSpecImpl<reqwest::header::InvalidHeaderValue> for TrackerError {
    open spec fn obeys_from_spec() -> bool {
        true
    }

    open spec fn from_spec(v: reqwest::header::InvalidHeaderValue) -> TrackerError {
        TrackerError::InvalidHeaderValue(v)
    }
}

impl From<serde_json::Error> for TrackerError {
    fn from(e: serde_json::Error) -> (r: TrackerError) {
        TrackerError::SerdeJson(e)
    }
}

impl vstd::std_specs::convert::FromSpecImpl<serde_json::Error> for TrackerError {
    open spec fn obeys_from_spec() -> bool {
        true
    }

    open spec fn from_spec(v: serde_json::Error) -> TrackerError {
        TrackerError::SerdeJson(v)
    }
}

impl From<url::ParseError> for TrackerError {
    fn from(e: url::ParseError) -> (r: TrackerError) {
        TrackerError::UrlParser(e)
    }
}

impl vstd::std_specs::convert::FromSpecImpl<url::ParseError> for TrackerError {
    open spec fn obeys_from_spec() -> bool {
        true
    }

    open spec fn from_spec(v: url::ParseError) -> TrackerError {
        TrackerError::UrlParser(v)
    }
}

} // verus!
