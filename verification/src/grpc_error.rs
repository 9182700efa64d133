//! The errors of the gRPC layer and the text they are reported with.
use vstd::prelude::*;
use crate::text::concat_str;

verus! {

/// The text that `serde_json::Error`'s `Display` writes. Its contract
/// states nothing of that text: for an I/O error it is the operating
/// system's message for the error code, which differs between machines and
/// locales, and the error is an outside value that the library cannot
/// read, so the text gets no name.
#[verifier::external_body]
fn serde_json_error_text(e: &serde_json::Error) -> String {
    format!("{}", e)
}

/// A gRPC method, as `package.service.name`.
#[derive(Debug, PartialEq, Eq)]
pub struct GrpcMethod {
    pub package: String,
    pub service: String,
    pub name: String,
}

/// An error of the gRPC layer.
pub enum GrpcError {
    SerdeJsonError(serde_json::Error),
    ProstEncodeError(prost::EncodeError),
    ProstDecodeError(prost::DecodeError),
    EmptyResponse,
    MessageNotResolved,
    DescriptorPoolError(prost_reflect::DescriptorError),
    ProtoxParseError(protox_parse::ParseError),
    MissingMethod(GrpcMethod),
    MissingListField,
    MissingField(String),
    MissingService(String),
    InputParsingFailed(String),
}

/// The text an error is displayed with, where `detail` is the displayed
/// text of a wrapped JSON error.
pub open spec fn message_model(e: GrpcError, detail: Seq<char>) -> Seq<char> {
    match e {
        GrpcError::SerdeJsonError(_) => "Serde Json Error: "@ + detail,
        GrpcError::ProstEncodeError(_) => "Prost Encode Error"@,
        GrpcError::ProstDecodeError(_) => "Prost Decode Error"@,
        GrpcError::EmptyResponse => "Empty Response"@,
        GrpcError::MessageNotResolved => "Couldn't resolve message"@,
        GrpcError::DescriptorPoolError(_) => "Descriptor pool error"@,
        GrpcError::ProtoxParseError(_) => "Protox Parse Error"@,
        GrpcError::MissingMethod(m) => "Couldn't find method "@ + m.name@,
        GrpcError::MissingListField => "Unable to find list field on type"@,
        GrpcError::MissingField(f) => "Field not found : "@ + f@,
        GrpcError::MissingService(s) => "Couldn't find definitions for service "@ + s@,
        GrpcError::InputParsingFailed(t) => "Failed to parse input according to type "@ + t@,
    }
}

/// The text an error is debug-printed with: as displayed, except that a
/// wrapped JSON error reads `Serde Json Error : ..`.
pub open spec fn debug_model(e: GrpcError, detail: Seq<char>) -> Seq<char> {
    match e {
        GrpcError::SerdeJsonError(_) => "Serde Json Error : "@ + detail,
        _ => message_model(e, detail),
    }
}

impl GrpcError {
    /// The displayed text, given the displayed text of a wrapped JSON error.
    pub fn message_with(&self, detail: &str) -> (r: String)
        ensures
            r@ == message_model(*self, detail@),
    {
        match self {
            GrpcError::SerdeJsonError(_) => concat_str("Serde Json Error: ", detail),
            GrpcError::ProstEncodeError(_) => String::from_str("Prost Encode Error"),
            GrpcError::ProstDecodeError(_) => String::from_str("Prost Decode Error"),
            GrpcError::EmptyResponse => String::from_str("Empty Response"),
            GrpcError::MessageNotResolved => String::from_str("Couldn't resolve message"),
            GrpcError::DescriptorPoolError(_) => String::from_str("Descriptor pool error"),
            GrpcError::ProtoxParseError(_) => String::from_str("Protox Parse Error"),
            GrpcError::MissingMethod(m) => concat_str("Couldn't find method ", m.name.as_str()),
            GrpcError::MissingListField => String::from_str("Unable to find list field on type"),
            GrpcError::MissingField(f) => concat_str("Field not found : ", f.as_str()),
            GrpcError::MissingService(s) => concat_str(
                "Couldn't find definitions for service ",
                s.as_str(),
            ),
            GrpcError::InputParsingFailed(t) => concat_str(
                "Failed to parse input according to type ",
                t.as_str(),
            ),
        }
    }

    /// The displayed text, as `Display` writes it.
    pub fn message(&self) -> (r: String)
        ensures
            exists|d: Seq<char>| r@ == #[trigger] message_model(*self, d),
            !(self is SerdeJsonError) ==> r@ == message_model(*self, seq![]),
    {
        let detail = match self {
            GrpcError::SerdeJsonError(e) => serde_json_error_text(e),
            _ => String::new(),
        };
        let r = self.message_with(detail.as_str());
        assert(r@ == message_model(*self, detail@));
        r
    }

    /// The debug-printed text, given the displayed text of a wrapped JSON
    /// error.
    pub fn debug_text_with(&self, detail: &str) -> (r: String)
        ensures
            r@ == debug_model(*self, detail@),
    {
        match self {
            GrpcError::SerdeJsonError(_) => concat_str("Serde Json Error : ", detail),
            _ => self.message_with(detail),
        }
    }

    /// The debug-printed text.
    pub fn debug_text(&self) -> (r: String)
        ensures
            exists|d: Seq<char>| r@ == #[trigger] debug_model(*self, d),
            !(self is SerdeJsonError) ==> r@ == debug_model(*self, seq![]),
    {
        let detail = match self {
            GrpcError::SerdeJsonError(e) => serde_json_error_text(e),
            _ => String::new(),
        };
        let r = self.debug_text_with(detail.as_str());
        assert(r@ == debug_model(*self, detail@));
        r
    }
}

impl From<serde_json::Error> for GrpcError {
    fn from(e: serde_json::Error) -> (r: GrpcError) {
        GrpcError::SerdeJsonError(e)
    }
}

impl vstd::std_specs::convert::FromSpecImpl<serde_json::Error> for GrpcError {
    open spec fn obeys_from_spec() -> bool {
        true
    }

    open spec fn from_spec(v: serde_json::Error) -> GrpcError {
        GrpcError::SerdeJsonError(v)
    }
}

impl From<prost::EncodeError> for GrpcError {
    fn from(e: prost::EncodeError) -> (r: GrpcError) {
        GrpcError::ProstEncodeError(e)
    }
}

impl vstd::std_specs::convert::FromSpecImpl<prost::EncodeError> for GrpcError {
    open spec fn obeys_from_spec() -> bool {
        true
    }

    open spec fn from_spec(v: prost::EncodeError) -> GrpcError {
        GrpcError::ProstEncodeError(v)
    }
}

impl From<prost::DecodeError> for GrpcError {
    fn from(e: prost::DecodeError) -> (r: GrpcError) {
        GrpcError::ProstDecodeError(e)
    }
}

impl vstd::std_specs::convert::FromSpecImpl<prost::DecodeError> for GrpcError {
    open spec fn obeys_from_spec() -> bool {
        true
    }

    open spec fn from_spec(v: prost::DecodeError) -> GrpcError {
        GrpcError::ProstDecodeError(v)
    }
}

impl From<prost_reflect::DescriptorError> for GrpcError {
    fn from(e: prost_reflect::DescriptorError) -> (r: GrpcError) {
        GrpcError::DescriptorPoolError(e)
    }
}

impl vstd::std_specs::convert::FromSpecImpl<prost_reflect::DescriptorError> for GrpcError {
    open spec fn obeys_from_spec() -> bool {
        true
    }

    open spec fn from_spec(v: prost_reflect::DescriptorError) -> GrpcError {
        GrpcError::DescriptorPoolError(v)
    }
}

impl From<protox_parse::ParseError> for GrpcError {
    fn from(e: protox_parse::ParseError) -> (r: GrpcError) {
        GrpcError::ProtoxParseError(e)
    }
}

impl vstd::std_specs::convert::FromSpecImpl<protox_parse::ParseError> for GrpcError {
    open spec fn obeys_from_spec() -> bool {
        true
    }

    open spec fn from_spec(v: protox_parse::ParseError) -> GrpcError {
        GrpcError::ProtoxParseError(v)
    }
}

impl From<GrpcMethod> for GrpcError {
    fn from(e: GrpcMethod) -> (r: GrpcError) {
        GrpcError::MissingMethod(e)
    }
}

impl vstd::std_specs::convert::FromSpecImpl<GrpcMethod> for GrpcError {
    open spec fn obeys_from_spec() -> bool {
        true
    }

    open spec fn from_spec(v: GrpcMethod) -> GrpcError {
        GrpcError::MissingMethod(v)
    }
}

} // verus!
