//! The parts of an outgoing HTTP response that this adapter decides:
//! status, `Content-Type` header, and body. The host framework turns
//! them into its own response value.

use vstd::prelude::*;
use vstd::string::*;

verus! {

/// Spec-level model of a response body.
pub ghost enum SpecBody {
    Bytes(Seq<u8>),
    Text(Seq<char>),
}

/// Spec-level model of the decided response parts.
pub ghost struct SpecResponse {
    pub status: u16,
    pub content_type: Option<Seq<char>>,
    pub body: SpecBody,
}

/// A response body: raw encoder output, or diagnostic text.
#[derive(Debug)]
pub enum ResponseBody {
    Bytes(Vec<u8>),
    Text(String),
}

impl View for ResponseBody {
    type V = SpecBody;

    open spec fn view(&self) -> SpecBody {
        match self {
            ResponseBody::Bytes(b) => SpecBody::Bytes(b@),
            ResponseBody::Text(t) => SpecBody::Text(t@),
        }
    }
}

/// What this adapter decides about an outgoing response.
#[derive(Debug)]
pub struct ResponseParts {
    pub status: u16,
    pub content_type: Option<String>,
    pub body: ResponseBody,
}

impl View for ResponseParts {
    type V = SpecResponse;

    open spec fn view(&self) -> SpecResponse {
        SpecResponse {
            status: self.status,
            content_type: self.content_type.deep_view(),
            body: self.body@,
        }
    }
}

/// The encode outcome, lifted to spec level.
pub open spec fn spec_encode_outcome(encoded: Result<Vec<u8>, String>) -> Result<
    Seq<u8>,
    Seq<char>,
> {
    match encoded {
        Result::Ok(b) => Result::Ok(b@),
        Result::Err(m) => Result::Err(m@),
    }
}

/// The response decided for an encode outcome: the encoder's bytes under
/// `Content-Type: application/xml`, or — when the value's shape cannot
/// be represented — status 500, `text/plain; charset=utf-8`, and the
/// encoder's diagnostic, verbatim, as the whole body.
pub open spec fn spec_xml_response(encoded: Result<Seq<u8>, Seq<char>>) -> SpecResponse {
    match encoded {
        Result::Ok(b) => SpecResponse {
            status: 200,
            content_type: Option::Some("application/xml"@),
            body: SpecBody::Bytes(b),
        },
        Result::Err(m) => SpecResponse {
            status: 500,
            content_type: Option::Some("text/plain; charset=utf-8"@),
            body: SpecBody::Text(m),
        },
    }
}

/// Builds the response for the outcome of encoding a wrapped value. On
/// success the body is exactly the encoder's bytes and the content type
/// is overridden to `application/xml`; on failure the encoder's
/// diagnostic is surfaced verbatim in a plain-text 500 response. There
/// is no partial success: either all encoded bytes are emitted, or none.
pub fn xml_response(encoded: Result<Vec<u8>, String>) -> (r: ResponseParts)
    ensures
        r@ == spec_xml_response(spec_encode_outcome(encoded)),
{
    match encoded {
        Result::Ok(bytes) => ResponseParts {
            status: 200,
            content_type: Option::Some(String::from_str("application/xml")),
            body: ResponseBody::Bytes(bytes),
        },
        Result::Err(message) => ResponseParts {
            status: 500,
            content_type: Option::Some(String::from_str("text/plain; charset=utf-8")),
            body: ResponseBody::Text(message),
        },
    }
}

} // verus!
