//! The closed taxonomy of extraction failures, and how each kind renders
//! to a response.

use vstd::prelude::*;
use vstd::string::*;

use crate::response::{ResponseBody, ResponseParts, SpecBody, SpecResponse};

verus! {

/// Spec-level model of a rejection: the same three kinds, over
/// mathematical values.
pub ghost enum SpecRejection {
    InvalidXMLBody(Seq<char>),
    MissingXMLContentType,
    BytesRejection(u16, Seq<char>),
}

/// Why an extraction attempt could not produce a wrapped value. Exactly
/// one rejection is produced in substitution for the wrapper when a step
/// of extraction fails.
#[derive(Debug)]
pub enum XmlRejection {
    /// The body was collected but could not be decoded as XML into the
    /// requested type; carries the codec's diagnostic text.
    InvalidXMLBody(String),
    /// The request did not declare an XML-compatible `Content-Type`.
    MissingXMLContentType,
    /// The body-collection collaborator failed before any decode was
    /// attempted; carries the status and message of the collaborator's
    /// own response, which pass through unchanged.
    BytesRejection(u16, String),
}

impl View for XmlRejection {
    type V = SpecRejection;

    open spec fn view(&self) -> SpecRejection {
        match self {
            XmlRejection::InvalidXMLBody(diag) => SpecRejection::InvalidXMLBody(diag@),
            XmlRejection::MissingXMLContentType => SpecRejection::MissingXMLContentType,
            XmlRejection::BytesRejection(status, m) => SpecRejection::BytesRejection(*status, m@),
        }
    }
}

/// The message text each rejection kind renders to.
pub open spec fn spec_message(r: SpecRejection) -> Seq<char> {
    match r {
        SpecRejection::InvalidXMLBody(diag) => "Failed to parse the request body as XML: "@
            + diag,
        SpecRejection::MissingXMLContentType => (
        "Expected request with `Content-Type: application/xml`")@,
        SpecRejection::BytesRejection(_, m) => m,
    }
}

/// The HTTP status each rejection kind maps to: 422 for a body that
/// would not decode, 415 for a missing or non-XML content type, and the
/// body-collection collaborator's own status passed through.
pub open spec fn spec_status(r: SpecRejection) -> u16 {
    match r {
        SpecRejection::InvalidXMLBody(_) => 422,
        SpecRejection::MissingXMLContentType => 415,
        SpecRejection::BytesRejection(status, _) => status,
    }
}

/// The full response a rejection renders to: its status, no declared
/// content type, and its message as the body.
pub open spec fn spec_rejection_response(r: SpecRejection) -> SpecResponse {
    SpecResponse {
        status: spec_status(r),
        content_type: Option::None,
        body: SpecBody::Text(spec_message(r)),
    }
}

impl XmlRejection {
    /// The rejection's rendered message text.
    pub fn message(&self) -> (r: String)
        ensures
            r@ == spec_message(self@),
    {
        match self {
            XmlRejection::InvalidXMLBody(diag) => String::from_str(
                "Failed to parse the request body as XML: ",
            ).concat(diag.as_str()),
            XmlRejection::MissingXMLContentType => String::from_str(
                "Expected request with `Content-Type: application/xml`",
            ),
            XmlRejection::BytesRejection(_, m) => m.clone(),
        }
    }

    /// Renders the rejection as the parts of its wire response.
    pub fn into_response(self) -> (r: ResponseParts)
        ensures
            r@ == spec_rejection_response(self@),
    {
        let message = self.message();
        let status: u16 = match &self {
            XmlRejection::InvalidXMLBody(_) => 422,
            XmlRejection::MissingXMLContentType => 415,
            XmlRejection::BytesRejection(status, _) => *status,
        };
        ResponseParts { status, content_type: Option::None, body: ResponseBody::Text(message) }
    }
}

} // verus!
