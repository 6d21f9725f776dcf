//! Typed XML payload adapter for an HTTP service layer.
//!
//! The crate decides whether a request declares an XML-compatible media
//! type, packages the outcome of decoding a request body into the typed
//! wrapper [`Xml`] or into an [`rejection::XmlRejection`], and builds the
//! response parts for encoded values and for rejections.

use vstd::prelude::*;

pub mod laws;
pub mod media_type;
pub mod rejection;
pub mod response;

use crate::media_type::{spec_xml_content_type, xml_content_type};
use crate::rejection::{SpecRejection, XmlRejection};

verus! {

/// The first extraction decision, at spec level: a request without an
/// XML-compatible declared content type is turned away with the
/// missing-content-type rejection; every other request passes.
pub open spec fn spec_require_xml_content_type(h: Option<Seq<u8>>) -> Result<(), SpecRejection> {
    if spec_xml_content_type(h) {
        Result::Ok(())
    } else {
        Result::Err(SpecRejection::MissingXMLContentType)
    }
}

/// Extraction, first step: the content-type check. It runs before the
/// body is touched, so a request that fails here never has its body
/// read or buffered.
pub fn require_xml_content_type(content_type: &Option<Vec<u8>>) -> (r: Result<
    (),
    XmlRejection,
>)
    ensures
        match r {
            Result::Ok(_) => spec_require_xml_content_type(content_type.deep_view()) is Ok,
            Result::Err(rej) => spec_require_xml_content_type(content_type.deep_view()) == Result::Err::<
                (),
                SpecRejection,
            >(rej@),
        },
{
    if xml_content_type(content_type) {
        Result::Ok(())
    } else {
        Result::Err(XmlRejection::MissingXMLContentType)
    }
}

/// Typed wrapper around a decoded request value.
///
/// Holds exactly one value of type `T`; it is created at a successful
/// decode or by explicit construction and exposes the value for direct
/// use.
#[derive(Debug, Clone, Copy, Default)]
pub struct Xml<T>(pub T);

impl<T> Xml<T> {
    /// Wraps a value.
    pub fn new(value: T) -> (r: Xml<T>)
        ensures
            r.0 == value,
    {
        Xml(value)
    }

    /// Read-only access to the wrapped value.
    pub fn get(&self) -> (r: &T)
        ensures
            *r == self.0,
    {
        &self.0
    }

    /// Replaces the wrapped value in place.
    pub fn set(&mut self, value: T)
        ensures
            final(self).0 == value,
    {
        self.0 = value;
    }

    /// Gives the wrapped value back, consuming the wrapper.
    pub fn into_inner(self) -> (r: T)
        ensures
            r == self.0,
    {
        self.0
    }

    /// Extraction, last step: packages the codec's decode outcome. A
    /// decoded value is wrapped exactly as it came; a decode diagnostic
    /// becomes the decode-failure rejection carrying that diagnostic.
    /// The two outcomes are mutually exclusive — no wrapper ever holds a
    /// partially decoded value.
    pub fn from_decode(outcome: Result<T, String>) -> (r: Result<Xml<T>, XmlRejection>)
        ensures
            match outcome {
                Result::Ok(v) => r matches Result::Ok(x) && x.0 == v,
                Result::Err(diag) => r matches Result::Err(rej) && rej@
                    == SpecRejection::InvalidXMLBody(diag@),
            },
    {
        match outcome {
            Result::Ok(value) => Result::Ok(Xml(value)),
            Result::Err(diag) => Result::Err(XmlRejection::InvalidXMLBody(diag)),
        }
    }
}

impl<T> From<T> for Xml<T> {
    /// Wraps a bare value, so response values need not name the
    /// constructor.
    fn from(inner: T) -> (r: Xml<T>) {
        Xml(inner)
    }
}

impl<T> vstd::std_specs::convert::FromSpecImpl<T> for Xml<T> {
    open spec fn obeys_from_spec() -> bool {
        true
    }

    open spec fn from_spec(inner: T) -> Xml<T> {
        Xml(inner)
    }
}

} // verus!
