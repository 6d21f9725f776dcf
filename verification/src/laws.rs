//! The laws the adapter obeys, stated over the spec-level models and
//! proved once for all inputs.

use vstd::prelude::*;

use crate::media_type::{is_header_text, spec_xml_content_type, xml_media_type};
use crate::rejection::{spec_message, spec_rejection_response, spec_status, SpecRejection};
use crate::response::{spec_xml_response, SpecBody, SpecResponse};
use crate::spec_require_xml_content_type;

verus! {

/// Law: a request without an XML-compatible declared `Content-Type` is
/// turned away before its body is read — so whatever the
/// body holds — with the missing-content-type rejection, whose response
/// carries status 415 and a non-empty message.
pub proof fn law_unclassified_request_rejected(h: Option<Seq<u8>>)
    requires
        !spec_xml_content_type(h),
    ensures
        spec_require_xml_content_type(h) == Result::Err::<(), SpecRejection>(SpecRejection::MissingXMLContentType),
        spec_status(SpecRejection::MissingXMLContentType) == 415,
        spec_rejection_response(SpecRejection::MissingXMLContentType).body == SpecBody::Text(
            spec_message(SpecRejection::MissingXMLContentType),
        ),
        spec_message(SpecRejection::MissingXMLContentType).len() > 0,
{
    reveal_strlit("Expected request with `Content-Type: application/xml`");
}

/// Law: when the body cannot be decoded into the requested type, the
/// decode-failure rejection that carries the codec's diagnostic renders
/// to status 422 with a non-empty message that contains the diagnostic.
pub proof fn law_undecodable_body_rejected(diag: Seq<char>)
    ensures
        spec_status(SpecRejection::InvalidXMLBody(diag)) == 422,
        spec_rejection_response(SpecRejection::InvalidXMLBody(diag)).body == SpecBody::Text(
            spec_message(SpecRejection::InvalidXMLBody(diag)),
        ),
        spec_message(SpecRejection::InvalidXMLBody(diag)).len() > 0,
        spec_message(SpecRejection::InvalidXMLBody(diag)).take(
            spec_message(SpecRejection::InvalidXMLBody(diag)).len() - diag.len(),
        ) == "Failed to parse the request body as XML: "@,
        spec_message(SpecRejection::InvalidXMLBody(diag)).skip(
            spec_message(SpecRejection::InvalidXMLBody(diag)).len() - diag.len(),
        ) == diag,
{
    reveal_strlit("Failed to parse the request body as XML: ");
    assert(spec_message(SpecRejection::InvalidXMLBody(diag)).take(
        spec_message(SpecRejection::InvalidXMLBody(diag)).len() - diag.len(),
    ) =~= "Failed to parse the request body as XML: "@);
    assert(spec_message(SpecRejection::InvalidXMLBody(diag)).skip(
        spec_message(SpecRejection::InvalidXMLBody(diag)).len() - diag.len(),
    ) =~= diag);
}

/// Law: parameters never sway the classifier. Appending `;` and any
/// parameter bytes that are readable text to a header value leaves the
/// media-type decision unchanged.
pub proof fn law_parameters_ignored(s: Seq<u8>, params: Seq<u8>)
    requires
        is_header_text(params),
    ensures
        xml_media_type(s + seq![';' as u8] + params) == xml_media_type(s),
{
    let t = s + seq![';' as u8] + params;
    assert(t.len() == s.len() + 1 + params.len());
    assert forall|i: int| 0 <= i < s.len() implies t[i] == s[i] by {}
    assert(t[s.len() as int] == ';' as u8);
    assert forall|j: int| 0 <= j < params.len() implies t[s.len() + 1 + j] == params[j] by {}
    assert(is_header_text(t) == is_header_text(s)) by {
        if is_header_text(s) {
            assert forall|i: int| 0 <= i < t.len() implies crate::media_type::is_text_byte(
                #[trigger] t[i],
            ) by {
                if i < s.len() {
                    assert(t[i] == s[i]);
                } else if i == s.len() {
                    assert(t[i] == ';' as u8);
                } else {
                    assert(t[i] == params[i - (s.len() + 1)]);
                }
            }
        }
        if is_header_text(t) {
            assert forall|i: int| 0 <= i < s.len() implies crate::media_type::is_text_byte(
                #[trigger] s[i],
            ) by {
                assert(t[i] == s[i]);
            }
        }
    }
    assert forall|n: int| 0 <= n <= s.len() implies t.take(n) =~= s.take(n) by {}
    assert forall|n: int| crate::media_type::is_params_start(t, n) implies n <= s.len() by {
        if n > s.len() {
            assert(t[s.len() as int] == ';' as u8);
            assert(t[s.len() as int] != ';' as u8);
        }
    }
    assert forall|n: int| 0 <= n <= s.len() implies (crate::media_type::is_params_start(t, n)
        == crate::media_type::is_params_start(s, n)) by {
        assert forall|i: int| 0 <= i < n implies t[i] == s[i] by {}
        if crate::media_type::is_params_start(s, n) {
            if n == s.len() {
                assert(t[n] == ';' as u8);
            }
        }
    }
}

/// Law: the response for a successfully encoded value carries exactly
/// the encoder's bytes as its body and the content type
/// `application/xml`, overriding any earlier one, with the default
/// status 200.
pub proof fn law_encoded_response_exact(bytes: Seq<u8>)
    ensures
        spec_xml_response(Result::Ok::<Seq<u8>, Seq<char>>(bytes)) == (SpecResponse {
            status: 200,
            content_type: Option::Some("application/xml"@),
            body: SpecBody::Bytes(bytes),
        }),
{
}

/// Law: a value whose shape the encoder cannot represent yields the
/// plain-text failure response — status 500, `text/plain;
/// charset=utf-8`, and the encoder's non-empty diagnostic, verbatim, as
/// the whole body. No XML bytes, partial or otherwise, appear in it.
pub proof fn law_unencodable_value_surfaced(diag: Seq<char>)
    requires
        diag.len() > 0,
    ensures
        spec_xml_response(Result::Err::<Seq<u8>, Seq<char>>(diag)).status == 500,
        spec_xml_response(Result::Err::<Seq<u8>, Seq<char>>(diag)).content_type == Option::Some(
            "text/plain; charset=utf-8"@,
        ),
        spec_xml_response(Result::Err::<Seq<u8>, Seq<char>>(diag)).body == SpecBody::Text(diag),
        spec_xml_response(Result::Err::<Seq<u8>, Seq<char>>(diag)).body matches SpecBody::Text(t)
            && t.len() > 0,
{
}

} // verus!

