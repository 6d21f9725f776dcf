//! Tests of the XML payload adapter: content-type classification,
//! extraction outcomes, rejection rendering, and response building, with
//! the real codec decoding and encoding the bodies.

use axum_xml::media_type::xml_content_type;
use axum_xml::rejection::XmlRejection;
use axum_xml::response::{xml_response, ResponseBody};
use axum_xml::{require_xml_content_type, Xml};

use serde::de::{Deserializer, IgnoredAny, MapAccess, Visitor};
use serde::ser::{SerializeSeq, SerializeStruct, Serializer};

#[derive(Debug, PartialEq)]
struct Input {
    foo: String,
}

impl<'de> serde::Deserialize<'de> for Input {
    fn deserialize<D: Deserializer<'de>>(d: D) -> Result<Input, D::Error> {
        struct InputVisitor;
        impl<'de> Visitor<'de> for InputVisitor {
            type Value = Input;

            fn expecting(&self, f: &mut std::fmt::Formatter) -> std::fmt::Result {
                f.write_str("struct Input")
            }

            fn visit_map<A: MapAccess<'de>>(self, mut map: A) -> Result<Input, A::Error> {
                let mut foo: Option<String> = None;
                while let Some(key) = map.next_key::<String>()? {
                    if key == "@foo" || key == "foo" {
                        foo = Some(map.next_value::<String>()?);
                    } else {
                        let _ = map.next_value::<IgnoredAny>()?;
                    }
                }
                foo.map(|foo| Input { foo })
                    .ok_or_else(|| serde::de::Error::missing_field("foo"))
            }
        }
        d.deserialize_struct("Input", &["@foo"], InputVisitor)
    }
}

#[derive(Debug, PartialEq)]
struct Value {}

impl<'de> serde::Deserialize<'de> for Value {
    fn deserialize<D: Deserializer<'de>>(d: D) -> Result<Value, D::Error> {
        struct ValueVisitor;
        impl<'de> Visitor<'de> for ValueVisitor {
            type Value = Value;

            fn expecting(&self, f: &mut std::fmt::Formatter) -> std::fmt::Result {
                f.write_str("struct Value")
            }

            fn visit_unit<E: serde::de::Error>(self) -> Result<Value, E> {
                Ok(Value {})
            }

            fn visit_map<A: MapAccess<'de>>(self, mut map: A) -> Result<Value, A::Error> {
                while let Some(_key) = map.next_key::<String>()? {
                    let _ = map.next_value::<IgnoredAny>()?;
                }
                Ok(Value {})
            }
        }
        d.deserialize_struct("Value", &[], ValueVisitor)
    }
}

#[derive(Debug, PartialEq, Clone)]
struct Pair {
    first: String,
    second: String,
}

impl serde::Serialize for Pair {
    fn serialize<S: Serializer>(&self, s: S) -> Result<S::Ok, S::Error> {
        let mut st = s.serialize_struct("Pair", 2)?;
        st.serialize_field("first", &self.first)?;
        st.serialize_field("second", &self.second)?;
        st.end()
    }
}

impl<'de> serde::Deserialize<'de> for Pair {
    fn deserialize<D: Deserializer<'de>>(d: D) -> Result<Pair, D::Error> {
        struct PairVisitor;
        impl<'de> Visitor<'de> for PairVisitor {
            type Value = Pair;

            fn expecting(&self, f: &mut std::fmt::Formatter) -> std::fmt::Result {
                f.write_str("struct Pair")
            }

            fn visit_map<A: MapAccess<'de>>(self, mut map: A) -> Result<Pair, A::Error> {
                let mut first: Option<String> = None;
                let mut second: Option<String> = None;
                while let Some(key) = map.next_key::<String>()? {
                    if key == "first" {
                        first = Some(map.next_value::<String>()?);
                    } else if key == "second" {
                        second = Some(map.next_value::<String>()?);
                    } else {
                        let _ = map.next_value::<IgnoredAny>()?;
                    }
                }
                match (first, second) {
                    (Some(first), Some(second)) => Ok(Pair { first, second }),
                    _ => Err(serde::de::Error::missing_field("first")),
                }
            }
        }
        d.deserialize_struct("Pair", &["first", "second"], PairVisitor)
    }
}

/// A shape the XML encoder cannot represent: a bare sequence has no
/// root tag.
struct BareSeq;

impl serde::Serialize for BareSeq {
    fn serialize<S: Serializer>(&self, s: S) -> Result<S::Ok, S::Error> {
        let mut seq = s.serialize_seq(Some(1))?;
        seq.serialize_element(&1u32)?;
        seq.end()
    }
}

fn header(value: &str) -> Option<Vec<u8>> {
    Some(value.as_bytes().to_vec())
}

/// Runs the whole extraction path a host would run: check the header,
/// then decode the body and package the outcome.
fn extract<T: for<'de> serde::Deserialize<'de>>(
    content_type: &Option<Vec<u8>>,
    body: &str,
) -> Result<Xml<T>, XmlRejection> {
    require_xml_content_type(content_type)?;
    let outcome = quick_xml::de::from_str::<T>(body).map_err(|e| e.to_string());
    Xml::from_decode(outcome)
}

fn valid_xml_content_type(content_type: &str) -> bool {
    extract::<Value>(&header(content_type), "<Value />").is_ok()
}

#[test]
fn xml_content_types() {
    assert!(valid_xml_content_type("application/xml"));
    assert!(valid_xml_content_type("application/xml; charset=utf-8"));
    assert!(valid_xml_content_type("application/xml;charset=utf-8"));
    assert!(valid_xml_content_type("application/cloudevents+xml"));
    assert!(valid_xml_content_type("text/xml"));
    assert!(!valid_xml_content_type("application/json"));
}

#[test]
fn deserialize_body() {
    let extracted = extract::<Input>(&header("application/xml"), r#"<Input foo="bar"/>"#)
        .expect("extraction should succeed");
    assert_eq!(extracted.get().foo, "bar");
}

#[test]
fn consume_body_to_xml_requires_xml_content_type() {
    let rejection = extract::<Input>(&None, r#"<Input foo="bar"/>"#)
        .expect_err("extraction should be rejected");
    assert!(matches!(rejection, XmlRejection::MissingXMLContentType));
    let response = rejection.into_response();
    assert_eq!(response.status, 415);
}

#[test]
fn classifier_is_case_insensitive() {
    assert!(xml_content_type(&header("Application/XML")));
    assert!(xml_content_type(&header("TEXT/xml")));
    assert!(!xml_content_type(&header("application/JSON")));
}

#[test]
fn classifier_rejects_absent_and_malformed_headers() {
    assert!(!xml_content_type(&None));
    assert!(!xml_content_type(&header("")));
    assert!(!xml_content_type(&header("application")));
    assert!(!xml_content_type(&header("/xml")));
    assert!(!xml_content_type(&header("application/")));
    assert!(!xml_content_type(&header("application/x ml")));
    assert!(!xml_content_type(&header("application/xhtml+xm")));
    assert!(!xml_content_type(&Some(vec![0xffu8, b'a', b'b'])));
}

#[test]
fn parameters_ignored_for_decision() {
    assert!(xml_content_type(&header("application/xml; a=b; c=d")));
    assert!(xml_content_type(&header("text/xml; charset=US-ASCII")));
    assert!(!xml_content_type(&header("application/json; charset=utf-8")));
}

#[test]
fn classifier_accepts_suffixed_subtypes() {
    assert!(xml_content_type(&header("application/xhtml+xml")));
    assert!(xml_content_type(&header("text/vnd.wap+xml")));
    assert!(xml_content_type(&header("application/a+b+xml")));
    assert!(!xml_content_type(&header("application/xml+json")));
    assert!(!xml_content_type(&header("image/svg+xml")));
}

#[test]
fn missing_content_type_regardless_of_body() {
    for body in ["", r#"<Input foo="bar"/>"#, "not xml at all"] {
        let rejection =
            extract::<Input>(&None, body).expect_err("extraction should be rejected");
        let response = rejection.into_response();
        assert_eq!(response.status, 415);
        match response.body {
            ResponseBody::Text(text) => assert!(!text.is_empty()),
            ResponseBody::Bytes(_) => panic!("rejection body should be text"),
        }
    }
}

#[test]
fn json_content_type_rejected_even_for_valid_xml_body() {
    let rejection = extract::<Value>(&header("application/json"), "<Value />")
        .expect_err("extraction should be rejected");
    assert!(matches!(rejection, XmlRejection::MissingXMLContentType));
    assert_eq!(rejection.into_response().status, 415);
}

#[test]
fn malformed_body_rejected_422() {
    let rejection = extract::<Input>(&header("application/xml"), r#"<Input foo="#)
        .expect_err("extraction should be rejected");
    assert!(matches!(rejection, XmlRejection::InvalidXMLBody(_)));
    let response = rejection.into_response();
    assert_eq!(response.status, 422);
    match response.body {
        ResponseBody::Text(text) => {
            assert!(text.starts_with("Failed to parse the request body as XML: "));
            assert!(text.len() > "Failed to parse the request body as XML: ".len());
        }
        ResponseBody::Bytes(_) => panic!("rejection body should be text"),
    }
}

#[test]
fn mismatched_body_rejected_422() {
    let rejection = extract::<Input>(&header("text/xml"), "<Input other=\"x\"/>")
        .expect_err("extraction should be rejected");
    assert!(matches!(rejection, XmlRejection::InvalidXMLBody(_)));
    assert_eq!(rejection.into_response().status, 422);
}

#[test]
fn round_trip_preserves_value() {
    let value = Pair { first: "hello".to_string(), second: "<&world>".to_string() };
    let encoded = quick_xml::se::to_string(&value).expect("encoding should succeed");
    let response = xml_response(Ok(encoded.clone().into_bytes()));
    assert_eq!(response.status, 200);
    assert_eq!(response.content_type.as_deref(), Some("application/xml"));
    let body = match response.body {
        ResponseBody::Bytes(bytes) => bytes,
        ResponseBody::Text(_) => panic!("success body should be the encoder's bytes"),
    };
    assert_eq!(body, encoded.as_bytes());
    let decoded: Pair =
        quick_xml::de::from_str(std::str::from_utf8(&body).unwrap()).expect("decode back");
    assert_eq!(decoded, value);
}

#[test]
fn encoded_response_has_exact_body() {
    let value = Pair { first: "a".to_string(), second: "b".to_string() };
    let encoded = quick_xml::se::to_string(&value).expect("encoding should succeed");
    assert_eq!(encoded, "<Pair><first>a</first><second>b</second></Pair>");
    let response = xml_response(Ok(encoded.clone().into_bytes()));
    match response.body {
        ResponseBody::Bytes(bytes) => assert_eq!(bytes, encoded.into_bytes()),
        ResponseBody::Text(_) => panic!("success body should be the encoder's bytes"),
    }
}

#[test]
fn unencodable_value_gives_500() {
    let err = quick_xml::se::to_string(&BareSeq).expect_err("encoding should fail");
    let diagnostic = err.to_string();
    assert!(!diagnostic.is_empty());
    let response = xml_response(Err(diagnostic.clone()));
    assert_eq!(response.status, 500);
    assert_eq!(response.content_type.as_deref(), Some("text/plain; charset=utf-8"));
    match response.body {
        ResponseBody::Text(text) => {
            assert_eq!(text, diagnostic);
            assert!(!text.is_empty());
        }
        ResponseBody::Bytes(_) => panic!("failure body should be the diagnostic text"),
    }
}

#[test]
fn rejection_messages() {
    assert_eq!(
        XmlRejection::MissingXMLContentType.message(),
        "Expected request with `Content-Type: application/xml`"
    );
    assert_eq!(
        XmlRejection::InvalidXMLBody("boom".to_string()).message(),
        "Failed to parse the request body as XML: boom"
    );
    assert_eq!(XmlRejection::BytesRejection(413, "too large".to_string()).message(), "too large");
}

#[test]
fn bytes_rejection_passes_through() {
    let response = XmlRejection::BytesRejection(413, "length limit exceeded".to_string())
        .into_response();
    assert_eq!(response.status, 413);
    assert_eq!(response.content_type, None);
    match response.body {
        ResponseBody::Text(text) => assert_eq!(text, "length limit exceeded"),
        ResponseBody::Bytes(_) => panic!("pass-through body should be text"),
    }
}

#[test]
fn wrapper_is_transparent() {
    let mut wrapped = Xml::new(Input { foo: "x".to_string() });
    assert_eq!(wrapped.get().foo, "x");
    wrapped.set(Input { foo: "y".to_string() });
    assert_eq!(wrapped.get().foo, "y");
    wrapped.0.foo = "z".to_string();
    assert_eq!(wrapped.into_inner().foo, "z");

    let converted: Xml<u32> = Xml::from(7u32);
    assert_eq!(converted.into_inner(), 7);
}
