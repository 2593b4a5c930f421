//! The request body as handlers get it.
//!
//! A handler is given a parsed body only for a request that announces JSON:
//! its content type is exactly `application/json`. A body of less than two
//! bytes holds no document. Otherwise the fast decoder is tried first and
//! the lenient one second. A body that neither can read is no error: the
//! handler is then given no body.

use crate::matcher::ranges_equal;
use crate::outside::{serde_decode, serde_json_value, simd_decode, simd_json_value};
use serde_json::Value;
use vstd::prelude::*;
use vstd::string::StringSliceAdditionalSpecFns;

verus! {

/// The content type that announces a JSON body.
pub const JSON_CONTENT_TYPE: &'static str = "application/json";

/// The shortest body that can hold a JSON document: `{}` or `[]`.
pub const MIN_JSON_BODY: usize = 2;

/// Whether a content type header announces JSON: it is present and is
/// exactly the bytes of `application/json`.
pub open spec fn announces_json(content_type: Option<Seq<u8>>) -> bool {
    match content_type {
        Some(value) => value == JSON_CONTENT_TYPE.spec_bytes(),
        None => false,
    }
}

/// The document of two decoders' results: that of the fast one where it
/// has one, else that of the lenient one.
pub open spec fn preferred(fast: Option<Value>, lenient: Option<Value>) -> Option<Value> {
    match fast {
        Some(value) => Some(value),
        None => lenient,
    }
}

/// The document that a body holds: none in a body of less than two bytes,
/// else what the fast decoder makes of it, else what the lenient one does.
pub open spec fn decoded_body(body: Seq<u8>) -> Option<Value> {
    if body.len() < MIN_JSON_BODY {
        None
    } else {
        preferred(simd_json_value(body), serde_json_value(body))
    }
}

/// The body that a handler is given for a content type and the bytes of a
/// request body.
pub open spec fn parsed_body(content_type: Option<Seq<u8>>, body: Seq<u8>) -> Option<Value> {
    if announces_json(content_type) {
        decoded_body(body)
    } else {
        None
    }
}

/// The bytes of a content type header, where there is one.
pub open spec fn header_bytes(content_type: Option<&[u8]>) -> Option<Seq<u8>> {
    match content_type {
        Some(value) => Some(value@),
        None => None,
    }
}

/// Whether the content type header announces a JSON body.
pub fn accepts_json(content_type: Option<&[u8]>) -> (accepted: bool)
    ensures
        accepted == announces_json(header_bytes(content_type)),
{
    match content_type {
        Some(value) => {
            let expected = JSON_CONTENT_TYPE.as_bytes();
            if value.len() < expected.len() {
                return false;
            }
            assert(value@.subrange(0, value@.len() as int) =~= value@);
            assert(expected@.subrange(0, expected@.len() as int) =~= expected@);
            ranges_equal(value, 0, value.len(), expected, 0, expected.len())
        },
        None => false,
    }
}

/// The document of two decoders' results: that of the fast decoder where
/// it has one, else that of the lenient decoder.
pub fn prefer_decoded(fast: Option<Value>, lenient: Option<Value>) -> (body: Option<Value>)
    ensures
        body == preferred(fast, lenient),
{
    match fast {
        Some(value) => Some(value),
        None => lenient,
    }
}

/// Decodes the bytes of a request body. The lenient decoder is asked only
/// where the fast one has failed.
pub fn decode_json_body(body: &[u8]) -> (value: Option<Value>)
    ensures
        value == decoded_body(body@),
{
    if body.len() < MIN_JSON_BODY {
        return None;
    }
    let fast = simd_decode(body);
    let lenient = if fast.is_none() {
        serde_decode(body)
    } else {
        None
    };
    prefer_decoded(fast, lenient)
}

/// The body that a handler is given for a request with this content type
/// header and these body bytes.
pub fn parse_json_body_fast(content_type: Option<&[u8]>, body: &[u8]) -> (value: Option<Value>)
    ensures
        value == parsed_body(header_bytes(content_type), body@),
{
    if !accepts_json(content_type) {
        return None;
    }
    decode_json_body(body)
}

} // verus!
