//! The response as it goes on the wire.
//!
//! The engine answers with plain values: the status, the two headers it
//! sets and the body. Whoever frames HTTP turns them into a response of the
//! framing library.

use crate::body::JSON_CONTENT_TYPE;
use crate::key::decimal;
use crate::options::{ResponseData, BAD_REQUEST_BODY, NOT_FOUND_BODY};
use crate::outside::{bytes_content, bytes_len, format_decimal, status_code, status_in_range};
use bytes::Bytes;
use vstd::prelude::*;
use vstd::string::StringSliceAdditionalSpecFns;
use vstd::utf8::is_ascii_chars_encode_utf8;

verus! {

/// The status that is sent where a handler names a number that is no status
/// code.
pub const FALLBACK_STATUS: u16 = 200;

/// A response on the wire: the status, the content type header, the content
/// length header and the body.
pub struct WireResponse {
    pub status: u16,
    pub content_type: &'static str,
    pub content_length: String,
    pub body: Bytes,
}

/// The status that is sent for the status code of a handler's response: the
/// code itself where it is at least 100 and below 1000, else 200.
pub open spec fn wire_status(status_code: u16) -> u16 {
    match status_in_range(status_code) {
        Some(code) => code,
        None => FALLBACK_STATUS,
    }
}

impl WireResponse {
    /// The bytes of the body.
    pub open spec fn body_bytes(&self) -> Seq<u8> {
        bytes_content(self.body)
    }

    /// Whether this is the wire form of a handler's response: the status is
    /// the handler's where that is a status code and 200 otherwise, the
    /// content type is `application/json`, the content length is the
    /// decimal length of the body, and the body is the handler's.
    pub open spec fn carries(&self, data: ResponseData) -> bool {
        &&& self.status == wire_status(data.status_code)
        &&& self.content_type@ == JSON_CONTENT_TYPE@
        &&& self.content_length@ == decimal(data.body().len())
        &&& self.body == data.data
    }

    /// Whether this is the response to a request that no route resolves:
    /// status 404, the JSON content type, and the fixed body
    /// `{"error":"Not Found"}` with its length of 21.
    pub open spec fn is_not_found(&self) -> bool {
        &&& self.status == 404
        &&& self.content_type@ == JSON_CONTENT_TYPE@
        &&& self.content_length@ == "21"@
        &&& self.body_bytes() == NOT_FOUND_BODY.spec_bytes()
    }

    /// Whether this is the response to a request with a method outside the
    /// closed set: status 400, the JSON content type, and the fixed body
    /// `{"error":"Bad Request"}` with its length of 23.
    pub open spec fn is_bad_request(&self) -> bool {
        &&& self.status == 400
        &&& self.content_type@ == JSON_CONTENT_TYPE@
        &&& self.content_length@ == "23"@
        &&& self.body_bytes() == BAD_REQUEST_BODY.spec_bytes()
    }
}

/// The fixed bodies have the lengths that their responses announce, and
/// those lengths are written `21` and `23`.
pub proof fn lemma_fixed_body_lengths()
    ensures
        NOT_FOUND_BODY.spec_bytes().len() == 21,
        BAD_REQUEST_BODY.spec_bytes().len() == 23,
        decimal(21) == "21"@,
        decimal(23) == "23"@,
{
    reveal_strlit("{\"error\":\"Not Found\"}");
    reveal_strlit("{\"error\":\"Bad Request\"}");
    reveal_strlit("21");
    reveal_strlit("23");
    is_ascii_chars_encode_utf8(NOT_FOUND_BODY@);
    is_ascii_chars_encode_utf8(BAD_REQUEST_BODY@);
    reveal_with_fuel(decimal, 3);
    assert(decimal(21) =~= "21"@);
    assert(decimal(23) =~= "23"@);
}

/// The wire form of a handler's response.
pub fn build_response_fast(result: ResponseData) -> (response: WireResponse)
    ensures
        response.carries(result),
{
    let status = match result.status_code {
        200 => 200,
        404 => 404,
        other => match status_code(other) {
            Some(code) => code,
            None => FALLBACK_STATUS,
        },
    };
    let content_length = format_decimal(bytes_len(&result.data));
    WireResponse { status, content_type: JSON_CONTENT_TYPE, content_length, body: result.data }
}

/// The response to a request that no route resolves.
pub fn not_found_response() -> (response: WireResponse)
    ensures
        response.is_not_found(),
        response.status == wire_status(404),
{
    proof {
        lemma_fixed_body_lengths();
    }
    build_response_fast(ResponseData::not_found())
}

/// The response to a request whose method is outside the closed set.
pub fn bad_request_response() -> (response: WireResponse)
    ensures
        response.is_bad_request(),
        response.status == wire_status(400),
{
    proof {
        lemma_fixed_body_lengths();
    }
    build_response_fast(ResponseData::bad_request())
}

} // verus!
