//! What handlers are given and what they give back.

use crate::outside::{bytes_content, bytes_from_static};
use bytes::Bytes;
use serde_json::Value;
use vstd::prelude::*;
use vstd::string::StringSliceAdditionalSpecFns;

verus! {

/// The body of the response to a request that no route resolves.
pub const NOT_FOUND_BODY: &'static str = "{\"error\":\"Not Found\"}";

/// The body of the response to a request that failed inside the server.
pub const INTERNAL_ERROR_BODY: &'static str = "{\"error\":\"Internal Server Error\"}";

/// The body of the response to a request that the server cannot read.
pub const BAD_REQUEST_BODY: &'static str = "{\"error\":\"Bad Request\"}";

/// The response of a handler: a status code and the bytes of the body.
pub struct ResponseData {
    pub data: Bytes,
    pub status_code: u16,
}

impl ResponseData {
    /// The bytes of the body.
    pub open spec fn body(&self) -> Seq<u8> {
        bytes_content(self.data)
    }

    /// A response with the given body and status code.
    pub fn new(data: Bytes, status_code: u16) -> (response: Self)
        ensures
            response.data == data,
            response.status_code == status_code,
    {
        Self { data, status_code }
    }

    /// A response with the given body and status 200.
    pub fn ok(data: Bytes) -> (response: Self)
        ensures
            response.data == data,
            response.status_code == 200,
    {
        Self::new(data, 200)
    }

    /// The response with status 404 and the fixed body
    /// `{"error":"Not Found"}`.
    pub fn not_found() -> (response: Self)
        ensures
            response.status_code == 404,
            response.body() == NOT_FOUND_BODY.spec_bytes(),
    {
        Self { data: bytes_from_static(NOT_FOUND_BODY), status_code: 404 }
    }

    /// The response with status 500 and the fixed body
    /// `{"error":"Internal Server Error"}`.
    pub fn internal_error() -> (response: Self)
        ensures
            response.status_code == 500,
            response.body() == INTERNAL_ERROR_BODY.spec_bytes(),
    {
        Self { data: bytes_from_static(INTERNAL_ERROR_BODY), status_code: 500 }
    }

    /// The response with status 400 and the fixed body
    /// `{"error":"Bad Request"}`.
    pub fn bad_request() -> (response: Self)
        ensures
            response.status_code == 400,
            response.body() == BAD_REQUEST_BODY.spec_bytes(),
    {
        Self { data: bytes_from_static(BAD_REQUEST_BODY), status_code: 400 }
    }
}

/// What a handler is called with: the parsed JSON body of the request, where
/// it has one, and the parameters taken from its path, where there are any.
pub struct TachyonOptions {
    pub body: Option<Value>,
    pub params: Option<Value>,
}

impl TachyonOptions {
    /// Options without body and without parameters.
    pub fn empty() -> (options: Self)
        ensures
            options.body is None,
            options.params is None,
    {
        Self { body: None, params: None }
    }

    /// Options with a body only.
    pub fn with_body(body: Value) -> (options: Self)
        ensures
            options.body == Some(body),
            options.params is None,
    {
        Self { body: Some(body), params: None }
    }

    /// Options with parameters only.
    pub fn with_params(params: Value) -> (options: Self)
        ensures
            options.body is None,
            options.params == Some(params),
    {
        Self { body: None, params: Some(params) }
    }

    /// Options with both a body and parameters.
    pub fn with_body_and_params(body: Value, params: Value) -> (options: Self)
        ensures
            options.body == Some(body),
            options.params == Some(params),
    {
        Self { body: Some(body), params: Some(params) }
    }
}

impl Default for TachyonOptions {
    fn default() -> (options: Self)
        ensures
            options.body is None,
            options.params is None,
    {
        Self::empty()
    }
}

} // verus!
