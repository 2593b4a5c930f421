use bytes::Bytes;
use serde_json::Value;
use tachyon::options::{ResponseData, TachyonOptions};
use tachyon::response::{bad_request_response, build_response_fast, not_found_response};
use tachyon::router::TachyonRouter;

#[test]
fn response_data_keeps_body_and_status() {
    let response = ResponseData::new(Bytes::from("hello"), 202);
    assert_eq!(&response.data[..], b"hello");
    assert_eq!(response.status_code, 202);
}

#[test]
fn ok_is_status_200() {
    let response = ResponseData::ok(Bytes::from("hello"));
    assert_eq!(&response.data[..], b"hello");
    assert_eq!(response.status_code, 200);
}

#[test]
fn fixed_error_responses_have_their_bodies() {
    let not_found = ResponseData::not_found();
    assert_eq!(not_found.status_code, 404);
    assert_eq!(&not_found.data[..], b"{\"error\":\"Not Found\"}");
    let internal = ResponseData::internal_error();
    assert_eq!(internal.status_code, 500);
    assert_eq!(&internal.data[..], b"{\"error\":\"Internal Server Error\"}");
    let bad = ResponseData::bad_request();
    assert_eq!(bad.status_code, 400);
    assert_eq!(&bad.data[..], b"{\"error\":\"Bad Request\"}");
}

#[test]
fn options_hold_what_they_were_made_with() {
    let empty = TachyonOptions::empty();
    assert!(empty.body.is_none() && empty.params.is_none());
    let default = TachyonOptions::default();
    assert!(default.body.is_none() && default.params.is_none());
    let body = TachyonOptions::with_body(Value::Bool(true));
    assert_eq!(body.body, Some(Value::Bool(true)));
    assert!(body.params.is_none());
    let params = TachyonOptions::with_params(Value::Null);
    assert!(params.body.is_none());
    assert_eq!(params.params, Some(Value::Null));
    let both = TachyonOptions::with_body_and_params(Value::Bool(false), Value::Bool(true));
    assert_eq!(both.body, Some(Value::Bool(false)));
    assert_eq!(both.params, Some(Value::Bool(true)));
}

#[test]
fn router_holds_method_and_handler() {
    let handler = std::sync::Arc::new(|_options: TachyonOptions| ResponseData::not_found());
    let route = TachyonRouter::new(3, std::sync::Arc::clone(&handler));
    assert_eq!(route.method(), 3);
    assert!(std::sync::Arc::ptr_eq(route.handler(), &handler));
}

#[test]
fn wire_response_carries_status_headers_and_body() {
    let response = build_response_fast(ResponseData::new(Bytes::from("hello world"), 201));
    assert_eq!(response.status, 201);
    assert_eq!(response.content_type, "application/json");
    assert_eq!(response.content_length, "11");
    assert_eq!(&response.body[..], b"hello world");
}

#[test]
fn content_length_is_the_decimal_length_of_the_body() {
    let empty = build_response_fast(ResponseData::ok(Bytes::new()));
    assert_eq!(empty.content_length, "0");
    let nine = build_response_fast(ResponseData::ok(Bytes::from("123456789")));
    assert_eq!(nine.content_length, "9");
    let ten = build_response_fast(ResponseData::ok(Bytes::from("1234567890")));
    assert_eq!(ten.content_length, "10");
    let long = build_response_fast(ResponseData::ok(Bytes::from(vec![b'x'; 12345])));
    assert_eq!(long.content_length, "12345");
    // The length counts bytes, not characters.
    let wide = build_response_fast(ResponseData::ok(Bytes::from("\u{e9}")));
    assert_eq!(wide.content_length, "2");
}

#[test]
fn status_codes_from_100_to_999_are_sent_as_they_are() {
    for code in [100u16, 200, 204, 404, 418, 500, 504, 599, 600, 999] {
        let response = build_response_fast(ResponseData::new(Bytes::new(), code));
        assert_eq!(response.status, code);
    }
}

#[test]
fn other_status_codes_are_sent_as_200() {
    for code in [0u16, 1, 99, 1000, 1001, 40000, u16::MAX] {
        let response = build_response_fast(ResponseData::new(Bytes::new(), code));
        assert_eq!(response.status, 200);
    }
}

#[test]
fn not_found_response_is_fixed() {
    let response = not_found_response();
    assert_eq!(response.status, 404);
    assert_eq!(response.content_type, "application/json");
    assert_eq!(response.content_length, "21");
    assert_eq!(&response.body[..], b"{\"error\":\"Not Found\"}");
    assert_eq!(response.body.len(), 21);
}

#[test]
fn bad_request_response_is_fixed() {
    let response = bad_request_response();
    assert_eq!(response.status, 400);
    assert_eq!(response.content_type, "application/json");
    assert_eq!(response.content_length, "23");
    assert_eq!(&response.body[..], b"{\"error\":\"Bad Request\"}");
    assert_eq!(response.body.len(), 23);
}
