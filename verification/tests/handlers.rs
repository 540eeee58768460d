use axum_course::handlers::{
    basic_request_handler, body_handler, handler_trait_handler, header_handler, json_response_handler,
    multiple_handler, path2_handler, query_handler, response_handler, result_handler, GetUserQueryParams,
    HeaderField, MultipleParams, PathName, RequestHeaders,
};

fn headers(fields: &[(&str, &[u8])]) -> RequestHeaders {
    RequestHeaders {
        fields: fields
            .iter()
            .map(|(n, v)| HeaderField { name: n.as_bytes().to_vec(), value: v.to_vec() })
            .collect(),
    }
}

#[test]
fn basic_request_handler_test() {
    let body = "<h1>Hello!</h1>".as_bytes().to_vec();
    assert_eq!(basic_request_handler(body), "<h1>Hello!</h1>");
}

#[test]
fn basic_request_handler_keeps_multibyte_text() {
    let body = "grüße 🌎".as_bytes().to_vec();
    assert_eq!(basic_request_handler(body), "grüße 🌎");
}

#[test]
fn path2_handler_test() {
    assert_eq!(path2_handler("jdoe".to_string(), 1), "jdoe:1");
}

#[test]
fn path2_handler_large_id() {
    assert_eq!(path2_handler("x".to_string(), u64::MAX), "x:18446744073709551615");
}

#[test]
fn query_handler_test() {
    let q = GetUserQueryParams { name: "jdoe".to_string(), age: 42 };
    assert_eq!(query_handler(q), "name=jdoe&age=42");
}

#[test]
fn query_handler_zero_age() {
    let q = GetUserQueryParams { name: String::new(), age: 0 };
    assert_eq!(query_handler(q), "name=&age=0");
}

#[test]
fn multiple_handler_test() {
    let r = multiple_handler(MultipleParams { limit: 10 }, PathName { name: "jdoe".to_string() });
    assert_eq!(r, "jdoe:10");
}

#[test]
fn header_handler_test() {
    let h = headers(&[("content-type", b"application/json")]);
    assert_eq!(header_handler(&h), Ok("application/json".to_string()));
}

#[test]
fn header_handler_ignores_name_case() {
    let h = headers(&[("accept", b"*/*"), ("Content-Type", b"text/html")]);
    assert_eq!(header_handler(&h), Ok("text/html".to_string()));
}

#[test]
fn header_handler_takes_first_field() {
    let h = headers(&[("content-type", b"a/b"), ("CONTENT-TYPE", b"c/d")]);
    assert_eq!(header_handler(&h), Ok("a/b".to_string()));
}

#[test]
fn header_handler_without_content_type() {
    let h = headers(&[("accept", b"*/*"), ("content-length", b"2")]);
    assert_eq!(header_handler(&h), Err("No Content-Type header found".to_string()));
    let empty = headers(&[]);
    assert_eq!(header_handler(&empty), Err("No Content-Type header found".to_string()));
}

#[test]
fn header_handler_keeps_tabs_and_spaces() {
    let h = headers(&[("content-type", b"text/plain;\tcharset=utf-8 ")]);
    assert_eq!(header_handler(&h), Ok("text/plain;\tcharset=utf-8 ".to_string()));
}

#[test]
fn response_handler_test() {
    let r = response_handler();
    assert_eq!(r.status, 200);
    assert_eq!(r.content_type, "text/plain");
    assert_eq!(r.body, "");
}

#[test]
fn json_response_handler_test() {
    assert_eq!(json_response_handler().name, "John Doe");
}

#[test]
fn handler_trait_test() {
    assert_eq!(handler_trait_handler("/potato".to_string()).name, "/potato");
}

#[test]
fn body_handler_test() {
    assert_eq!(body_handler(), "Hello, world!");
}

#[test]
fn result_handler_test() {
    assert_eq!(result_handler(), Err(500));
}
