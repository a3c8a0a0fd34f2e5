use udemy_server::header_key::{HeaderName, HttpRequestHeaderKey};
use udemy_server::method::{Method, MethodError};
use udemy_server::query_string::{QueryString, Value};
use udemy_server::request::{get_next_word, HttpRequest, ParseError, HTTP1};

const VALID_REQUEST: &str = "GET /home?name=none HTTP/1.1\r\nHost: x\r\n\r\n";

#[test]
fn get_next_word_parses_essential_parts_of_http_request() {
    let (method, request) = get_next_word(VALID_REQUEST).unwrap();
    let (path, request) = get_next_word(request).unwrap();
    let (protocol, _) = get_next_word(request).unwrap();
    assert_eq!(method, "GET");
    assert_eq!(path, "/home?name=none");
    assert_eq!(protocol, HTTP1);
}

#[test]
fn get_next_word_without_a_word_end() {
    assert_eq!(get_next_word("GET"), None);
    assert_eq!(get_next_word("a\nb"), Some(("a", "b")));
}

#[test]
fn try_from_u8_array_should_return_http_request_for_valid_header() {
    let request = HttpRequest::try_from(VALID_REQUEST.as_bytes()).unwrap();
    assert_eq!(*request.method(), Method::GET);
    assert_eq!(request.path(), "/home");
    let query = request.query_string().as_ref().unwrap();
    assert_eq!(query, &QueryString::from("name=none"));
    assert_eq!(query.get("name"), Some(&Value::Single("none".to_string())));
    assert_eq!(request.header().get(HttpRequestHeaderKey::Host).map(|s| s.as_str()), Some("x"));
    assert_eq!(request.header().get("Host").map(|s| s.as_str()), Some("x"));
}

#[test]
fn request_without_query() {
    let request = HttpRequest::try_from("POST /submit HTTP/1.1\r\nHost: x\r\n\r\n".as_bytes()).unwrap();
    assert_eq!(*request.method(), Method::POST);
    assert_eq!(request.path(), "/submit");
    assert!(request.query_string().is_none());
}

#[test]
fn request_with_wrong_protocol_is_refused() {
    let result = HttpRequest::try_from("GET / HTTP/1.0\r\nHost: x\r\n\r\n".as_bytes());
    assert_eq!(result.err(), Some(ParseError::InvalidProtocol));
    let result = HttpRequest::try_from("GET / HTTP/2\r\n\r\n".as_bytes());
    assert_eq!(result.err(), Some(ParseError::InvalidProtocol));
}

#[test]
fn request_with_unknown_method_is_refused() {
    let result = HttpRequest::try_from("FETCH / HTTP/1.1\r\nHost: x\r\n\r\n".as_bytes());
    assert_eq!(result.err(), Some(ParseError::InvalidMethodError));
    let result = HttpRequest::try_from("get / HTTP/1.1\r\nHost: x\r\n\r\n".as_bytes());
    assert_eq!(result.err(), Some(ParseError::InvalidMethodError));
}

#[test]
fn request_with_invalid_utf8_is_refused() {
    let bytes: &[u8] = &[b'G', b'E', b'T', b' ', 0xff, 0xfe, b' '];
    assert_eq!(HttpRequest::try_from(bytes).err(), Some(ParseError::InvalidEncoding));
}

#[test]
fn request_with_missing_words_is_refused() {
    assert_eq!(
        HttpRequest::try_from("GET".as_bytes()).err(),
        Some(ParseError::InvalidRequest("Method missing".to_string()))
    );
    assert_eq!(
        HttpRequest::try_from("GET /".as_bytes()).err(),
        Some(ParseError::InvalidRequest("Path missing".to_string()))
    );
    assert_eq!(
        HttpRequest::try_from("GET / HTTP/1.1".as_bytes()).err(),
        Some(ParseError::InvalidRequest("Protocol missing".to_string()))
    );
}

#[test]
fn request_without_headers_is_refused() {
    assert_eq!(
        HttpRequest::try_from("GET / HTTP/1.1\r\n\r\n".as_bytes()).err(),
        Some(ParseError::InvalidRequest("Http header missing!".to_string()))
    );
}

#[test]
fn request_with_101_headers_is_refused() {
    let mut text = "GET / HTTP/1.1\r\n".to_string();
    for i in 1..=101 {
        text.push_str(&format!("X-Header-{}: v\r\n", i));
    }
    text.push_str("\r\n");
    assert_eq!(
        HttpRequest::try_from(text.as_bytes()).err(),
        Some(ParseError::InvalidRequest("Too many HTTP headers".to_string()))
    );
}

#[test]
fn request_header_value_boundary() {
    let ok = format!("GET / HTTP/1.1\r\nX-V: {}\r\n\r\n", "v".repeat(250));
    assert!(HttpRequest::try_from(ok.as_bytes()).is_ok());
    let too_long = format!("GET / HTTP/1.1\r\nX-V: {}\r\n\r\n", "v".repeat(251));
    assert_eq!(
        HttpRequest::try_from(too_long.as_bytes()).err(),
        Some(ParseError::InvalidRequest("Header value too long for x-v".to_string()))
    );
}

#[test]
fn parse_error_messages() {
    assert_eq!(ParseError::InvalidRequest("x".to_string()).message(), "Invalid Request: x");
    assert_eq!(ParseError::InvalidEncoding.message(), "Invalid Encoding");
    assert_eq!(ParseError::InvalidProtocol.message(), "Invalid Protocol");
    assert_eq!(ParseError::InvalidMethodError.message(), "Invalid Method Error");
}

#[test]
fn methods_parse_exactly() {
    assert_eq!("GET".parse::<Method>(), Ok(Method::GET));
    assert_eq!(Method::parse("PATCH"), Ok(Method::PATCH));
    assert_eq!(Method::parse("OPTIONS"), Ok(Method::OPTIONS));
    assert_eq!(Method::parse("Get"), Err(MethodError));
    assert_eq!(Method::parse(""), Err(MethodError));
}

#[test]
fn query_repeated_key_becomes_multiple_in_order() {
    let q = QueryString::from("a=1&a=2&a=3");
    assert_eq!(
        q.get("a"),
        Some(&Value::Multiple(vec!["1".to_string(), "2".to_string(), "3".to_string()]))
    );
}

#[test]
fn query_key_without_value_is_empty() {
    let q = QueryString::from("flag&x=1=2&&y=");
    assert_eq!(q.get("flag"), Some(&Value::Single(String::new())));
    assert_eq!(q.get("x"), Some(&Value::Single("1=2".to_string())));
    assert_eq!(q.get(""), Some(&Value::Single(String::new())));
    assert_eq!(q.get("y"), Some(&Value::Single(String::new())));
    assert_eq!(q.get("z"), None);
}

#[test]
fn query_key_without_value_joins_its_repeats() {
    let q = QueryString::from("a=1&a");
    assert_eq!(q.get("a"), Some(&Value::Multiple(vec!["1".to_string(), String::new()])));
}

#[test]
fn key_for_well_known_names_in_any_case() {
    for key in [
        HttpRequestHeaderKey::Accept,
        HttpRequestHeaderKey::AcceptEncoding,
        HttpRequestHeaderKey::AcceptLanguage,
        HttpRequestHeaderKey::Authorization,
        HttpRequestHeaderKey::Host,
        HttpRequestHeaderKey::CacheControl,
        HttpRequestHeaderKey::ContentType,
        HttpRequestHeaderKey::ContentLength,
        HttpRequestHeaderKey::Cookie,
        HttpRequestHeaderKey::Origin,
        HttpRequestHeaderKey::Referer,
        HttpRequestHeaderKey::UserAgent,
    ] {
        let name = key.wire_name().to_string();
        assert_eq!(HttpRequestHeaderKey::key_for(&name), key);
        assert_eq!(HttpRequestHeaderKey::key_for(&name.to_uppercase()), key);
        assert_eq!(HttpRequestHeaderKey::key_for(&format!("  {} ", name.to_lowercase())), key);
        assert_eq!(HttpRequestHeaderKey::key_for(&name).wire_name(), name);
    }
}

#[test]
fn key_for_unknown_name_keeps_it_trimmed() {
    let key = HttpRequestHeaderKey::key_for("  X-Request-ID ");
    assert_eq!(key, HttpRequestHeaderKey::Custom("X-Request-ID".to_string()));
    assert_eq!(key.wire_name(), "X-Request-ID");
}
