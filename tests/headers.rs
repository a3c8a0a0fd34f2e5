use std::str::FromStr;

use udemy_server::builder::{HttpRequestHeaderBuilder, HttpResponseHeaderBuilder};
use udemy_server::file_meta::{http_date, FileError, FileOps};
use udemy_server::header::{parse_header, HttpHeader, MAX_HEADERS_COUNT, MAX_HEADER_LENGTH_VALUE};
use udemy_server::header_key::{HttpRequestHeaderKey, HttpResponseHeaderKey};
use udemy_server::request::ParseError;

struct FixedFileOps {
    size: Result<u64, FileError>,
    modified: Result<String, FileError>,
}

impl FileOps for FixedFileOps {
    fn get_file_size(&self, _path: &str) -> Result<u64, FileError> {
        self.size.clone()
    }

    fn get_file_last_modified_time(&self, _path: &str) -> Result<String, FileError> {
        self.modified.clone()
    }
}

#[test]
fn can_build_request_header() {
    let http_header = HttpRequestHeaderBuilder::new()
        .accept("*/*")
        .accept_language("en-US,en;q=0.9,fr-CA;q=0.8,fr;q=0.7,ru;q=0.6,ro;q=0.5,el;q=0.4")
        .accept_encoding("gzip, deflate, br, zstd")
        .cache_control("no-cache, no-store")
        .content_type("application/json")
        .custom("Time-Delta-Millis".to_string(), 294.to_string().as_str())
        .host("localhost")
        .user_agent("Mozilla/5.0 (X11; Linux x86_64) AppleWebKit/537.36 (KHTML, like Gecko) Chrome/126.0.0.0 Safari/537.36")
        .build();

    assert_eq!(http_header.get(HttpRequestHeaderKey::Accept).map(|s| s.as_str()), Some("*/*"));
    assert_eq!(
        http_header.get(HttpRequestHeaderKey::AcceptLanguage).map(|s| s.as_str()),
        Some("en-US,en;q=0.9,fr-CA;q=0.8,fr;q=0.7,ru;q=0.6,ro;q=0.5,el;q=0.4")
    );
    assert_eq!(
        http_header.get(HttpRequestHeaderKey::AcceptEncoding).map(|s| s.as_str()),
        Some("gzip, deflate, br, zstd")
    );
    assert_eq!(
        http_header.get(HttpRequestHeaderKey::CacheControl).map(|s| s.as_str()),
        Some("no-cache, no-store")
    );
    assert_eq!(
        http_header.get(HttpRequestHeaderKey::ContentType).map(|s| s.as_str()),
        Some("application/json")
    );
    assert_eq!(http_header.get("Time-Delta-Millis").map(|s| s.as_str()), Some("294"));
    assert_eq!(http_header.get(HttpRequestHeaderKey::Host).map(|s| s.as_str()), Some("localhost"));
    assert_eq!(
        http_header.get(HttpRequestHeaderKey::UserAgent).map(|s| s.as_str()),
        Some("Mozilla/5.0 (X11; Linux x86_64) AppleWebKit/537.36 (KHTML, like Gecko) Chrome/126.0.0.0 Safari/537.36")
    );
    assert_eq!(http_header.get("Not-Set-Header"), None);
    assert_eq!(http_header.len(), 8);
}

#[test]
fn can_build_response_header() {
    let mut builder = HttpResponseHeaderBuilder::new();
    builder.content_type("application/json");
    builder.content_length("256");
    builder.keep_alive("timeout=5, max=1000");
    builder.access_control_allow_origin("*");
    builder.connection("keep-alive");
    builder.last_modified("Wed, 21 Oct 2015 07:28:00 GMT");
    builder.custom("X-Custom-Header".to_string(), "custom value");
    let http_header = builder.build();

    assert_eq!(
        http_header.get(HttpResponseHeaderKey::ContentType).map(|s| s.as_str()),
        Some("application/json")
    );
    assert_eq!(http_header.get(HttpResponseHeaderKey::ContentLength).map(|s| s.as_str()), Some("256"));
    assert_eq!(
        http_header.get(HttpResponseHeaderKey::KeepAlive).map(|s| s.as_str()),
        Some("timeout=5, max=1000")
    );
    assert_eq!(
        http_header.get(HttpResponseHeaderKey::AccessControlAllowOrigin).map(|s| s.as_str()),
        Some("*")
    );
    assert_eq!(
        http_header.get(HttpResponseHeaderKey::Connection).map(|s| s.as_str()),
        Some("keep-alive")
    );
    assert_eq!(
        http_header.get(HttpResponseHeaderKey::LastModified).map(|s| s.as_str()),
        Some("Wed, 21 Oct 2015 07:28:00 GMT")
    );
    assert_eq!(http_header.get("X-Custom-Header").map(|s| s.as_str()), Some("custom value"));
    assert_eq!(http_header.get("Not-Set-Header"), None);
    assert_eq!(http_header.len(), 7);
}

#[test]
fn test_max_allowed_headers_count() {
    let input: String =
        (1..(MAX_HEADERS_COUNT + 2)).map(|i| format!("X-Custom-Header-{}: Value\r\n", i)).collect();
    let result = HttpHeader::from_str(&input);
    assert_eq!(result.err(), Some(ParseError::InvalidRequest("Too many HTTP headers".to_string())));
}

#[test]
fn exactly_the_maximum_number_of_headers_is_accepted() {
    let input: String =
        (1..(MAX_HEADERS_COUNT + 1)).map(|i| format!("X-Custom-Header-{}: Value\r\n", i)).collect();
    let header = HttpHeader::from_str(&input).unwrap();
    assert_eq!(header.len(), MAX_HEADERS_COUNT);
}

#[test]
fn the_line_after_the_maximum_is_not_read() {
    let mut input: String =
        (1..(MAX_HEADERS_COUNT + 1)).map(|i| format!("X-Custom-Header-{}: Value\r\n", i)).collect();
    input.push_str("no colon here\r\n");
    let result = HttpHeader::from_str(&input);
    assert_eq!(result.err(), Some(ParseError::InvalidRequest("Too many HTTP headers".to_string())));
}

#[test]
fn test_failed_parse_header_cases() {
    assert_eq!(
        HttpHeader::from_str("").err(),
        Some(ParseError::InvalidRequest("Http header missing!".to_string()))
    );
    assert_eq!(
        HttpHeader::from_str("Missing column").err(),
        Some(ParseError::InvalidRequest("Invalid header format!".to_string()))
    );
    let too_long = "X-Long: ".to_string() + &"a".repeat(MAX_HEADER_LENGTH_VALUE + 1);
    assert_eq!(
        HttpHeader::from_str(&too_long).err(),
        Some(ParseError::InvalidRequest("Header value too long for x-long".to_string()))
    );
}

#[test]
fn header_value_of_the_maximum_length_is_accepted() {
    let value = "a".repeat(MAX_HEADER_LENGTH_VALUE);
    let header = HttpHeader::from_str(&format!("X-Long: {}", value)).unwrap();
    assert_eq!(header.get("x-long").map(|s| s.as_str()), Some(value.as_str()));
}

#[test]
fn test_valid_header() {
    let text = "Host: www.example.com\r\nContent-Type: application/json\r\nUser-Agent: test\r\n\r\nignored: body\r\n";
    let header = HttpHeader::from_str(text).unwrap();
    assert_eq!(header.get(HttpRequestHeaderKey::Host).map(|s| s.as_str()), Some("www.example.com"));
    assert_eq!(
        header.get(HttpRequestHeaderKey::ContentType).map(|s| s.as_str()),
        Some("application/json")
    );
    assert_eq!(header.get("ignored"), None);
    assert_eq!(header.len(), 3);
}

#[test]
fn custom_header_keys_are_stored_in_lowercase() {
    let header = HttpHeader::from_str("X-Trace-Id:  abc  \r\n").unwrap();
    assert_eq!(header.get("x-trace-id").map(|s| s.as_str()), Some("abc"));
    assert_eq!(header.get("X-Trace-Id"), None);
}

#[test]
fn repeated_header_keeps_the_last_value() {
    let header = HttpHeader::from_str("host: a\r\nHOST: b\r\n").unwrap();
    assert_eq!(header.get(HttpRequestHeaderKey::Host).map(|s| s.as_str()), Some("b"));
    assert_eq!(header.len(), 1);
}

#[test]
fn parse_header_resolves_well_known_keys() {
    let (key, value) = parse_header("  content-LENGTH :  42 ").unwrap();
    assert_eq!(key, HttpRequestHeaderKey::ContentLength);
    assert_eq!(value, "42");
}

#[test]
fn insert_get_remove() {
    let mut header = HttpHeader::new();
    header.insert("A".to_string(), "1".to_string());
    header.insert("B".to_string(), "2".to_string());
    header.insert("A".to_string(), "3".to_string());
    assert_eq!(header.get("A").map(|s| s.as_str()), Some("3"));
    assert_eq!(header.len(), 2);
    assert_eq!(header.wire_lines(), "A: 3\r\nB: 2\r\n");
    header.remove("A");
    assert_eq!(header.get("A"), None);
    assert_eq!(header.get("B").map(|s| s.as_str()), Some("2"));
    header.remove("missing");
    assert_eq!(header.len(), 1);
}

#[test]
fn html_response_header_holds_the_fixed_set() {
    let header = HttpHeader::html_response_header(12, "Wed, 21 Oct 2015 07:28:00 +0000");
    assert_eq!(header.get(HttpResponseHeaderKey::ContentLength).map(|s| s.as_str()), Some("12"));
    assert_eq!(
        header.get(HttpResponseHeaderKey::ContentType).map(|s| s.as_str()),
        Some("text/html; charset=utf-8")
    );
    assert_eq!(header.get(HttpResponseHeaderKey::Connection).map(|s| s.as_str()), Some("keep-alive"));
    assert_eq!(
        header.get(HttpResponseHeaderKey::KeepAlive).map(|s| s.as_str()),
        Some("timeout=5, max=1000")
    );
    assert_eq!(
        header.get(HttpResponseHeaderKey::AccessControlAllowOrigin).map(|s| s.as_str()),
        Some("*")
    );
    assert_eq!(
        header.get(HttpResponseHeaderKey::LastModified).map(|s| s.as_str()),
        Some("Wed, 21 Oct 2015 07:28:00 +0000")
    );
    assert_eq!(header.get("X-Content-Type-Options").map(|s| s.as_str()), Some("nosniff"));
    assert_eq!(header.len(), 7);
}

#[test]
fn test_html_response_header_for_file() {
    let ops = FixedFileOps {
        size: Ok("Test content".len() as u64),
        modified: http_date(1_445_412_480),
    };
    let header = HttpHeader::html_response_header_for_file("test.html", &ops).unwrap();
    assert_eq!(header.get(HttpResponseHeaderKey::ContentLength).map(|s| s.as_str()), Some("12"));
    assert_eq!(
        header.get(HttpResponseHeaderKey::LastModified).map(|s| s.as_str()),
        Some("Wed, 21 Oct 2015 07:28:00 +0000")
    );
}

#[test]
fn test_html_response_header_for_file_failure() {
    let ops = FixedFileOps {
        size: Err(FileError::Io("File not found".to_string())),
        modified: Ok("Wed, 21 Oct 2015 07:28:00 +0000".to_string()),
    };
    let result = HttpHeader::html_response_header_for_file("test.html", &ops);
    assert_eq!(result.err(), Some(FileError::Io("File not found".to_string())));

    let ops = FixedFileOps { size: Ok(100), modified: Err(FileError::TimeFormat) };
    let result = HttpHeader::html_response_header_for_file("test.html", &ops);
    assert_eq!(result.err(), Some(FileError::TimeFormat));
}

#[test]
fn http_date_writes_rfc_2822() {
    assert_eq!(http_date(0).unwrap(), "Thu, 01 Jan 1970 00:00:00 +0000");
    assert_eq!(http_date(1_445_412_480).unwrap(), "Wed, 21 Oct 2015 07:28:00 +0000");
}

#[test]
fn http_date_refuses_years_before_1900() {
    assert_eq!(http_date(-2_208_988_801).err(), Some(FileError::TimeFormat));
}

#[test]
fn file_error_messages() {
    assert_eq!(FileError::Io("gone".to_string()).message(), "I/O error: gone");
    assert_eq!(FileError::TimeFormat.message(), "time formatting error");
}

#[test]
fn non_ascii_header_names_are_lowercased() {
    let header = HttpHeader::from_str("Ä-Ω: v\r\n").unwrap();
    assert_eq!(header.get("ä-ω").map(|s| s.as_str()), Some("v"));
    assert_eq!(header.len(), 1);
    let too_long = format!("ÄB: {}", "a".repeat(MAX_HEADER_LENGTH_VALUE + 1));
    assert_eq!(
        HttpHeader::from_str(&too_long).err(),
        Some(ParseError::InvalidRequest("Header value too long for äb".to_string()))
    );
}

#[test]
fn parse_header_splits_at_the_first_colon() {
    let (key, value) = parse_header("Host: localhost:8080").unwrap();
    assert_eq!(key, HttpRequestHeaderKey::Host);
    assert_eq!(value, "localhost:8080");
    let (key, _) = parse_header("host: x").unwrap();
    assert_eq!(key, HttpRequestHeaderKey::Host);
    let (key, _) = parse_header("X-Custom: x").unwrap();
    assert_eq!(key, HttpRequestHeaderKey::Custom("x-custom".to_string()));
}

#[test]
fn mixed_case_well_known_names_are_stored_canonically() {
    let header =
        HttpHeader::from_str("cOnTeNt-TyPe: application/json\r\nhost: localhost\r\n").unwrap();
    assert_eq!(header.get("Content-Type").map(|s| s.as_str()), Some("application/json"));
    assert_eq!(header.get("Host").map(|s| s.as_str()), Some("localhost"));
    assert_eq!(header.get("host"), None);
    assert_eq!(header.len(), 2);
}

#[test]
fn entries_are_reachable_in_order() {
    let header = HttpHeader::from_str("B: 2\r\nA: 1\r\nb: 3\r\n").unwrap();
    assert_eq!(header.len(), 2);
    let (k0, v0) = header.entry_at(0);
    let (k1, v1) = header.entry_at(1);
    assert_eq!((k0.as_str(), v0.as_str()), ("b", "3"));
    assert_eq!((k1.as_str(), v1.as_str()), ("a", "1"));
}

#[test]
fn http_date_range_limits() {
    assert_eq!(http_date(-2_208_988_800).unwrap(), "Mon, 01 Jan 1900 00:00:00 +0000");
    assert_eq!(http_date(253_402_300_799).unwrap(), "Fri, 31 Dec 9999 23:59:59 +0000");
    assert_eq!(http_date(253_402_300_800).err(), Some(FileError::TimeFormat));
}
