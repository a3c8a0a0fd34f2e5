use udemy_server::file_meta::{FileError, FileOps};
use udemy_server::filesystem::FileSystem;
use udemy_server::header::HttpHeader;
use udemy_server::method::Method;
use udemy_server::request::HttpRequest;
use udemy_server::response::HttpResponse;
use udemy_server::server::{respond, Handler, Server};
use udemy_server::status_code::StatusCode;
use udemy_server::website_handler::WebsiteHandler;

struct OnePage;

impl FileSystem for OnePage {
    fn get_full_path(&self, file_path: &str) -> String {
        format!("/srv/{}", file_path)
    }

    fn read_file(&self, file_path: &str) -> Option<String> {
        if file_path == "/srv/index.html" {
            Some("<h1>home</h1>".to_string())
        } else {
            None
        }
    }
}

struct FixedOps;

impl FileOps for FixedOps {
    fn get_file_size(&self, _path: &str) -> Result<u64, FileError> {
        Ok(13)
    }

    fn get_file_last_modified_time(&self, _path: &str) -> Result<String, FileError> {
        Ok("Thu, 01 Jan 1970 00:00:00 +0000".to_string())
    }
}

struct BrokenOps;

impl FileOps for BrokenOps {
    fn get_file_size(&self, _path: &str) -> Result<u64, FileError> {
        Err(FileError::Io("denied".to_string()))
    }

    fn get_file_last_modified_time(&self, _path: &str) -> Result<String, FileError> {
        Err(FileError::TimeFormat)
    }
}

struct Echo;

impl Handler for Echo {
    fn handle_request(&self, request: &HttpRequest) -> HttpResponse {
        if *request.method() == Method::GET {
            HttpResponse::empty_body(StatusCode::NoContent)
        } else {
            HttpResponse::empty_body(StatusCode::NotFound)
        }
    }
}

fn wire(response: &HttpResponse) -> String {
    let mut sink = Vec::new();
    response.send(&mut sink);
    String::from_utf8(sink).unwrap()
}

#[test]
fn not_found_without_body_serialises_exactly() {
    let response = HttpResponse::empty_body(StatusCode::NotFound);
    assert_eq!(wire(&response), "HTTP/1.1 404 Not Found\r\n\r\n");
}

#[test]
fn status_codes_and_reasons() {
    assert_eq!(StatusCode::Success.code(), 200);
    assert_eq!(StatusCode::Success.reason_phrase(), "OK");
    assert_eq!(StatusCode::NoContent.code(), 204);
    assert_eq!(StatusCode::BadRequest.code(), 400);
    assert_eq!(StatusCode::BadRequest.reason_phrase(), "Bad Request");
    assert_eq!(StatusCode::InternalError.code(), 500);
    assert_eq!(StatusCode::InternalError.reason_phrase(), "Internal Server Error");
}

#[test]
fn send_appends_to_the_sink() {
    let mut sink = b"prefix:".to_vec();
    HttpResponse::empty_body(StatusCode::BadRequest).send(&mut sink);
    assert_eq!(sink, b"prefix:HTTP/1.1 400 Bad Request\r\n\r\n".to_vec());
}

#[test]
fn response_with_headers_and_body_serialises_in_order() {
    let mut header = HttpHeader::new();
    header.insert("Content-Type".to_string(), "text/plain".to_string());
    header.insert("X-A".to_string(), "1".to_string());
    let response = HttpResponse::for_file(Some("héllo".to_string()), Ok(header));
    assert_eq!(
        wire(&response),
        "HTTP/1.1 200 OK\r\nContent-Type: text/plain\r\nX-A: 1\r\n\r\nhéllo"
    );
}

#[test]
fn for_file_outcomes() {
    let failed = HttpResponse::for_file(Some("x".to_string()), Err(FileError::TimeFormat));
    assert_eq!(failed.status_code(), StatusCode::InternalError);
    assert_eq!(failed.body().map(|b| b.as_str()), Some("time formatting error"));
    assert!(failed.header().is_none());

    let missing = HttpResponse::for_file(None, Err(FileError::TimeFormat));
    assert_eq!(missing.status_code(), StatusCode::NoContent);
    assert!(missing.body().is_none());
    assert!(missing.header().is_none());
}

#[test]
fn with_body_serves_a_page() {
    let response = HttpResponse::with_body("index.html", &OnePage, &FixedOps);
    assert_eq!(response.status_code(), StatusCode::Success);
    assert_eq!(response.body().map(|b| b.as_str()), Some("<h1>home</h1>"));
    let header = response.header().unwrap();
    assert_eq!(header.get("Content-Length").map(|s| s.as_str()), Some("13"));

    let missing = HttpResponse::with_body("nothing.html", &OnePage, &FixedOps);
    assert_eq!(missing.status_code(), StatusCode::NoContent);
    assert!(missing.header().is_some());

    let broken = HttpResponse::with_body("index.html", &OnePage, &BrokenOps);
    assert_eq!(broken.status_code(), StatusCode::InternalError);
    assert_eq!(broken.body().map(|b| b.as_str()), Some("I/O error: denied"));
}

#[test]
fn website_routes_pages() {
    let get_root = HttpRequest::try_from("GET / HTTP/1.1\r\nHost: x\r\n\r\n".as_bytes()).unwrap();
    let handler = WebsiteHandler::new(OnePage, FixedOps);
    assert_eq!(WebsiteHandler::<OnePage, FixedOps>::page(&get_root), Some("index.html".to_string()));
    assert_eq!(handler.handle_request(&get_root).status_code(), StatusCode::Success);

    let hello = HttpRequest::try_from("GET /hello HTTP/1.1\r\nHost: x\r\n\r\n".as_bytes()).unwrap();
    assert_eq!(WebsiteHandler::<OnePage, FixedOps>::page(&hello), Some("hello.html".to_string()));

    let nested = HttpRequest::try_from("GET //css/site.css HTTP/1.1\r\nHost: x\r\n\r\n".as_bytes()).unwrap();
    assert_eq!(WebsiteHandler::<OnePage, FixedOps>::page(&nested), Some("css/site.css".to_string()));

    let post = HttpRequest::try_from("POST / HTTP/1.1\r\nHost: x\r\n\r\n".as_bytes()).unwrap();
    assert_eq!(WebsiteHandler::<OnePage, FixedOps>::page(&post), None);
    assert_eq!(handler.handle_request(&post).status_code(), StatusCode::NotFound);
}

#[test]
fn respond_to_bytes() {
    assert_eq!(respond(&Echo, b""), None);
    let bad = respond(&Echo, b"garbage").unwrap();
    assert_eq!(String::from_utf8(bad).unwrap(), "HTTP/1.1 400 Bad Request\r\n\r\n");
    let good = respond(&Echo, b"GET / HTTP/1.1\r\nHost: x\r\n\r\n").unwrap();
    assert_eq!(String::from_utf8(good).unwrap(), "HTTP/1.1 204 No Content\r\n\r\n");
    let other = respond(&Echo, b"DELETE / HTTP/1.1\r\nHost: x\r\n\r\n").unwrap();
    assert_eq!(String::from_utf8(other).unwrap(), "HTTP/1.1 404 Not Found\r\n\r\n");
}

#[test]
fn server_keeps_its_address() {
    let server = Server::new("127.0.0.1:8080".to_string());
    assert_eq!(server.address(), "127.0.0.1:8080");
}
