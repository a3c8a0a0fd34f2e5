//! Responses and their serialisation.

use vstd::prelude::*;
use vstd::string::*;
use vstd::utf8::*;
use crate::file_meta::{file_error_text, FileError, FileOps};
use crate::filesystem::FileSystem;
use crate::header::{header_text, HttpHeader};
use crate::request::HTTP1;
use crate::status_code::StatusCode;
use crate::text::{decimal, decimal_string};

verus! {

/// The model of a response: status, header entries in serialisation order,
/// and body.
pub struct ResponseModel {
    pub status: StatusCode,
    pub header: Option<Seq<(Seq<char>, Seq<char>)>>,
    pub body: Option<Seq<char>>,
}

/// A response on the wire: the status line, the header lines, a blank line,
/// then the body; an absent header block or body is empty.
pub open spec fn response_text(m: ResponseModel) -> Seq<char> {
    "HTTP/1.1"@ + " "@ + decimal(m.status.spec_code() as nat) + " "@ + m.status.spec_reason()
        + "\r\n"@ + match m.header {
        Some(entries) => header_text(entries),
        None => seq![],
    } + "\r\n"@ + match m.body {
        Some(b) => b,
        None => seq![],
    }
}

/// A response.
#[derive(Debug)]
pub struct HttpResponse {
    status_code: StatusCode,
    body: Option<String>,
    http_header: Option<HttpHeader>,
}

impl View for HttpResponse {
    type V = ResponseModel;

    closed spec fn view(&self) -> ResponseModel {
        ResponseModel {
            status: self.status_code,
            header: match self.http_header {
                Some(h) => Some(h.entries()),
                None => None,
            },
            body: match self.body {
                Some(b) => Some(b@),
                None => None,
            },
        }
    }
}

impl HttpResponse {
    /// The response for a file: its contents with status 200 and the HTML
    /// headers when both could be had; status 500 with the error's text
    /// when the contents could be read but the headers not; status 204
    /// with no body when the contents could not be read.
    pub fn for_file(contents: Option<String>, header: Result<HttpHeader, FileError>) -> (r:
        HttpResponse)
        ensures
            match (contents, header) {
                (Some(c), Ok(h)) => r@ == ResponseModel {
                    status: StatusCode::Success,
                    header: Some(h.entries()),
                    body: Some(c@),
                },
                (Some(_), Err(e)) => r@ == ResponseModel {
                    status: StatusCode::InternalError,
                    header: None,
                    body: Some(file_error_text(e)),
                },
                (None, Ok(h)) => r@ == ResponseModel {
                    status: StatusCode::NoContent,
                    header: Some(h.entries()),
                    body: None,
                },
                (None, Err(_)) => r@ == ResponseModel {
                    status: StatusCode::NoContent,
                    header: None,
                    body: None,
                },
            },
    {
        match (contents, header) {
            (Some(c), Ok(h)) => HttpResponse {
                status_code: StatusCode::Success,
                body: Some(c),
                http_header: Some(h),
            },
            (Some(_), Err(e)) => HttpResponse {
                status_code: StatusCode::InternalError,
                body: Some(e.message()),
                http_header: None,
            },
            (None, h) => HttpResponse {
                status_code: StatusCode::NoContent,
                body: None,
                http_header: match h {
                    Ok(h) => Some(h),
                    Err(_) => None,
                },
            },
        }
    }

    /// The response that serves the file at `file_path`: its contents from
    /// `file_system` and its headers from `file_ops`, both at its full path.
    pub fn with_body<S: FileSystem, O: FileOps>(file_path: &str, file_system: &S, file_ops: &O) -> (r:
        HttpResponse)
        ensures
            r@.status == StatusCode::Success ==> r@.body is Some && r@.header is Some,
            r@.status == StatusCode::InternalError ==> r@.body is Some && r@.header is None,
            r@.status == StatusCode::NoContent ==> r@.body is None,
            r@.status == StatusCode::Success || r@.status == StatusCode::InternalError
                || r@.status == StatusCode::NoContent,
    {
        let full_path = file_system.get_full_path(file_path);
        let contents = file_system.read_file(full_path.as_str());
        let header = HttpHeader::html_response_header_for_file(full_path.as_str(), file_ops);
        HttpResponse::for_file(contents, header)
    }

    /// A response with no body and no headers.
    pub fn empty_body(status_code: StatusCode) -> (r: HttpResponse)
        ensures
            r@ == (ResponseModel { status: status_code, header: None, body: None }),
    {
        HttpResponse { status_code, body: None, http_header: None }
    }

    /// The status.
    pub fn status_code(&self) -> (r: StatusCode)
        ensures
            r == self@.status,
    {
        self.status_code
    }

    /// The body, if any.
    pub fn body(&self) -> (r: Option<&String>)
        ensures
            match r {
                Some(b) => self@.body == Some(b@),
                None => self@.body is None,
            },
    {
        match &self.body {
            Some(b) => Some(b),
            None => None,
        }
    }

    /// The headers, if any.
    pub fn header(&self) -> (r: Option<&HttpHeader>)
        ensures
            match r {
                Some(h) => self@.header == Some(h.entries()),
                None => self@.header is None,
            },
    {
        match &self.http_header {
            Some(h) => Some(h),
            None => None,
        }
    }

    /// The response on the wire.
    pub fn to_text(&self) -> (r: String)
        ensures
            r@ == response_text(self@),
    {
        let mut text = HTTP1.to_owned();
        text.append(" ");
        text.append(decimal_string(self.status_code.code() as u64).as_str());
        text.append(" ");
        text.append(self.status_code.reason_phrase());
        text.append("\r\n");
        match &self.http_header {
            Some(h) => text.append(h.wire_lines().as_str()),
            None => {},
        }
        text.append("\r\n");
        match &self.body {
            Some(b) => text.append(b.as_str()),
            None => {},
        }
        proof {
            reveal_strlit("");
        }
        text
    }

    /// Writes the response to `sink`, as UTF-8 bytes.
    pub fn send(&self, sink: &mut Vec<u8>)
        ensures
            final(sink)@ == old(sink)@ + encode_utf8(response_text(self@)),
    {
        let text = self.to_text();
        let bytes = text.as_str().as_bytes();
        let mut i: usize = 0;
        let ghost start = sink@;
        while i < bytes.len()
            invariant
                i <= bytes@.len(),
                bytes@ == encode_utf8(text@),
                sink@ == start + bytes@.take(i as int),
            decreases bytes@.len() - i,
        {
            sink.push(bytes[i]);
            i += 1;
            assert(sink@ =~= start + bytes@.take(i as int));
        }
        assert(bytes@.take(i as int) =~= bytes@);
    }
}

} // verus!
