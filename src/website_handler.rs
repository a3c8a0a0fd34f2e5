//! The handler that serves the published website: GET requests are
//! answered with the page their path names, other methods with 404.

use vstd::prelude::*;
use vstd::string::*;
use crate::file_meta::FileOps;
use crate::filesystem::FileSystem;
use crate::method::Method;
use crate::request::HttpRequest;
use crate::response::{HttpResponse, ResponseModel};
use crate::server::Handler;
use crate::status_code::StatusCode;
use crate::text::{str_eq, strip_leading, trim_start_matches};

verus! {

/// The page that a request names: for GET, `index.html` for `/`,
/// `hello.html` for `/hello`, and otherwise the path without its leading
/// slashes; no page for any other method.
pub open spec fn page_for(method: Method, path: Seq<char>) -> Option<Seq<char>> {
    if method != Method::GET {
        None
    } else if path == "/"@ {
        Some("index.html"@)
    } else if path == "/hello"@ {
        Some("hello.html"@)
    } else {
        Some(strip_leading(path, '/'))
    }
}

/// Serves the pages of a file system.
pub struct WebsiteHandler<F: FileSystem, O: FileOps> {
    file_system: F,
    file_ops: O,
}

impl<F: FileSystem, O: FileOps> WebsiteHandler<F, O> {
    /// A handler serving the files of `file_system`, with the metadata of
    /// `file_ops`.
    pub fn new(file_system: F, file_ops: O) -> (r: Self) {
        WebsiteHandler { file_system, file_ops }
    }

    /// The page that `request` names.
    pub fn page(request: &HttpRequest) -> (r: Option<String>)
        ensures
            match r {
                Some(p) => page_for(request@.method, request@.path) == Some(p@),
                None => page_for(request@.method, request@.path) is None,
            },
    {
        if *request.method() != Method::GET {
            return None;
        }
        let path = request.path().as_str();
        if str_eq(path, "/") {
            Some("index.html".to_owned())
        } else if str_eq(path, "/hello") {
            Some("hello.html".to_owned())
        } else {
            Some(trim_start_matches(path, '/').to_owned())
        }
    }
}

impl<F: FileSystem, O: FileOps> Handler for WebsiteHandler<F, O> {
    fn handle_request(&self, request: &HttpRequest) -> (r: HttpResponse)
        ensures
            page_for(request@.method, request@.path) is None ==> r@ == (ResponseModel {
                status: StatusCode::NotFound,
                header: None,
                body: None,
            }),
            page_for(request@.method, request@.path) is Some ==> (r@.status == StatusCode::Success
                || r@.status == StatusCode::InternalError || r@.status == StatusCode::NoContent),
    {
        match Self::page(request) {
            Some(page) => HttpResponse::with_body(page.as_str(), &self.file_system, &self.file_ops),
            None => HttpResponse::empty_body(StatusCode::NotFound),
        }
    }
}

} // verus!
