//! Builders of request and response headers: one setter per well-known key
//! and one for custom keys; `build` hands the headers over.

use vstd::prelude::*;
use vstd::string::*;
use crate::file_meta::{FileError, FileOps};
use crate::header::HttpHeader;
use crate::header_key::{HeaderName, HttpRequestHeaderKey, HttpResponseHeaderKey};
use crate::text::{decimal, decimal_string};

verus! {

/// Builds the headers of a request.
pub struct HttpRequestHeaderBuilder {
    headers: HttpHeader,
}

/// Builds the headers of a response.
pub struct HttpResponseHeaderBuilder {
    headers: HttpHeader,
}

impl View for HttpRequestHeaderBuilder {
    type V = Map<Seq<char>, Seq<char>>;

    closed spec fn view(&self) -> Map<Seq<char>, Seq<char>> {
        self.headers@
    }
}

impl View for HttpResponseHeaderBuilder {
    type V = Map<Seq<char>, Seq<char>>;

    closed spec fn view(&self) -> Map<Seq<char>, Seq<char>> {
        self.headers@
    }
}

impl HttpRequestHeaderBuilder {
    /// The headers are well formed.
    pub closed spec fn wf(&self) -> bool {
        self.headers.wf()
    }

    /// A builder with no headers.
    pub fn new() -> (r: Self)
        ensures
            r.wf(),
            r@ == Map::<Seq<char>, Seq<char>>::empty(),
    {
        HttpRequestHeaderBuilder { headers: HttpHeader::new() }
    }

    /// The builder with `value` stored under the wire name of `key`.
    fn with_key(self, key: HttpRequestHeaderKey, value: &str) -> (r: Self)
        requires
            self.wf(),
        ensures
            r.wf(),
            r@ == self@.insert(key.name_view(), value@),
    {
        let mut b = self;
        b.headers.insert(key.wire_name().to_owned(), value.to_owned());
        b
    }

    /// Sets `Accept`.
    pub fn accept(self, value: &str) -> (r: Self)
        requires
            self.wf(),
        ensures
            r.wf(),
            r@ == self@.insert("Accept"@, value@),
    {
        self.with_key(HttpRequestHeaderKey::Accept, value)
    }

    /// Sets `Accept-Encoding`.
    pub fn accept_encoding(self, value: &str) -> (r: Self)
        requires
            self.wf(),
        ensures
            r.wf(),
            r@ == self@.insert("Accept-Encoding"@, value@),
    {
        self.with_key(HttpRequestHeaderKey::AcceptEncoding, value)
    }

    /// Sets `Accept-Language`.
    pub fn accept_language(self, value: &str) -> (r: Self)
        requires
            self.wf(),
        ensures
            r.wf(),
            r@ == self@.insert("Accept-Language"@, value@),
    {
        self.with_key(HttpRequestHeaderKey::AcceptLanguage, value)
    }

    /// Sets `Authorization`.
    pub fn authorization(self, value: &str) -> (r: Self)
        requires
            self.wf(),
        ensures
            r.wf(),
            r@ == self@.insert("Authorization"@, value@),
    {
        self.with_key(HttpRequestHeaderKey::Authorization, value)
    }

    /// Sets `Cache-Control`.
    pub fn cache_control(self, value: &str) -> (r: Self)
        requires
            self.wf(),
        ensures
            r.wf(),
            r@ == self@.insert("Cache-Control"@, value@),
    {
        self.with_key(HttpRequestHeaderKey::CacheControl, value)
    }

    /// Sets `Content-Type`.
    pub fn content_type(self, value: &str) -> (r: Self)
        requires
            self.wf(),
        ensures
            r.wf(),
            r@ == self@.insert("Content-Type"@, value@),
    {
        self.with_key(HttpRequestHeaderKey::ContentType, value)
    }

    /// Sets `Content-Length`.
    pub fn content_length(self, value: &str) -> (r: Self)
        requires
            self.wf(),
        ensures
            r.wf(),
            r@ == self@.insert("Content-Length"@, value@),
    {
        self.with_key(HttpRequestHeaderKey::ContentLength, value)
    }

    /// Sets `Host`.
    pub fn host(self, value: &str) -> (r: Self)
        requires
            self.wf(),
        ensures
            r.wf(),
            r@ == self@.insert("Host"@, value@),
    {
        self.with_key(HttpRequestHeaderKey::Host, value)
    }

    /// Sets `Cookie`.
    pub fn cookie(self, value: &str) -> (r: Self)
        requires
            self.wf(),
        ensures
            r.wf(),
            r@ == self@.insert("Cookie"@, value@),
    {
        self.with_key(HttpRequestHeaderKey::Cookie, value)
    }

    /// Sets `Origin`.
    pub fn origin(self, value: &str) -> (r: Self)
        requires
            self.wf(),
        ensures
            r.wf(),
            r@ == self@.insert("Origin"@, value@),
    {
        self.with_key(HttpRequestHeaderKey::Origin, value)
    }

    /// Sets `User-Agent`.
    pub fn user_agent(self, value: &str) -> (r: Self)
        requires
            self.wf(),
        ensures
            r.wf(),
            r@ == self@.insert("User-Agent"@, value@),
    {
        self.with_key(HttpRequestHeaderKey::UserAgent, value)
    }

    /// Sets a custom header, named by `key` as it is.
    pub fn custom(self, key: String, value: &str) -> (r: Self)
        requires
            self.wf(),
        ensures
            r.wf(),
            r@ == self@.insert(key@, value@),
    {
        self.with_key(HttpRequestHeaderKey::Custom(key), value)
    }

    /// The headers built.
    pub fn build(self) -> (r: HttpHeader)
        requires
            self.wf(),
        ensures
            r.wf(),
            r@ == self@,
    {
        self.headers
    }
}

impl HttpResponseHeaderBuilder {
    /// The headers are well formed.
    pub closed spec fn wf(&self) -> bool {
        self.headers.wf()
    }

    /// The entries built so far, in serialisation order.
    pub closed spec fn entries(&self) -> Seq<(Seq<char>, Seq<char>)> {
        self.headers.entries()
    }

    /// A builder with no headers.
    pub fn new() -> (r: Self)
        ensures
            r.wf(),
            r@ == Map::<Seq<char>, Seq<char>>::empty(),
    {
        HttpResponseHeaderBuilder { headers: HttpHeader::new() }
    }

    /// Stores `value` under the wire name of `key`.
    fn set(&mut self, key: HttpResponseHeaderKey, value: &str)
        requires
            old(self).wf(),
        ensures
            final(self).wf(),
            final(self)@ == old(self)@.insert(key.name_view(), value@),
    {
        self.headers.insert(key.wire_name().to_owned(), value.to_owned());
    }

    /// Sets `Access-Control-Allow-Origin`.
    pub fn access_control_allow_origin(&mut self, value: &str) -> (r: &mut Self)
        requires
            old(self).wf(),
        ensures
            r.wf(),
            r@ == old(self)@.insert("Access-Control-Allow-Origin"@, value@),
            *final(self) == *final(r),
    {
        self.set(HttpResponseHeaderKey::AccessControlAllowOrigin, value);
        self
    }

    /// Sets `Connection`.
    pub fn connection(&mut self, value: &str) -> (r: &mut Self)
        requires
            old(self).wf(),
        ensures
            r.wf(),
            r@ == old(self)@.insert("Connection"@, value@),
            *final(self) == *final(r),
    {
        self.set(HttpResponseHeaderKey::Connection, value);
        self
    }

    /// Sets `Content-Length`.
    pub fn content_length(&mut self, value: &str) -> (r: &mut Self)
        requires
            old(self).wf(),
        ensures
            r.wf(),
            r@ == old(self)@.insert("Content-Length"@, value@),
            *final(self) == *final(r),
    {
        self.set(HttpResponseHeaderKey::ContentLength, value);
        self
    }

    /// Sets `Content-Type`.
    pub fn content_type(&mut self, value: &str) -> (r: &mut Self)
        requires
            old(self).wf(),
        ensures
            r.wf(),
            r@ == old(self)@.insert("Content-Type"@, value@),
            *final(self) == *final(r),
    {
        self.set(HttpResponseHeaderKey::ContentType, value);
        self
    }

    /// Sets `Keep-Alive`.
    pub fn keep_alive(&mut self, value: &str) -> (r: &mut Self)
        requires
            old(self).wf(),
        ensures
            r.wf(),
            r@ == old(self)@.insert("Keep-Alive"@, value@),
            *final(self) == *final(r),
    {
        self.set(HttpResponseHeaderKey::KeepAlive, value);
        self
    }

    /// Sets `Last-Modified`.
    pub fn last_modified(&mut self, value: &str) -> (r: &mut Self)
        requires
            old(self).wf(),
        ensures
            r.wf(),
            r@ == old(self)@.insert("Last-Modified"@, value@),
            *final(self) == *final(r),
    {
        self.set(HttpResponseHeaderKey::LastModified, value);
        self
    }

    /// Sets a custom header, named by `key` as it is.
    pub fn custom(&mut self, key: String, value: &str) -> (r: &mut Self)
        requires
            old(self).wf(),
        ensures
            r.wf(),
            r@ == old(self)@.insert(key@, value@),
            *final(self) == *final(r),
    {
        self.set(HttpResponseHeaderKey::Custom(key), value);
        self
    }

    /// The headers built.
    pub fn build(self) -> (r: HttpHeader)
        requires
            self.wf(),
        ensures
            r.wf(),
            r@ == self@,
    {
        self.headers
    }
}

/// The headers sent with an HTML file of `size` bytes last modified at
/// `last_modified`.
pub open spec fn html_headers(size: u64, last_modified: Seq<char>) -> Map<Seq<char>, Seq<char>> {
    Map::empty().insert("Content-Type"@, "text/html; charset=utf-8"@).insert(
        "Connection"@,
        "keep-alive"@,
    ).insert("Keep-Alive"@, "timeout=5, max=1000"@).insert(
        "Access-Control-Allow-Origin"@,
        "*"@,
    ).insert("Content-Length"@, decimal(size as nat)).insert(
        "Last-Modified"@,
        last_modified,
    ).insert("X-Content-Type-Options"@, "nosniff"@)
}

impl HttpHeader {
    /// The headers sent with an HTML file of `size` bytes last modified at
    /// `last_modified`.
    pub fn html_response_header(size: u64, last_modified: &str) -> (r: HttpHeader)
        ensures
            r.wf(),
            r@ == html_headers(size, last_modified@),
    {
        let mut builder = HttpResponseHeaderBuilder::new();
        builder.content_type("text/html; charset=utf-8");
        builder.connection("keep-alive");
        builder.keep_alive("timeout=5, max=1000");
        builder.access_control_allow_origin("*");
        builder.content_length(decimal_string(size).as_str());
        builder.last_modified(last_modified);
        builder.custom("X-Content-Type-Options".to_owned(), "nosniff");
        builder.build()
    }

    /// The headers sent with the HTML file at `file_path`, from its size and
    /// modification time; the first failure of `file_ops` is returned.
    pub fn html_response_header_for_file<O: FileOps>(file_path: &str, file_ops: &O) -> (r: Result<
        HttpHeader,
        FileError,
    >)
        ensures
            r matches Ok(h) ==> h.wf() && exists|size: u64, modified: Seq<char>|
                h@ == html_headers(size, modified),
    {
        let size = match file_ops.get_file_size(file_path) {
            Ok(s) => s,
            Err(e) => {
                return Err(e);
            },
        };
        let last_modified = match file_ops.get_file_last_modified_time(file_path) {
            Ok(t) => t,
            Err(e) => {
                return Err(e);
            },
        };
        Ok(HttpHeader::html_response_header(size, last_modified.as_str()))
    }
}

} // verus!
