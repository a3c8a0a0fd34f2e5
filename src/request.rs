//! Requests and the errors of parsing them.

use vstd::prelude::*;
use vstd::string::*;
use vstd::utf8::*;
use crate::header::{parse_headers, HttpHeader};
use crate::method::{method_of, Method};
use crate::query_string::{parse_query, QueryString};
use crate::text::{
    chars_of, find_any, find_char, index_of, lemma_find_any_at, str_eq, strip_leading,
    trim_start_matches, utf8_str,
};

verus! {

/// The only protocol accepted.
pub const HTTP1: &'static str = "HTTP/1.1";

/// The characters that end a word of the request line.
pub open spec fn word_ends() -> Set<char> {
    set![' ', '\r', '\n']
}

/// The first word of `s` and what follows the character that ends it, if a
/// word end occurs in `s`.
pub open spec fn next_word(s: Seq<char>) -> Option<(Seq<char>, Seq<char>)> {
    let i = find_any(s, word_ends());
    if 0 <= i < s.len() {
        Some((s.take(i), s.skip(i + 1)))
    } else {
        None
    }
}

/// The path of a request target: what precedes its first '?'.
pub open spec fn path_part(target: Seq<char>) -> Seq<char> {
    let i = find_char(target, '?');
    if 0 <= i < target.len() {
        target.take(i)
    } else {
        target
    }
}

/// The query of a request target: what follows its first '?', parsed.
pub open spec fn query_part(target: Seq<char>) -> Option<Map<Seq<char>, Seq<Seq<char>>>> {
    let i = find_char(target, '?');
    if 0 <= i < target.len() {
        Some(parse_query(target.skip(i + 1)))
    } else {
        None
    }
}

/// The model of a parsed request.
pub struct RequestModel {
    pub path: Seq<char>,
    pub query: Option<Map<Seq<char>, Seq<Seq<char>>>>,
    pub method: Method,
    pub header: Map<Seq<char>, Seq<char>>,
}

/// The request that `bytes` hold. The steps, in order: the bytes decode as
/// UTF-8; the method, target and protocol words are found; the protocol is
/// `HTTP/1.1`; the method is known; the header block, after the line feeds
/// that begin it, parses.
pub open spec fn parse_request(bytes: Seq<u8>) -> Result<RequestModel, ParseFailure> {
    if !valid_utf8(bytes) {
        Err(ParseFailure::InvalidEncoding)
    } else {
        let text = decode_utf8(bytes);
        match next_word(text) {
            None => Err(ParseFailure::InvalidRequest("Method missing"@)),
            Some((method_word, r1)) => match next_word(r1) {
                None => Err(ParseFailure::InvalidRequest("Path missing"@)),
                Some((target, r2)) => match next_word(r2) {
                    None => Err(ParseFailure::InvalidRequest("Protocol missing"@)),
                    Some((protocol, r3)) => if protocol != "HTTP/1.1"@ {
                        Err(ParseFailure::InvalidProtocol)
                    } else {
                        match method_of(method_word) {
                            None => Err(ParseFailure::InvalidMethodError),
                            Some(method) => match parse_headers(strip_leading(r3, '\n')) {
                                Err(e) => Err(e),
                                Ok(header) => Ok(
                                    RequestModel {
                                        path: path_part(target),
                                        query: query_part(target),
                                        method,
                                        header,
                                    },
                                ),
                            },
                        }
                    },
                },
            },
        }
    }
}

/// A request whose three words are found but whose protocol word is not
/// `HTTP/1.1` is refused with `InvalidProtocol`, whatever its method and
/// headers hold.
pub proof fn lemma_wrong_protocol_refused(bytes: Seq<u8>)
    requires
        valid_utf8(bytes),
        next_word(decode_utf8(bytes)) matches Some((m, r1)) && next_word(r1) matches Some((t, r2))
            && next_word(r2) matches Some((p, r3)) && p != "HTTP/1.1"@,
    ensures
        parse_request(bytes) == Err::<RequestModel, _>(ParseFailure::InvalidProtocol),
{
}

/// The first word of `request` and the text after the character that ends
/// it.
pub fn get_next_word(request: &str) -> (r: Option<(&str, &str)>)
    ensures
        match r {
            Some((word, rest)) => next_word(request@) == Some((word@, rest@)),
            None => next_word(request@) is None,
        },
{
    let cs = chars_of(request);
    let mut i: usize = 0;
    while i < cs.len()
        invariant
            i <= cs@.len(),
            cs@ == request@,
            forall|j: int| 0 <= j < i ==> !word_ends().contains(#[trigger] cs@[j]),
        decreases cs@.len() - i,
    {
        let c = cs[i];
        if c == ' ' || c == '\r' || c == '\n' {
            proof {
                lemma_find_any_at(cs@, word_ends(), i as int);
            }
            let word = request.substring_char(0, i);
            let rest = request.substring_char(i + 1, cs.len());
            assert(word@ =~= request@.take(i as int));
            assert(rest@ =~= request@.skip(i + 1));
            return Some((word, rest));
        }
        i += 1;
    }
    proof {
        lemma_find_any_at(cs@, word_ends(), -1);
    }
    None
}

/// A parsed request.
#[derive(Debug)]
pub struct HttpRequest {
    path: String,
    query_string: Option<QueryString>,
    method: Method,
    header: HttpHeader,
}

impl View for HttpRequest {
    type V = RequestModel;

    closed spec fn view(&self) -> RequestModel {
        RequestModel {
            path: self.path@,
            query: match self.query_string {
                Some(q) => Some(q@),
                None => None,
            },
            method: self.method,
            header: self.header@,
        }
    }
}

impl HttpRequest {
    /// The header container and the query string are well formed.
    pub closed spec fn wf(&self) -> bool {
        &&& self.header.wf()
        &&& self.query_string matches Some(q) ==> q.wf()
    }

    /// Parses a request from the bytes received.
    pub fn try_from(buf: &[u8]) -> (r: Result<HttpRequest, ParseError>)
        ensures
            match r {
                Ok(req) => req.wf() && parse_request(buf@) == Ok::<_, ParseFailure>(req@),
                Err(e) => parse_request(buf@) == Err::<RequestModel, _>(e@),
            },
    {
        let request = match utf8_str(buf) {
            Some(s) => s,
            None => {
                return Err(ParseError::InvalidEncoding);
            },
        };
        proof {
            encode_utf8_decode_utf8(request@);
        }
        let (method, request) = match get_next_word(request) {
            Some(p) => p,
            None => {
                return Err(ParseError::InvalidRequest("Method missing".to_owned()));
            },
        };
        let (target, request) = match get_next_word(request) {
            Some(p) => p,
            None => {
                return Err(ParseError::InvalidRequest("Path missing".to_owned()));
            },
        };
        let (protocol, request) = match get_next_word(request) {
            Some(p) => p,
            None => {
                return Err(ParseError::InvalidRequest("Protocol missing".to_owned()));
            },
        };
        if !str_eq(protocol, HTTP1) {
            return Err(ParseError::InvalidProtocol);
        }
        let method = match Method::parse(method) {
            Ok(m) => m,
            Err(_) => {
                return Err(ParseError::InvalidMethodError);
            },
        };
        let header = match HttpHeader::parse(trim_start_matches(request, '\n')) {
            Ok(h) => h,
            Err(e) => {
                return Err(e);
            },
        };
        let cs = chars_of(target);
        let n = cs.len();
        match index_of(&cs, '?') {
            Some(i) => {
                let path = target.substring_char(0, i);
                let query = target.substring_char(i + 1, n);
                assert(path@ =~= target@.take(i as int));
                assert(query@ =~= target@.skip(i + 1));
                Ok(
                    HttpRequest {
                        path: path.to_owned(),
                        query_string: Some(QueryString::from(query)),
                        method,
                        header,
                    },
                )
            },
            None => Ok(
                HttpRequest { path: target.to_owned(), query_string: None, method, header },
            ),
        }
    }

    /// The path, without the query.
    pub fn path(&self) -> (r: &String)
        ensures
            r@ == self@.path,
    {
        &self.path
    }

    /// The parsed query, if the target has one.
    pub fn query_string(&self) -> (r: &Option<QueryString>)
        ensures
            match r {
                Some(q) => self@.query == Some(q@) && (self.wf() ==> q.wf()),
                None => self@.query is None,
            },
    {
        &self.query_string
    }

    /// The method.
    pub fn method(&self) -> (r: &Method)
        ensures
            *r == self@.method,
    {
        &self.method
    }

    /// The headers.
    pub fn header(&self) -> (r: &HttpHeader)
        ensures
            r@ == self@.header,
            self.wf() ==> r.wf(),
    {
        &self.header
    }
}

/// Why a request could not be parsed.
#[derive(Debug, Clone, PartialEq, Eq)]
pub enum ParseError {
    InvalidRequest(String),
    InvalidEncoding,
    InvalidProtocol,
    InvalidMethodError,
}

/// The model of a `ParseError`.
pub enum ParseFailure {
    InvalidRequest(Seq<char>),
    InvalidEncoding,
    InvalidProtocol,
    InvalidMethodError,
}

impl View for ParseError {
    type V = ParseFailure;

    open spec fn view(&self) -> ParseFailure {
        match self {
            ParseError::InvalidRequest(s) => ParseFailure::InvalidRequest(s@),
            ParseError::InvalidEncoding => ParseFailure::InvalidEncoding,
            ParseError::InvalidProtocol => ParseFailure::InvalidProtocol,
            ParseError::InvalidMethodError => ParseFailure::InvalidMethodError,
        }
    }
}

/// The text of an error.
pub open spec fn failure_message(e: ParseFailure) -> Seq<char> {
    match e {
        ParseFailure::InvalidRequest(issue) => "Invalid Request: "@ + issue,
        ParseFailure::InvalidEncoding => "Invalid Encoding"@,
        ParseFailure::InvalidProtocol => "Invalid Protocol"@,
        ParseFailure::InvalidMethodError => "Invalid Method Error"@,
    }
}

impl ParseError {
    /// The text of the error.
    pub fn message(&self) -> (r: String)
        ensures
            r@ == failure_message(self@),
    {
        match self {
            ParseError::InvalidRequest(issue) => "Invalid Request: ".to_owned().concat(
                issue.as_str(),
            ),
            ParseError::InvalidEncoding => "Invalid Encoding".to_owned(),
            ParseError::InvalidProtocol => "Invalid Protocol".to_owned(),
            ParseError::InvalidMethodError => "Invalid Method Error".to_owned(),
        }
    }
}

} // verus!
