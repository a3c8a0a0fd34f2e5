//! The server's configuration and what it does with each connection: the
//! bytes read are parsed, handed to the handler, and its response is
//! written back; a request that does not parse gets a 400 response.

use vstd::prelude::*;
use vstd::utf8::*;
use crate::request::{parse_request, HttpRequest};
use crate::response::{response_text, HttpResponse, ResponseModel};
use crate::status_code::StatusCode;

verus! {

/// Maps a parsed request to a response.
pub trait Handler {
    /// The response to `request`.
    fn handle_request(&self, request: &HttpRequest) -> HttpResponse;
}

/// A server listening on an address.
pub struct Server {
    address: String,
}

impl Server {
    /// A server that will listen on `address`.
    pub fn new(address: String) -> (r: Server)
        ensures
            r.spec_address() == address@,
    {
        Server { address }
    }

    /// The address to listen on.
    pub closed spec fn spec_address(&self) -> Seq<char> {
        self.address@
    }

    /// The address to listen on.
    pub fn address(&self) -> (r: &String)
        ensures
            r@ == self.spec_address(),
    {
        &self.address
    }
}

/// The bytes to write back on a connection from which `received` was read:
/// none when nothing was read, the serialised 400 response when the request
/// does not parse, and otherwise the serialised response of `handler` to the
/// parsed request.
pub fn respond<H: Handler>(handler: &H, received: &[u8]) -> (r: Option<Vec<u8>>)
    ensures
        r is None <==> received@.len() == 0,
        received@.len() > 0 && parse_request(received@) is Err ==> (r matches Some(out)
            && out@ == encode_utf8(
            response_text(ResponseModel { status: StatusCode::BadRequest, header: None, body: None }),
        )),
        received@.len() > 0 && parse_request(received@) is Ok ==> (r matches Some(out) && exists|
            m: ResponseModel,
        | out@ == encode_utf8(#[trigger] response_text(m))),
{
    if received.len() == 0 {
        return None;
    }
    let response = match HttpRequest::try_from(received) {
        Ok(request) => handler.handle_request(&request),
        Err(_) => HttpResponse::empty_body(StatusCode::BadRequest),
    };
    let mut out: Vec<u8> = Vec::new();
    response.send(&mut out);
    assert(out@ == encode_utf8(response_text(response@)));
    Some(out)
}

} // verus!
