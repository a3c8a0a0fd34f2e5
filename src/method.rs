//! Request methods.

use vstd::prelude::*;
use crate::text::str_eq;

verus! {

/// The request methods that the server understands.
#[derive(Debug, Clone, Copy, PartialEq, Eq, Structural)]
pub enum Method {
    GET,
    POST,
    DELETE,
    PUT,
    HEAD,
    CONNECT,
    OPTIONS,
    TRACE,
    PATCH,
}

/// A token that names no method.
#[derive(Debug, Clone, Copy, PartialEq, Eq, Structural)]
pub struct MethodError;

/// The method that `token` names, if any: the exact upper-case name.
pub open spec fn method_of(token: Seq<char>) -> Option<Method> {
    if token == "GET"@ {
        Some(Method::GET)
    } else if token == "POST"@ {
        Some(Method::POST)
    } else if token == "DELETE"@ {
        Some(Method::DELETE)
    } else if token == "PUT"@ {
        Some(Method::PUT)
    } else if token == "HEAD"@ {
        Some(Method::HEAD)
    } else if token == "CONNECT"@ {
        Some(Method::CONNECT)
    } else if token == "OPTIONS"@ {
        Some(Method::OPTIONS)
    } else if token == "TRACE"@ {
        Some(Method::TRACE)
    } else if token == "PATCH"@ {
        Some(Method::PATCH)
    } else {
        None
    }
}

impl Method {
    /// The method named by `token`; any other token is an error.
    pub fn parse(token: &str) -> (r: Result<Method, MethodError>)
        ensures
            match method_of(token@) {
                Some(m) => r == Ok::<Method, MethodError>(m),
                None => r == Err::<Method, MethodError>(MethodError),
            },
    {
        if str_eq(token, "GET") {
            Ok(Method::GET)
        } else if str_eq(token, "POST") {
            Ok(Method::POST)
        } else if str_eq(token, "DELETE") {
            Ok(Method::DELETE)
        } else if str_eq(token, "PUT") {
            Ok(Method::PUT)
        } else if str_eq(token, "HEAD") {
            Ok(Method::HEAD)
        } else if str_eq(token, "CONNECT") {
            Ok(Method::CONNECT)
        } else if str_eq(token, "OPTIONS") {
            Ok(Method::OPTIONS)
        } else if str_eq(token, "TRACE") {
            Ok(Method::TRACE)
        } else if str_eq(token, "PATCH") {
            Ok(Method::PATCH)
        } else {
            Err(MethodError)
        }
    }
}

impl std::str::FromStr for Method {
    type Err = MethodError;

    fn from_str(s: &str) -> Result<Method, MethodError> {
        Method::parse(s)
    }
}

} // verus!
