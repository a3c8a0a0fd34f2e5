//! A minimal HTTP/1.1 server library: request parsing, typed headers,
//! query strings and response serialisation, with their contracts.

pub mod assoc;
pub mod builder;
pub mod file_meta;
pub mod filesystem;
pub mod header;
pub mod header_key;
pub mod method;
pub mod query_string;
pub mod request;
pub mod response;
pub mod server;
pub mod status_code;
pub mod text;
pub mod website_handler;
