//! The core of a small HTTP/1.1 server that answers one request on each
//! connection: reading the request, routing it, and writing the response.
//!
//! The library touches neither sockets nor files. `connection` says what to
//! do about the bytes that one read gave; where a file is to be read or
//! written, the caller does it and hands back how it went.

pub mod connection;
pub mod env;
pub mod laws;
pub mod number;
pub mod request;
pub mod response;
pub mod route;
pub mod text;
