//! A small HTTP/1.x request handler: parses one request from one read,
//! routes it to a builtin page or the served filesystem tree, and builds the
//! wire-ready response, with the decisions specified and proved.

pub mod handler;
pub mod laws;
pub mod lister;
pub mod pages;
pub mod parser;
pub mod resolver;
pub mod response;
pub mod router;
pub mod util;
