//! Incremental decoding of HTTP/1.x request heads that keeps the wire bytes.
//!
//! A `Request` owns exactly the bytes of one request head and locates each
//! field by a `(start, end)` range into them.
#![allow(deprecated)]

pub mod buffer;
pub mod grammar;
pub mod text;
pub mod request;
pub mod laws;

pub use request::{decode, encode, Request, RequestError, RequestHeaders, Version};
