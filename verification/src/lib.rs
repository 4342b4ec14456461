//! Core of an SKK dictionary server that answers conversion requests with
//! candidates obtained from a transliteration service.
//!
//! The crate holds the wire protocol, the response cache and the handling of
//! the service's answers. Sockets, threads and the HTTP request itself are
//! left to the program that embeds it.

pub mod cache;
pub mod candidates;
pub mod codec;
pub mod error;
pub mod handler;
pub mod json;
pub mod request;
pub mod search;
