//! A small HTTP dispatch core: an exact-match routing trie, a router with an
//! ordered middleware chain, a request/response model with text serialization,
//! and a static-file fallback route, all with verified contracts.

pub mod classify;
pub mod dispatch;
pub mod guess;
pub mod guess_utils;
pub mod method;
pub mod middleware;
pub mod request;
pub mod response;
pub mod route;
pub mod router;
pub mod static_files;
pub mod strutil;
pub mod trie;
