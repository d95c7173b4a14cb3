//! Core logic of a small caching echo server: request-line scanning and
//! parsing, the per-path access counter, response framing, and the decision
//! rules of the accept loop and of the pool's workers.

pub mod request;
pub mod response;
pub mod cache;
pub mod control;
pub mod handler;
