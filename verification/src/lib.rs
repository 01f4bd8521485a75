//! A declarative assertion engine for observed HTTP responses.
//!
//! A caller describes what a response should look like with small
//! expressions (`is(200)`, `is_between(200, 299)`, `contains(..)`), and the
//! engine evaluates each of them against the observed value of one domain:
//! the status code, the headers, the body or the response time. Every
//! evaluation yields an [`assertion::Assertion`]; a [`session::Session`]
//! strings evaluations together and keeps the ordered trace.
//!
//! Every function of this crate carries a contract, and Verus proves each of
//! them.

pub mod assertion;
pub mod document;
pub mod dsl;
pub mod headers;
pub mod render;
pub mod report;
pub mod session;
pub mod status_code;
