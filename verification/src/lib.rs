//! Verified core of a command-line client for a code forge's REST API.
//!
//! The crate models the forge's cursor-paginated collections as a pull-based
//! record stream, decodes raw records into typed values, aggregates
//! pull-request contributors, and decides the block / follow protocols.
//! All network traffic is left to the surrounding program: the functions here
//! take plain values (pages, status codes, decoded records) and are verified
//! against exact contracts.

pub mod aggregate;
pub mod block;
pub mod csvio;
pub mod enrich;
pub mod error;
pub mod records;
pub mod render;
pub mod repo;
pub mod social;
pub mod stream;
