//! Verified core of a small KYC (Know Your Customer) record service.
//!
//! The library holds everything about the service that is plain logic:
//! syntactic e-mail validation, the record model with its invariants, the
//! four record operations (create, get by e-mail, update status, delete by
//! e-mail) over an in-memory table, configuration assembly, and the mapping
//! from operation results to HTTP status codes and response bodies.
//! The surrounding process (HTTP server, database connection, environment
//! reading, logging) lives outside and hands this library plain values.

pub mod config;
pub mod email;
pub mod errors;
pub mod http;
pub mod model;
pub mod store;
