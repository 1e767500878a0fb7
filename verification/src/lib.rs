//! A verified parser for fixed-grammar network-telemetry log lines.
//!
//! A line carries a timestamp, a bracketed client/server address pair, a
//! protocol discriminator inferred from structure, and a hex-encoded payload:
//!
//! ```text
//! <date> <time>.<ms> [<client_ip>:<client_port>#<server_ip>:<server_port>] <D|R>:<payload>
//! ```
//!
//! The parser makes a single forward pass over the input with a cursor that
//! never moves backwards; every sub-parser carries a contract that pins its
//! result down exactly, against a specification-level model of the grammar.

pub mod api;
pub mod config;
pub mod errors;
pub mod record;
pub mod scan;
pub mod timestamp;
pub mod parser;
