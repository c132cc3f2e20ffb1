//! Interface templates: a small query language that selects and orders the
//! IP addresses bound to a host's network interfaces.
//!
//! A template is one producer followed by pipe-delimited filter and sort
//! stages, for example `GetAllInterfaces | FilterIPv4 | FilterFirst`.
//! [`eval`] evaluates one on the interfaces it is given.
//!
//! The crate is verified with Verus: each function is proved against the
//! contract it states. What it takes from the `ipnet` and `regex` crates,
//! and `str::to_lowercase`, stands behind small private functions whose
//! contracts are believed and not proved; their documentation says what is
//! believed.
//!
//! - [`grammar`]: templates as text, and their parser
//! - [`language`], [`render`]: what the parser accepts, stated and proved
//! - [`pipeline`]: the evaluation of a parsed template
//! - [`laws`]: what holds of every evaluation
//! - [`rfc`], [`address`]: the RFC 6890 table and the most specific match
//! - [`routes`]: the default route's interface in a routing command's output
//! - [`rfc_parser`]: the table read from the text of the RFC
//! - [`text`]: searching and trimming texts

pub mod address;
pub mod text;
pub mod rfc;
pub mod grammar;
pub mod pipeline;
pub mod laws;
pub mod render;
pub mod language;
pub mod routes;
pub mod rfc_parser;

pub use crate::pipeline::{eval, evals, IfTError};
