//! Verified error-handling idioms over `Result`.
//!
//! A fallible computation ends in a success that carries a value or in a
//! failure that carries an error. This crate proves what the usual ways of
//! working with such results do:
//!
//! - `combinators`: queries, transformations and chaining of one result;
//! - `aggregate`: collecting, summing and multiplying a sequence of results,
//!   where the first failure in sequence order decides;
//! - `version`: reading a format version from a header;
//! - `record` and `sink`: formatting a record and writing it through a sink
//!   that may fail, stopping at the first failed write;
//! - `walkthrough`: worked examples with their outcomes proved.

pub mod aggregate;
pub mod combinators;
pub mod record;
pub mod sink;
pub mod version;
pub mod walkthrough;
