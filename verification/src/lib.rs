//! A REST-to-relational gateway core: it validates resource identifiers,
//! parses a query-string mini-language into an immutable operation
//! specification, compiles that specification into parameterized SQL text
//! with an ordered list of bound values, models transactional execution as
//! a state machine, and maps backend rows to ordered records.
//!
//! Every user-controlled value reaches the backend only as a bound
//! parameter; every user-controlled identifier is embedded in SQL text only
//! after passing the identifier grammar. Those two rules are stated in the
//! contracts of the compilation functions.
use vstd::prelude::*;

pub mod compile;
pub mod digits;
pub mod ident;
pub mod operation;
pub mod parse;
pub mod rows;
pub mod sql;
pub mod txn;
pub mod value;

verus! {

/// The error taxonomy of the gateway. Client-caused errors
/// (`InvalidIdentifier`, `MalformedQuery`, `SchemaMismatch`,
/// `MissingFilter`, `UnknownResource`) are detected before any backend
/// call; the remaining variants classify backend and transaction failures.
#[derive(Clone, Debug)]
pub enum GatewayError {
    InvalidIdentifier,
    MalformedQuery(String),
    SchemaMismatch,
    MissingFilter,
    UnknownResource,
    BackendError(String),
    TransactionAborted,
    Timeout,
}

} // verus!
