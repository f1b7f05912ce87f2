//! Storage layer of a conversational memory engine: SQL dialect rules, the
//! statements that the MySQL driver sends, the decisions that turn host replies
//! into results, the write-batch interpreter and its transaction/retry policy.
//!
//! Every exchange with the database host is modelled as a pure step function:
//! it takes the replies received so far and returns either the next request
//! for the host or the final result.

pub mod dialect;
pub mod json;
pub mod models;
pub mod connection;
pub mod drivers;
pub mod manager;
pub mod transaction;
pub mod bridge;
pub mod laws;
pub mod operation_laws;
