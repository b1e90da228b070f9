//! A lightweight SQL client library for PostgreSQL and MySQL, speaking the
//! native wire protocols. This crate holds the protocol logic: message
//! encoding and decoding, SCRAM-SHA-256 and MySQL authentication, typed result
//! parsing and the connection and pool state machines.
use vstd::prelude::*;

pub mod backend;
pub mod config;
pub mod connection;
pub mod crypto;
pub mod error;
pub mod mysql_protocol;
pub mod numeric;
pub mod postgres_protocol;
pub mod protocol;
pub mod query;
pub mod session;
pub mod table;
pub mod text;
pub mod wire;

pub use config::{DatabaseConfig, DatabaseKind};
pub use error::DbError;
pub use query::{Query, QueryResult};
pub use table::{Column, Dataframe, DfError, Row, Value, ValueType};

verus! {

} // verus!
