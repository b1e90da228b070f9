//! Connection settings.
use vstd::prelude::*;

use crate::error::DbError;
use crate::text::owned;

verus! {

/// Supported database engines.
#[derive(Clone, Copy, Debug, PartialEq, Eq, Structural)]
pub enum DatabaseKind {
    Postgres,
    MySql,
}

/// Configuration used to establish a database connection.
pub struct DatabaseConfig {
    kind: DatabaseKind,
    host: String,
    port: u16,
    username: String,
    password: String,
    db_name: String,
}

/// A configuration as plain values.
#[verifier::ext_equal]
pub struct DatabaseConfigView {
    pub kind: DatabaseKind,
    pub host: Seq<char>,
    pub port: u16,
    pub username: Seq<char>,
    pub password: Seq<char>,
    pub db_name: Seq<char>,
}

impl View for DatabaseConfig {
    type V = DatabaseConfigView;

    closed spec fn view(&self) -> DatabaseConfigView {
        DatabaseConfigView {
            kind: self.kind,
            host: self.host@,
            port: self.port,
            username: self.username@,
            password: self.password@,
            db_name: self.db_name@,
        }
    }
}

impl DatabaseConfig {
    /// Creates a new database configuration.
    pub fn new(
        kind: DatabaseKind,
        host: String,
        port: u16,
        username: String,
        password: String,
        db_name: String,
    ) -> (r: Self)
        ensures
            r@ == (DatabaseConfigView {
                kind,
                host: host@,
                port,
                username: username@,
                password: password@,
                db_name: db_name@,
            }),
    {
        Self { kind, host, port, username, password, db_name }
    }

    /// Checks the configuration before connecting: the host must not be
    /// empty.
    pub fn validate(&self) -> (r: Result<(), DbError>)
        ensures
            self@.host.len() == 0 ==> (r matches Err(e) && e.message@ == "Host is empty"@),
            self@.host.len() > 0 ==> r is Ok,
    {
        if self.host.as_str().is_empty() {
            return Err(DbError::new(owned("Host is empty")));
        }
        Ok(())
    }

    pub fn kind(&self) -> (r: DatabaseKind)
        ensures
            r == self@.kind,
    {
        self.kind
    }

    pub fn host(&self) -> (r: &str)
        ensures
            r@ == self@.host,
    {
        self.host.as_str()
    }

    pub fn port(&self) -> (r: u16)
        ensures
            r == self@.port,
    {
        self.port
    }

    pub fn username(&self) -> (r: &str)
        ensures
            r@ == self@.username,
    {
        self.username.as_str()
    }

    pub fn password(&self) -> (r: &str)
        ensures
            r@ == self@.password,
    {
        self.password.as_str()
    }

    pub fn db_name(&self) -> (r: &str)
        ensures
            r@ == self@.db_name,
    {
        self.db_name.as_str()
    }
}

} // verus!
