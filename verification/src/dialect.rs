use vstd::prelude::*;

verus! {

/// The SQL dialect spoken by the host's connection pool.
#[derive(Debug, Clone, Copy, PartialEq, Eq, Structural)]
pub enum Dialect {
    Sqlite,
    Postgresql,
    Cockroachdb,
    Mysql,
}

pub const SQLITE_NAME: &'static str = "sqlite";
pub const POSTGRESQL_NAME: &'static str = "postgresql";
pub const COCKROACHDB_NAME: &'static str = "cockroachdb";
pub const MYSQL_NAME: &'static str = "mysql";
pub const UNSUPPORTED_DIALECT_PREFIX: &'static str = "unsupported dialect: ";

/// The name under which a dialect is written.
pub open spec fn dialect_name(d: Dialect) -> Seq<char> {
    match d {
        Dialect::Sqlite => SQLITE_NAME@,
        Dialect::Postgresql => POSTGRESQL_NAME@,
        Dialect::Cockroachdb => COCKROACHDB_NAME@,
        Dialect::Mysql => MYSQL_NAME@,
    }
}

/// The dialect written as `s`, if any.
pub open spec fn dialect_named(s: Seq<char>) -> Option<Dialect> {
    if s == SQLITE_NAME@ {
        Some(Dialect::Sqlite)
    } else if s == POSTGRESQL_NAME@ {
        Some(Dialect::Postgresql)
    } else if s == COCKROACHDB_NAME@ {
        Some(Dialect::Cockroachdb)
    } else if s == MYSQL_NAME@ {
        Some(Dialect::Mysql)
    } else {
        None
    }
}

impl Dialect {
    /// Parses a dialect name; any other text is refused with
    /// `"unsupported dialect: <text>"`.
    pub fn parse(s: &str) -> (r: Result<Dialect, String>)
        ensures
            match dialect_named(s@) {
                Some(d) => r == Ok::<Dialect, String>(d),
                None => r matches Err(m) && m@ == UNSUPPORTED_DIALECT_PREFIX@ + s@,
            },
    {
        let owned = String::from_str(s);
        if owned == String::from_str(SQLITE_NAME) {
            Ok(Dialect::Sqlite)
        } else if owned == String::from_str(POSTGRESQL_NAME) {
            Ok(Dialect::Postgresql)
        } else if owned == String::from_str(COCKROACHDB_NAME) {
            Ok(Dialect::Cockroachdb)
        } else if owned == String::from_str(MYSQL_NAME) {
            Ok(Dialect::Mysql)
        } else {
            let mut msg = String::from_str(UNSUPPORTED_DIALECT_PREFIX);
            msg.append(s);
            Err(msg)
        }
    }

    /// The dialect's name, the inverse of [`Dialect::parse`].
    pub fn to_string(&self) -> (r: String)
        ensures
            r@ == dialect_name(*self),
    {
        match self {
            Dialect::Sqlite => String::from_str(SQLITE_NAME),
            Dialect::Postgresql => String::from_str(POSTGRESQL_NAME),
            Dialect::Cockroachdb => String::from_str(COCKROACHDB_NAME),
            Dialect::Mysql => String::from_str(MYSQL_NAME),
        }
    }

    /// PostgreSQL, CockroachDB and MySQL leave a failed transaction open and
    /// need an explicit ROLLBACK; SQLite cleans up by itself.
    pub fn requires_rollback_on_error(&self) -> (r: bool)
        ensures
            r == (*self is Postgresql || *self is Cockroachdb || *self is Mysql),
    {
        match self {
            Dialect::Postgresql | Dialect::Cockroachdb | Dialect::Mysql => true,
            Dialect::Sqlite => false,
        }
    }

    pub fn is_cockroachdb(&self) -> (r: bool)
        ensures
            r == (*self is Cockroachdb),
    {
        match self {
            Dialect::Cockroachdb => true,
            _ => false,
        }
    }
}

impl std::str::FromStr for Dialect {
    type Err = String;

    fn from_str(s: &str) -> (r: Result<Dialect, String>)
        ensures
            match dialect_named(s@) {
                Some(d) => r == Ok::<Dialect, String>(d),
                None => r matches Err(m) && m@ == UNSUPPORTED_DIALECT_PREFIX@ + s@,
            },
    {
        Dialect::parse(s)
    }
}

/// Writing a dialect's name and parsing it back gives the dialect.
pub proof fn lemma_name_round_trip(d: Dialect)
    ensures
        dialect_named(dialect_name(d)) == Some(d),
{
    reveal_strlit("sqlite");
    reveal_strlit("postgresql");
    reveal_strlit("cockroachdb");
    reveal_strlit("mysql");
    assert(SQLITE_NAME@.len() == 6);
    assert(POSTGRESQL_NAME@.len() == 10);
    assert(COCKROACHDB_NAME@.len() == 11);
    assert(SQLITE_NAME@ != POSTGRESQL_NAME@);
    assert(SQLITE_NAME@ != COCKROACHDB_NAME@);
    assert(SQLITE_NAME@ != MYSQL_NAME@);
    assert(POSTGRESQL_NAME@ != COCKROACHDB_NAME@);
    assert(POSTGRESQL_NAME@ != MYSQL_NAME@);
    assert(COCKROACHDB_NAME@ != MYSQL_NAME@);
}

} // verus!
