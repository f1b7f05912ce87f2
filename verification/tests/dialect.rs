use memori_storage::dialect::Dialect;
use memori_storage::manager::{driver_for, Driver};

#[test]
fn parses_every_dialect_name() {
    assert_eq!(Dialect::parse("sqlite"), Ok(Dialect::Sqlite));
    assert_eq!(Dialect::parse("postgresql"), Ok(Dialect::Postgresql));
    assert_eq!(Dialect::parse("cockroachdb"), Ok(Dialect::Cockroachdb));
    assert_eq!(Dialect::parse("mysql"), Ok(Dialect::Mysql));
}

#[test]
fn refuses_an_unknown_dialect() {
    assert_eq!(Dialect::parse("oracle"), Err("unsupported dialect: oracle".to_string()));
    assert_eq!(Dialect::parse("MySQL"), Err("unsupported dialect: MySQL".to_string()));
    assert_eq!(Dialect::parse(""), Err("unsupported dialect: ".to_string()));
}

#[test]
fn from_str_matches_parse() {
    let d: Dialect = "cockroachdb".parse().unwrap();
    assert_eq!(d, Dialect::Cockroachdb);
    assert!("sql server".parse::<Dialect>().is_err());
}

#[test]
fn name_round_trips() {
    for d in [Dialect::Sqlite, Dialect::Postgresql, Dialect::Cockroachdb, Dialect::Mysql] {
        assert_eq!(Dialect::parse(&d.to_string()), Ok(d));
    }
    assert_eq!(Dialect::Mysql.to_string(), "mysql");
}

#[test]
fn rollback_is_needed_everywhere_but_sqlite() {
    assert!(!Dialect::Sqlite.requires_rollback_on_error());
    assert!(Dialect::Postgresql.requires_rollback_on_error());
    assert!(Dialect::Cockroachdb.requires_rollback_on_error());
    assert!(Dialect::Mysql.requires_rollback_on_error());
}

#[test]
fn only_cockroachdb_is_cockroachdb() {
    assert!(Dialect::Cockroachdb.is_cockroachdb());
    assert!(!Dialect::Postgresql.is_cockroachdb());
    assert!(!Dialect::Sqlite.is_cockroachdb());
    assert!(!Dialect::Mysql.is_cockroachdb());
}

#[test]
fn postgresql_and_cockroachdb_share_a_driver() {
    assert_eq!(driver_for(Dialect::Sqlite), Driver::Sqlite);
    assert_eq!(driver_for(Dialect::Postgresql), Driver::Postgresql);
    assert_eq!(driver_for(Dialect::Cockroachdb), Driver::Postgresql);
    assert_eq!(driver_for(Dialect::Mysql), Driver::Mysql);
}
