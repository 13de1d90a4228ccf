use sqlbuilder::args::Arg;
use sqlbuilder::error::Error;
use sqlbuilder::flavor::{Flavor, InsertBuilder};

#[test]
fn test_flavor_to_string() {
    assert_eq!(Flavor::MySQL.to_string(), "MySQL");
    assert_eq!(Flavor::PostgreSQL.to_string(), "PostgreSQL");
    assert_eq!(Flavor::SQLite.to_string(), "SQLite");
    assert_eq!(Flavor::InvalidFlavor.to_string(), "<invalid>");
}

#[test]
fn test_quote() {
    let flavor = Flavor::MySQL;
    assert_eq!(flavor.quote("table_name"), "`table_name`");

    let flavor = Flavor::PostgreSQL;
    assert_eq!(flavor.quote("table_name"), "\"table_name\"");
}

#[test]
fn test_interpolate_error_handling() {
    let flavor = Flavor::MySQL;
    let result = flavor.interpolate("SELECT * FROM table WHERE id = ?", &[]);
    assert_eq!(result, Err(Error::MissingArgs));
}

#[test]
fn quote_other_dialects() {
    assert_eq!(Flavor::CQL.quote("t"), "'t'");
    assert_eq!(Flavor::ClickHouse.quote("t"), "`t`");
    assert_eq!(Flavor::Oracle.quote("t"), "\"t\"");
    assert_eq!(Flavor::InvalidFlavor.quote("t"), "t");
    assert_eq!(Flavor::MySQL.quote("a`b"), "`a`b`");
}

#[test]
fn invalid_flavor_has_no_interpolation() {
    let r = Flavor::InvalidFlavor.interpolate("SELECT ?", &[Arg::Int(1)]);
    assert_eq!(r, Err(Error::NotImplemented));
}

#[test]
fn dispatch_uses_dialect_markers() {
    let args = [Arg::Int(7)];
    assert_eq!(Flavor::PostgreSQL.interpolate("x = $1", &args).unwrap(), "x = 7");
    assert_eq!(Flavor::SQLServer.interpolate("x = @1", &args).unwrap(), "x = 7");
    assert_eq!(Flavor::Oracle.interpolate("x = :1", &args).unwrap(), "x = 7");
    assert_eq!(Flavor::SQLite.interpolate("x = ?", &args).unwrap(), "x = 7");
    assert_eq!(Flavor::PostgreSQL.interpolate("x = ?", &args).unwrap(), "x = ?");
}

#[test]
fn error_messages() {
    assert_eq!(Error::MissingArgs.message(), "not enough args when interpolating");
    assert_eq!(Error::NotImplemented.message(), "interpolation for this flavor is not implemented");
    assert_eq!(Error::UnsupportedArgs.message(), "unsupported args when interpolating");
    assert_eq!(Error::InvalidUtf8.message(), "invalid utf8");
}

#[test]
fn insert_ignore_per_dialect() {
    let mut ib = InsertBuilder::new();
    Flavor::MySQL.prepare_insert_ignore("t", &mut ib);
    assert_eq!(ib.verb(), "INSERT IGNORE");
    assert_eq!(ib.table(), "t");
    assert_eq!(ib.marker(), None);

    let mut ib = Flavor::PostgreSQL.new_insert_builder();
    Flavor::PostgreSQL.prepare_insert_ignore("u", &mut ib);
    assert_eq!(ib.verb(), "INSERT");
    assert_eq!(ib.table(), "u");
    assert_eq!(ib.marker(), None);

    let mut ib = InsertBuilder::new();
    Flavor::SQLite.prepare_insert_ignore("v", &mut ib);
    assert_eq!(ib.verb(), "INSERT OR IGNORE");

    let mut ib = InsertBuilder::new();
    ib.add_sql("junk");
    Flavor::SQLServer.prepare_insert_ignore("w", &mut ib);
    assert_eq!(ib.verb(), "INSERT");
    assert_eq!(ib.marker(), None);
}

#[test]
fn create_table_builder_carries_flavor() {
    let b = Flavor::PostgreSQL.new_create_table_builder();
    assert_eq!(b.flavor(), Flavor::PostgreSQL);
    assert_eq!(b.num_define(), 0);
}
