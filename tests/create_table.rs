use sqlbuilder::args::{Arg, Args};
use sqlbuilder::create_table::CreateTableBuilder;
use sqlbuilder::flavor::Flavor;
use sqlbuilder::injection::{Injection, InjectionMarker};
use sqlbuilder::stringbuilder::StringBuilder;

fn words(v: &[&str]) -> Vec<String> {
    v.iter().map(|s| s.to_string()).collect()
}

#[test]
fn create_table_statement() {
    let mut b = CreateTableBuilder::new();
    b.create_table("demo.user").if_not_exists();
    b.define(words(&["id", "BIGINT(20)", "NOT NULL", "AUTO_INCREMENT", "PRIMARY KEY"]));
    b.define(words(&["name", "VARCHAR(255)", "NOT NULL"]));
    b.option(words(&["DEFAULT CHARACTER SET", "utf8mb4"]));
    assert_eq!(b.num_define(), 2);
    assert_eq!(
        b.string(),
        "CREATE TABLE IF NOT EXISTS demo.user (id BIGINT(20) NOT NULL AUTO_INCREMENT PRIMARY KEY, name VARCHAR(255) NOT NULL) DEFAULT CHARACTER SET utf8mb4"
    );
}

#[test]
fn temporary_table_and_injections() {
    let mut b = CreateTableBuilder::new();
    b.sql("/* head */");
    b.create_temp_table("t").sql("ENGINE_HINT");
    b.define(words(&["a", "", "INT"])).sql("AFTER_DEFS");
    assert_eq!(b.string(), "/* head */ CREATE TEMPORARY TABLE t ENGINE_HINT (a INT) AFTER_DEFS");
}

#[test]
fn registered_values_become_native_markers() {
    let mut b = Flavor::PostgreSQL.new_create_table_builder();
    b.create_table("t");
    let p = b.var(Arg::Int(5));
    b.option(words(&["COMMENT", &p]));
    let (sql, args) = b.build();
    assert_eq!(sql, "CREATE TABLE t COMMENT $1");
    assert_eq!(args.len(), 1);
    assert!(matches!(args[0], Arg::Int(5)));

    let (sql, args) = b.build_with_flavor(Flavor::MySQL, vec![Arg::Null]);
    assert_eq!(sql, "CREATE TABLE t COMMENT ?");
    assert_eq!(args.len(), 2);
    let (sql, _) = b.build_with_flavor(Flavor::SQLServer, vec![Arg::Null]);
    assert_eq!(sql, "CREATE TABLE t COMMENT @2");
}

#[test]
fn set_flavor_returns_previous() {
    let mut b = CreateTableBuilder::new();
    assert_eq!(b.flavor(), Flavor::InvalidFlavor);
    assert_eq!(b.set_flavor(Flavor::Oracle), Flavor::InvalidFlavor);
    assert_eq!(b.flavor(), Flavor::Oracle);
}

#[test]
fn compile_keeps_foreign_dollar_text() {
    let mut a = Args::new();
    let first = a.add(Arg::Int(1));
    let second = a.add(s_arg("x"));
    assert_eq!(first, "$256");
    assert_eq!(second, "$257");
    let sql = format!("a = {} AND b = {} AND c = $1 AND d = $ AND e = $300 AND f = {}", second, first, second);
    let (out, args) = a.compile_with_flavor(&sql, Flavor::Oracle, vec![]);
    assert_eq!(out, "a = :1 AND b = :2 AND c = $1 AND d = $ AND e = $300 AND f = :3");
    assert_eq!(args.len(), 3);
    assert!(matches!(&args[0], Arg::Str(v) if v == "x"));
    assert!(matches!(args[1], Arg::Int(1)));
    assert!(matches!(&args[2], Arg::Str(v) if v == "x"));
    assert_eq!(a.finalize().len(), 2);
}

fn s_arg(t: &str) -> Arg {
    Arg::Str(t.to_string())
}

#[test]
fn injection_joins_fragments_with_spaces() {
    let mut inj = Injection::new();
    inj.sql(InjectionMarker::AfterCreate, "A".to_string());
    inj.sql(InjectionMarker::AfterCreate, "".to_string());
    inj.sql(InjectionMarker::AfterCreate, "B".to_string());
    let mut sb = StringBuilder::new();
    sb.write_string("X");
    inj.write_to(&mut sb, InjectionMarker::AfterCreate);
    inj.write_to(&mut sb, InjectionMarker::Init);
    assert_eq!(sb.to_string(), "X A B");
}
