use sqlbuilder::args::Arg;
use sqlbuilder::error::Error;
use sqlbuilder::interpolate::{
    clickhouse_interpolate, cql_interpolate, informix_interpolate, mysql_interpolate,
    mysql_like_interpolate, oracle_interpolate, postgresql_interpolate, presto_interpolate,
    sqlite_interpolate, sqlserver_interpolate,
};
use sqlbuilder::flavor::Flavor;

fn s(t: &str) -> Arg {
    Arg::Str(t.to_string())
}

#[test]
fn sequential_markers_take_arguments_in_order() {
    let r = mysql_interpolate("SELECT * FROM t WHERE a = ? AND b = ?", &[Arg::Int(1), s("x")]);
    assert_eq!(r.unwrap(), "SELECT * FROM t WHERE a = 1 AND b = 'x'");
}

#[test]
fn question_mark_inside_quotes_is_kept() {
    let r = mysql_interpolate("SELECT 'it''s a ? test', ?", &[Arg::Int(5)]);
    assert_eq!(r.unwrap(), "SELECT 'it''s a ? test', 5");
    let r = mysql_interpolate("SELECT `a?b`, \"c?\", ?", &[Arg::Bool(true)]);
    assert_eq!(r.unwrap(), "SELECT `a?b`, \"c?\", TRUE");
}

#[test]
fn indexed_markers_pick_by_position() {
    let r = postgresql_interpolate("$2 and $1", &[Arg::Int(10), Arg::Int(20)]);
    assert_eq!(r.unwrap(), "20 and 10");
}

#[test]
fn indexed_marker_reused() {
    let r = postgresql_interpolate("$1 = $1", &[s("a")]);
    assert_eq!(r.unwrap(), "'a' = 'a'");
}

#[test]
fn out_of_range_index_fails() {
    let r = postgresql_interpolate("SELECT $5", &[Arg::Int(1), Arg::Int(2)]);
    assert_eq!(r, Err(Error::MissingArgs));
    let r = postgresql_interpolate("SELECT $0", &[Arg::Int(1)]);
    assert_eq!(r, Err(Error::MissingArgs));
    let r = postgresql_interpolate("SELECT $99999999999999999999999999999", &[Arg::Int(1)]);
    assert_eq!(r, Err(Error::MissingArgs));
}

#[test]
fn exhausted_sequential_arguments_fail() {
    let r = mysql_interpolate("? ? ?", &[Arg::Int(1), Arg::Int(2)]);
    assert_eq!(r, Err(Error::MissingArgs));
}

#[test]
fn backslash_keeps_quote_open() {
    let r = mysql_interpolate("SELECT 'a\\'?' , ?", &[Arg::Int(3)]);
    assert_eq!(r.unwrap(), "SELECT 'a\\'?' , 3");
    let r = postgresql_interpolate("'x\\'$1' $1", &[Arg::Int(4)]);
    assert_eq!(r.unwrap(), "'x\\'$1' 4");
}

#[test]
fn backslash_outside_quotes_is_plain() {
    let r = mysql_interpolate("a\\? b", &[Arg::Int(2)]);
    assert_eq!(r.unwrap(), "a\\2 b");
}

#[test]
fn marker_without_digits_is_copied() {
    let r = postgresql_interpolate("SELECT $ , $a, $1", &[Arg::Null]);
    assert_eq!(r.unwrap(), "SELECT $ , $a, NULL");
}

#[test]
fn other_indexed_dialects() {
    let args = [s("q"), Arg::Int(-12)];
    assert_eq!(sqlserver_interpolate("@2 @1 @x", &args).unwrap(), "-12 'q' @x");
    assert_eq!(oracle_interpolate(":2, :1", &args).unwrap(), "-12, 'q'");
    assert_eq!(oracle_interpolate("':1' :1", &args).unwrap(), "':1' 'q'");
}

#[test]
fn other_sequential_dialects() {
    let args = [s("o'k")];
    assert_eq!(sqlite_interpolate("?", &args).unwrap(), "'o''k'");
    assert_eq!(cql_interpolate("?", &args).unwrap(), "'o''k'");
    assert_eq!(presto_interpolate("?", &args).unwrap(), "'o''k'");
    assert_eq!(informix_interpolate("?", &args).unwrap(), "'o''k'");
    assert_eq!(clickhouse_interpolate("?", &args).unwrap(), "'o\\'k'");
    assert_eq!(mysql_interpolate("?", &args).unwrap(), "'o\\'k'");
}

#[test]
fn string_escaping_of_backslash() {
    let args = [s("a\\b")];
    assert_eq!(mysql_interpolate("?", &args).unwrap(), "'a\\\\b'");
    assert_eq!(sqlite_interpolate("?", &args).unwrap(), "'a\\b'");
}

#[test]
fn literal_forms() {
    let args = [Arg::Null, Arg::Bool(false), Arg::Int(i64::MIN), Arg::Raw("NOW()".to_string())];
    assert_eq!(
        mysql_interpolate("?, ?, ?, ?", &args).unwrap(),
        "NULL, FALSE, -9223372036854775808, NOW()"
    );
    assert_eq!(sqlserver_interpolate("@2", &[Arg::Bool(true), Arg::Bool(false)]).unwrap(), "0");
    assert_eq!(oracle_interpolate(":1", &[Arg::Bool(true)]).unwrap(), "1");
    assert_eq!(mysql_interpolate("?", &[Arg::Int(0)]).unwrap(), "0");
    assert_eq!(mysql_interpolate("?", &[Arg::Int(i64::MAX)]).unwrap(), "9223372036854775807");
}

#[test]
fn binary_values_are_refused() {
    let r = mysql_interpolate("?", &[Arg::Bytes(vec![1, 2])]);
    assert_eq!(r, Err(Error::UnsupportedArgs));
    let r = postgresql_interpolate("$1", &[Arg::Bytes(vec![])]);
    assert_eq!(r, Err(Error::UnsupportedArgs));
}

#[test]
fn first_failure_wins() {
    let r = mysql_interpolate("? ?", &[Arg::Bytes(vec![0])]);
    assert_eq!(r, Err(Error::UnsupportedArgs));
    let r = mysql_interpolate("? ? ?", &[Arg::Int(1), Arg::Int(2), Arg::Bytes(vec![0])]);
    assert_eq!(r, Err(Error::UnsupportedArgs));
}

#[test]
fn empty_template_and_unused_arguments() {
    assert_eq!(mysql_interpolate("", &[]).unwrap(), "");
    assert_eq!(mysql_interpolate("SELECT 1", &[Arg::Int(9)]).unwrap(), "SELECT 1");
    assert_eq!(postgresql_interpolate("SELECT 1", &[]).unwrap(), "SELECT 1");
}

#[test]
fn unicode_text_passes_through() {
    let r = mysql_like_interpolate(Flavor::MySQL, "SELECT 'é?', ?", &[s("ü")]);
    assert_eq!(r.unwrap(), "SELECT 'é?', 'ü'");
}
