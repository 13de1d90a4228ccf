use vstd::prelude::*;

use crate::args::{Arg, MIN_INDEX_BASE};
use crate::injection::InjectionMarker;
use crate::create_table::CreateTableBuilder;
use crate::error::Error;
use crate::interpolate::{
    clickhouse_interpolate, cql_interpolate, informix_interpolate, interpolation,
    mysql_interpolate, oracle_interpolate, postgresql_interpolate, presto_interpolate,
    sqlite_interpolate, sqlserver_interpolate, yields,
};
use crate::text::{push_char, push_str};

verus! {

/// A SQL dialect.
#[derive(Debug, Clone, Copy, PartialEq, Eq, Structural)]
pub enum Flavor {
    InvalidFlavor,
    MySQL,
    PostgreSQL,
    SQLite,
    SQLServer,
    CQL,
    ClickHouse,
    Presto,
    Oracle,
    Informix,
}

/// The name of a dialect.
pub open spec fn flavor_name(f: Flavor) -> Seq<char> {
    match f {
        Flavor::MySQL => "MySQL"@,
        Flavor::PostgreSQL => "PostgreSQL"@,
        Flavor::SQLite => "SQLite"@,
        Flavor::SQLServer => "SQLServer"@,
        Flavor::CQL => "CQL"@,
        Flavor::ClickHouse => "ClickHouse"@,
        Flavor::Presto => "Presto"@,
        Flavor::Oracle => "Oracle"@,
        Flavor::Informix => "Informix"@,
        Flavor::InvalidFlavor => "<invalid>"@,
    }
}

/// The character that a dialect puts around identifiers, if any.
pub open spec fn identifier_quote(f: Flavor) -> Option<char> {
    match f {
        Flavor::MySQL | Flavor::ClickHouse => Some('`'),
        Flavor::PostgreSQL | Flavor::SQLServer | Flavor::SQLite | Flavor::Presto
        | Flavor::Oracle | Flavor::Informix => Some('"'),
        Flavor::CQL => Some('\''),
        Flavor::InvalidFlavor => None,
    }
}

/// `name` between the dialect's identifier quotes; embedded quotes are left as they are.
pub open spec fn quoted_identifier(f: Flavor, name: Seq<char>) -> Seq<char> {
    match identifier_quote(f) {
        Some(q) => seq![q] + name + seq![q],
        None => name,
    }
}

/// The verb that inserts a row unless it conflicts with one already there.
pub open spec fn insert_ignore_verb(f: Flavor) -> Seq<char> {
    match f {
        Flavor::MySQL | Flavor::Oracle => "INSERT IGNORE"@,
        Flavor::SQLite => "INSERT OR IGNORE"@,
        _ => "INSERT"@,
    }
}

/// The parts of an `INSERT` statement that the dialects differ in.
pub struct InsertBuilder {
    verb: String,
    table: String,
    marker: Option<String>,
}

impl InsertBuilder {
    /// The verb the statement starts with.
    pub closed spec fn verb_text(&self) -> Seq<char> {
        self.verb@
    }

    /// The table to insert into.
    pub closed spec fn table_text(&self) -> Seq<char> {
        self.table@
    }

    /// The extra SQL spliced in after the statement, if any.
    pub closed spec fn extra_sql(&self) -> Option<Seq<char>> {
        match self.marker {
            Some(m) => Some(m@),
            None => None,
        }
    }

    /// An `INSERT` into no table yet.
    pub fn new() -> (r: Self)
        ensures
            r.verb_text() == "INSERT"@,
            r.table_text().len() == 0,
            r.extra_sql() is None,
    {
        InsertBuilder { verb: "INSERT".to_owned(), table: String::new(), marker: None }
    }

    /// Sets the verb.
    pub fn set_verb(&mut self, verb: &str)
        ensures
            final(self).verb_text() == verb@,
            final(self).table_text() == old(self).table_text(),
            final(self).extra_sql() == old(self).extra_sql(),
    {
        self.verb = verb.to_owned();
    }

    /// Sets the table.
    pub fn set_table(&mut self, table: &str)
        ensures
            final(self).table_text() == table@,
            final(self).verb_text() == old(self).verb_text(),
            final(self).extra_sql() == old(self).extra_sql(),
    {
        self.table = table.to_owned();
    }

    /// Sets the extra SQL.
    pub fn add_sql(&mut self, sql: &str)
        ensures
            final(self).extra_sql() == Some(sql@),
            final(self).verb_text() == old(self).verb_text(),
            final(self).table_text() == old(self).table_text(),
    {
        self.marker = Some(sql.to_owned());
    }

    /// Drops the extra SQL.
    pub fn reset_marker(&mut self)
        ensures
            final(self).extra_sql() is None,
            final(self).verb_text() == old(self).verb_text(),
            final(self).table_text() == old(self).table_text(),
    {
        self.marker = None;
    }

    /// The verb.
    pub fn verb(&self) -> (r: &str)
        ensures
            r@ == self.verb_text(),
    {
        self.verb.as_str()
    }

    /// The table.
    pub fn table(&self) -> (r: &str)
        ensures
            r@ == self.table_text(),
    {
        self.table.as_str()
    }

    /// The extra SQL, if any.
    pub fn marker(&self) -> (r: Option<&str>)
        ensures
            match r {
                Some(m) => self.extra_sql() == Some(m@),
                None => self.extra_sql() is None,
            },
    {
        match &self.marker {
            Some(m) => Some(m.as_str()),
            None => None,
        }
    }
}

impl Flavor {
    /// The dialect's name.
    pub fn to_string(&self) -> (r: &'static str)
        ensures
            r@ == flavor_name(*self),
    {
        match self {
            Flavor::MySQL => "MySQL",
            Flavor::PostgreSQL => "PostgreSQL",
            Flavor::SQLite => "SQLite",
            Flavor::SQLServer => "SQLServer",
            Flavor::CQL => "CQL",
            Flavor::ClickHouse => "ClickHouse",
            Flavor::Presto => "Presto",
            Flavor::Oracle => "Oracle",
            Flavor::Informix => "Informix",
            Flavor::InvalidFlavor => "<invalid>",
        }
    }

    /// Replaces the placeholders of `sql` by the literals of `args`, by the dialect's rules.
    pub fn interpolate(&self, sql: &str, args: &[Arg]) -> (r: Result<String, Error>)
        ensures
            yields(r, interpolation(*self, sql@, args@)),
    {
        match self {
            Flavor::MySQL => mysql_interpolate(sql, args),
            Flavor::PostgreSQL => postgresql_interpolate(sql, args),
            Flavor::SQLite => sqlite_interpolate(sql, args),
            Flavor::SQLServer => sqlserver_interpolate(sql, args),
            Flavor::CQL => cql_interpolate(sql, args),
            Flavor::ClickHouse => clickhouse_interpolate(sql, args),
            Flavor::Presto => presto_interpolate(sql, args),
            Flavor::Oracle => oracle_interpolate(sql, args),
            Flavor::Informix => informix_interpolate(sql, args),
            Flavor::InvalidFlavor => Err(Error::NotImplemented),
        }
    }

    /// A `CREATE TABLE` builder for this dialect.
    pub fn new_create_table_builder(&self) -> (r: CreateTableBuilder)
        ensures
            r.registry().spec_flavor() == *self,
            r.verb_text() == "CREATE TABLE"@,
            !r.spec_if_not_exists(),
            r.table_text().len() == 0,
            r.defs_rows().len() == 0,
            r.options_rows().len() == 0,
            r.registry().registered().len() == 0,
            r.registry().base() == MIN_INDEX_BASE,
            forall|m: InjectionMarker| #[trigger] r.injections().at(m).len() == 0,
            r.stage() == InjectionMarker::Init,
    {
        let mut builder = CreateTableBuilder::new();
        builder.set_flavor(*self);
        builder
    }

    /// An `INSERT` builder; it carries no dialect of its own.
    pub fn new_insert_builder(&self) -> (r: InsertBuilder)
        ensures
            r.verb_text() == "INSERT"@,
            r.table_text().len() == 0,
            r.extra_sql() is None,
    {
        InsertBuilder::new()
    }

    /// Sets the verb of `ib` to the dialect's insert that skips rows conflicting with existing
    /// ones, and its table to `table`; any extra SQL is dropped at the end.
    pub fn prepare_insert_ignore(&self, table: &str, ib: &mut InsertBuilder)
        ensures
            final(ib).verb_text() == insert_ignore_verb(*self),
            final(ib).table_text() == table@,
            final(ib).extra_sql() is None,
    {
        match self {
            Flavor::MySQL | Flavor::Oracle => {
                ib.set_verb("INSERT IGNORE");
            },
            Flavor::PostgreSQL => {
                ib.set_verb("INSERT");
                ib.add_sql("ON CONFLICT DO NOTHING");
            },
            Flavor::SQLite => {
                ib.set_verb("INSERT OR IGNORE");
            },
            _ => {
                ib.set_verb("INSERT");
            },
        }
        ib.set_table(table);
        ib.reset_marker();
    }

    /// Wraps `name` in the dialect's identifier quotes.
    pub fn quote(&self, name: &str) -> (r: String)
        ensures
            r@ == quoted_identifier(*self, name@),
    {
        let q = match self {
            Flavor::MySQL | Flavor::ClickHouse => Some('`'),
            Flavor::PostgreSQL | Flavor::SQLServer | Flavor::SQLite | Flavor::Presto
            | Flavor::Oracle | Flavor::Informix => Some('"'),
            Flavor::CQL => Some('\''),
            Flavor::InvalidFlavor => None,
        };
        let mut r = String::new();
        match q {
            Some(c) => {
                push_char(&mut r, c);
                push_str(&mut r, name);
                push_char(&mut r, c);
                assert(r@ =~= quoted_identifier(*self, name@));
            },
            None => {
                push_str(&mut r, name);
                assert(r@ =~= quoted_identifier(*self, name@));
            },
        }
        r
    }
}

} // verus!
