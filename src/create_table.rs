use vstd::prelude::*;

use crate::args::{arg_views, compiled_from, Arg, Args, MIN_INDEX_BASE};
use crate::flavor::Flavor;
use crate::injection::{leading, spliced, Injection, InjectionMarker};
use crate::stringbuilder::StringBuilder;
use crate::text::{join, non_empty, views};

verus! {

/// A row of words, the empty ones left out, joined by spaces.
pub open spec fn row_text(row: Seq<Seq<char>>) -> Seq<char> {
    join(non_empty(row), seq![' '])
}

/// The text of each row.
pub open spec fn rows_text(rows: Seq<Seq<Seq<char>>>) -> Seq<Seq<char>> {
    rows.map_values(|r: Seq<Seq<char>>| row_text(r))
}

/// The words of each row.
pub open spec fn rows_of(rows: Seq<Vec<String>>) -> Seq<Seq<Seq<char>>> {
    rows.map_values(|r: Vec<String>| views(r@))
}

/// The verb, `IF NOT EXISTS` and the table name, each after the fragments spliced in before it.
pub open spec fn head_text(verb: Seq<char>, if_not_exists: bool, table: Seq<char>, inj: Injection) -> Seq<
    char,
> {
    let b0 = spliced(Seq::empty(), inj.at(InjectionMarker::Init));
    let b1 = if verb.len() > 0 { leading(b0, verb) } else { b0 };
    let b2 = if if_not_exists { leading(b1, "IF NOT EXISTS"@) } else { b1 };
    let b3 = if table.len() > 0 { leading(b2, table) } else { b2 };
    spliced(b3, inj.at(InjectionMarker::AfterCreate))
}

/// `b` followed by the definitions in parentheses, when there are any.
pub open spec fn defs_text(b: Seq<char>, defs: Seq<Seq<char>>, inj: Injection) -> Seq<char> {
    if defs.len() > 0 {
        spliced(
            leading(b, seq!['(']) + join(non_empty(defs), ", "@) + seq![')'],
            inj.at(InjectionMarker::AfterDefine),
        )
    } else {
        b
    }
}

/// `b` followed by the table options, when there are any.
pub open spec fn options_text(b: Seq<char>, options: Seq<Seq<char>>, inj: Injection) -> Seq<char> {
    if options.len() > 0 {
        spliced(leading(b, join(non_empty(options), ", "@)), inj.at(InjectionMarker::AfterOption))
    } else {
        b
    }
}

/// The text of a `CREATE TABLE` statement with the given parts, the injected fragments spliced
/// in after each stage.
pub open spec fn create_table_text(
    verb: Seq<char>,
    if_not_exists: bool,
    table: Seq<char>,
    defs: Seq<Seq<char>>,
    options: Seq<Seq<char>>,
    inj: Injection,
) -> Seq<char> {
    options_text(defs_text(head_text(verb, if_not_exists, table, inj), defs, inj), options, inj)
}

fn render_rows(rows: &Vec<Vec<String>>) -> (r: Vec<String>)
    ensures
        views(r@) == rows_text(rows_of(rows@)),
{
    let mut out: Vec<String> = Vec::new();
    let mut i: usize = 0;
    while i < rows.len()
        invariant
            i <= rows.len(),
            views(out@) == rows_text(rows_of(rows@)).take(i as int),
        decreases rows.len() - i,
    {
        let mut sb = StringBuilder::new();
        sb.write_strings(rows[i].as_slice(), " ");
        proof {
            reveal_strlit(" ");
            assert(" "@ =~= seq![' ']);
        }
        let text = sb.to_string().to_owned();
        let ghost prev = out@;
        out.push(text);
        assert(views(out@) =~= views(prev).push(text@));
        assert(rows_text(rows_of(rows@)).take(i + 1) =~= rows_text(rows_of(rows@)).take(i as int).push(
            text@,
        ));
        i = i + 1;
    }
    assert(rows_text(rows_of(rows@)).take(i as int) =~= rows_text(rows_of(rows@)));
    out
}

/// Builds a `CREATE TABLE` statement.
pub struct CreateTableBuilder {
    verb: String,
    if_not_exists: bool,
    table: String,
    defs: Vec<Vec<String>>,
    options: Vec<Vec<String>>,
    args: Args,
    injection: Injection,
    marker: InjectionMarker,
}

impl CreateTableBuilder {
    /// The verb the statement starts with.
    pub closed spec fn verb_text(&self) -> Seq<char> {
        self.verb@
    }

    /// Whether `IF NOT EXISTS` is written.
    pub closed spec fn spec_if_not_exists(&self) -> bool {
        self.if_not_exists
    }

    /// The table name.
    pub closed spec fn table_text(&self) -> Seq<char> {
        self.table@
    }

    /// The words of each column or index definition.
    pub closed spec fn defs_rows(&self) -> Seq<Seq<Seq<char>>> {
        rows_of(self.defs@)
    }

    /// The words of each table option.
    pub closed spec fn options_rows(&self) -> Seq<Seq<Seq<char>>> {
        rows_of(self.options@)
    }

    /// The registry of the statement's values.
    pub closed spec fn registry(&self) -> Args {
        self.args
    }

    /// The fragments injected so far.
    pub closed spec fn injections(&self) -> Injection {
        self.injection
    }

    /// The stage that the next injected fragment goes to.
    pub closed spec fn stage(&self) -> InjectionMarker {
        self.marker
    }

    /// The statement text, with the registry's placeholders still in it.
    pub open spec fn text(&self) -> Seq<char> {
        create_table_text(
            self.verb_text(),
            self.spec_if_not_exists(),
            self.table_text(),
            rows_text(self.defs_rows()),
            rows_text(self.options_rows()),
            self.injections(),
        )
    }

    /// An empty `CREATE TABLE` statement with no dialect set yet.
    pub fn new() -> (r: Self)
        ensures
            r.verb_text() == "CREATE TABLE"@,
            !r.spec_if_not_exists(),
            r.table_text().len() == 0,
            r.defs_rows().len() == 0,
            r.options_rows().len() == 0,
            r.registry().registered().len() == 0,
            r.registry().base() == MIN_INDEX_BASE,
            r.registry().spec_flavor() == Flavor::InvalidFlavor,
            forall|m: InjectionMarker| #[trigger] r.injections().at(m).len() == 0,
            r.stage() == InjectionMarker::Init,
    {
        let mut args = Args::new();
        args.set_flavor(Flavor::InvalidFlavor);
        let r = CreateTableBuilder {
            verb: "CREATE TABLE".to_owned(),
            if_not_exists: false,
            table: String::new(),
            defs: Vec::new(),
            options: Vec::new(),
            args,
            injection: Injection::new(),
            marker: InjectionMarker::Init,
        };
        assert(r.defs_rows() =~= Seq::<Seq<Seq<char>>>::empty());
        assert(r.options_rows() =~= Seq::<Seq<Seq<char>>>::empty());
        r
    }

    /// Names the table to create.
    pub fn create_table(&mut self, table: &str) -> (r: &mut Self)
        ensures
            r.table_text() == table@,
            r.stage() == InjectionMarker::AfterCreate,
            r.verb_text() == old(self).verb_text(),
            r.spec_if_not_exists() == old(self).spec_if_not_exists(),
            r.defs_rows() == old(self).defs_rows(),
            r.options_rows() == old(self).options_rows(),
            r.registry() == old(self).registry(),
            r.injections() == old(self).injections(),
            *final(self) == *final(r),
    {
        self.table = table.to_owned();
        self.marker = InjectionMarker::AfterCreate;
        self
    }

    /// Names a temporary table to create.
    pub fn create_temp_table(&mut self, table: &str) -> (r: &mut Self)
        ensures
            r.verb_text() == "CREATE TEMPORARY TABLE"@,
            r.table_text() == table@,
            r.stage() == InjectionMarker::AfterCreate,
            r.spec_if_not_exists() == old(self).spec_if_not_exists(),
            r.defs_rows() == old(self).defs_rows(),
            r.options_rows() == old(self).options_rows(),
            r.registry() == old(self).registry(),
            r.injections() == old(self).injections(),
            *final(self) == *final(r),
    {
        self.verb = "CREATE TEMPORARY TABLE".to_owned();
        self.table = table.to_owned();
        self.marker = InjectionMarker::AfterCreate;
        self
    }

    /// Adds `IF NOT EXISTS`.
    pub fn if_not_exists(&mut self) -> (r: &mut Self)
        ensures
            r.spec_if_not_exists(),
            r.verb_text() == old(self).verb_text(),
            r.table_text() == old(self).table_text(),
            r.defs_rows() == old(self).defs_rows(),
            r.options_rows() == old(self).options_rows(),
            r.registry() == old(self).registry(),
            r.injections() == old(self).injections(),
            r.stage() == old(self).stage(),
            *final(self) == *final(r),
    {
        self.if_not_exists = true;
        self
    }

    /// Adds a column or index definition, given as words.
    pub fn define(&mut self, def: Vec<String>) -> (r: &mut Self)
        ensures
            r.defs_rows() == old(self).defs_rows().push(views(def@)),
            r.stage() == InjectionMarker::AfterDefine,
            r.verb_text() == old(self).verb_text(),
            r.spec_if_not_exists() == old(self).spec_if_not_exists(),
            r.table_text() == old(self).table_text(),
            r.options_rows() == old(self).options_rows(),
            r.registry() == old(self).registry(),
            r.injections() == old(self).injections(),
            *final(self) == *final(r),
    {
        let ghost words = views(def@);
        self.defs.push(def);
        assert(self.defs_rows() =~= old(self).defs_rows().push(words));
        self.marker = InjectionMarker::AfterDefine;
        self
    }

    /// Adds a table option, given as words.
    pub fn option(&mut self, opt: Vec<String>) -> (r: &mut Self)
        ensures
            r.options_rows() == old(self).options_rows().push(views(opt@)),
            r.stage() == InjectionMarker::AfterOption,
            r.verb_text() == old(self).verb_text(),
            r.spec_if_not_exists() == old(self).spec_if_not_exists(),
            r.table_text() == old(self).table_text(),
            r.defs_rows() == old(self).defs_rows(),
            r.registry() == old(self).registry(),
            r.injections() == old(self).injections(),
            *final(self) == *final(r),
    {
        let ghost words = views(opt@);
        self.options.push(opt);
        assert(self.options_rows() =~= old(self).options_rows().push(words));
        self.marker = InjectionMarker::AfterOption;
        self
    }

    /// The number of definitions.
    pub fn num_define(&self) -> (r: usize)
        ensures
            r == self.defs_rows().len(),
    {
        self.defs.len()
    }

    /// Splices `sql` into the statement after the stage reached last.
    pub fn sql(&mut self, sql: &str) -> (r: &mut Self)
        ensures
            r.injections().at(old(self).stage()) == old(self).injections().at(old(self).stage()).push(sql@),
            forall|m: InjectionMarker|
                m != old(self).stage() ==> #[trigger] r.injections().at(m) == old(self).injections().at(m),
            r.verb_text() == old(self).verb_text(),
            r.spec_if_not_exists() == old(self).spec_if_not_exists(),
            r.table_text() == old(self).table_text(),
            r.defs_rows() == old(self).defs_rows(),
            r.options_rows() == old(self).options_rows(),
            r.registry() == old(self).registry(),
            r.stage() == old(self).stage(),
            *final(self) == *final(r),
    {
        self.injection.sql(self.marker, sql.to_owned());
        self
    }

    /// Sets the dialect and returns the one set before.
    pub fn set_flavor(&mut self, flavor: Flavor) -> (r: Flavor)
        ensures
            r == old(self).registry().spec_flavor(),
            final(self).registry().spec_flavor() == flavor,
            final(self).registry().registered() == old(self).registry().registered(),
            final(self).registry().base() == old(self).registry().base(),
            final(self).verb_text() == old(self).verb_text(),
            final(self).spec_if_not_exists() == old(self).spec_if_not_exists(),
            final(self).table_text() == old(self).table_text(),
            final(self).defs_rows() == old(self).defs_rows(),
            final(self).options_rows() == old(self).options_rows(),
            final(self).injections() == old(self).injections(),
            final(self).stage() == old(self).stage(),
    {
        self.args.set_flavor(flavor)
    }

    /// The dialect the statement is built for.
    pub fn flavor(&self) -> (r: Flavor)
        ensures
            r == self.registry().spec_flavor(),
    {
        self.args.flavor()
    }

    /// Registers `arg` and returns its placeholder.
    pub fn var(&mut self, arg: Arg) -> (r: String)
        ensures
            r@ == old(self).registry().next_placeholder(),
            final(self).registry().registered() == old(self).registry().registered().push(arg),
            final(self).registry().base() == old(self).registry().base(),
            final(self).registry().spec_flavor() == old(self).registry().spec_flavor(),
            final(self).verb_text() == old(self).verb_text(),
            final(self).spec_if_not_exists() == old(self).spec_if_not_exists(),
            final(self).table_text() == old(self).table_text(),
            final(self).defs_rows() == old(self).defs_rows(),
            final(self).options_rows() == old(self).options_rows(),
            final(self).injections() == old(self).injections(),
            final(self).stage() == old(self).stage(),
    {
        self.args.add(arg)
    }

    fn write_head(&self, buf: &mut StringBuilder)
        requires
            old(buf)@.len() == 0,
        ensures
            final(buf)@ == head_text(self.verb_text(), self.spec_if_not_exists(), self.table_text(), self.injections()),
    {
        self.injection.write_to(buf, InjectionMarker::Init);
        if !self.verb.as_str().is_empty() {
            buf.write_leading_string(self.verb.as_str());
        }
        if self.if_not_exists {
            buf.write_leading_string("IF NOT EXISTS");
        }
        if !self.table.as_str().is_empty() {
            buf.write_leading_string(self.table.as_str());
        }
        self.injection.write_to(buf, InjectionMarker::AfterCreate);
    }

    fn write_defs(&self, buf: &mut StringBuilder)
        ensures
            final(buf)@ == defs_text(old(buf)@, rows_text(self.defs_rows()), self.injections()),
    {
        if self.defs.len() > 0 {
            buf.write_leading_string("(");
            let defs = render_rows(&self.defs);
            buf.write_strings(defs.as_slice(), ", ");
            buf.write_rune(')');
            self.injection.write_to(buf, InjectionMarker::AfterDefine);
            proof {
                reveal_strlit("(");
                assert("("@ =~= seq!['(']);
            }
        }
    }

    fn write_options(&self, buf: &mut StringBuilder)
        ensures
            final(buf)@ == options_text(old(buf)@, rows_text(self.options_rows()), self.injections()),
    {
        if self.options.len() > 0 {
            let opts = render_rows(&self.options);
            let mut joined = StringBuilder::new();
            joined.write_strings(opts.as_slice(), ", ");
            buf.write_leading_string(joined.to_string());
            self.injection.write_to(buf, InjectionMarker::AfterOption);
        }
    }

    /// The statement for a prepared statement in dialect `flavor`, and its arguments:
    /// `initial_arg` first, then the registered values in the order their placeholders appear.
    pub fn build_with_flavor(&self, flavor: Flavor, initial_arg: Vec<Arg>) -> (r: (String, Vec<Arg>))
        ensures
            r.0@ == compiled_from(
                flavor,
                self.text(),
                self.registry().base(),
                self.registry().registered().len(),
                0,
                initial_arg@.len(),
            ).0,
            arg_views(r.1@) == arg_views(initial_arg@) + compiled_from(
                flavor,
                self.text(),
                self.registry().base(),
                self.registry().registered().len(),
                0,
                initial_arg@.len(),
            ).1.map_values(|k: nat| self.registry().registered()[k as int]@),
    {
        let mut buf = StringBuilder::new();
        self.write_head(&mut buf);
        self.write_defs(&mut buf);
        self.write_options(&mut buf);
        self.args.compile_with_flavor(buf.to_string(), flavor, initial_arg)
    }

    /// The statement and its arguments in the builder's own dialect.
    pub fn build(&self) -> (r: (String, Vec<Arg>))
        ensures
            r.0@ == compiled_from(
                self.registry().spec_flavor(),
                self.text(),
                self.registry().base(),
                self.registry().registered().len(),
                0,
                0,
            ).0,
            arg_views(r.1@) == compiled_from(
                self.registry().spec_flavor(),
                self.text(),
                self.registry().base(),
                self.registry().registered().len(),
                0,
                0,
            ).1.map_values(|k: nat| self.registry().registered()[k as int]@),
    {
        let r = self.build_with_flavor(self.args.flavor(), Vec::new());
        assert(arg_views(Seq::<Arg>::empty()) + compiled_from(
                self.registry().spec_flavor(),
                self.text(),
                self.registry().base(),
                self.registry().registered().len(),
                0,
                0,
            ).1.map_values(|k: nat| self.registry().registered()[k as int]@) =~= compiled_from(
                self.registry().spec_flavor(),
                self.text(),
                self.registry().base(),
                self.registry().registered().len(),
                0,
                0,
            ).1.map_values(|k: nat| self.registry().registered()[k as int]@));
        r
    }

    /// The statement text in the builder's own dialect.
    pub fn string(&self) -> (r: String)
        ensures
            r@ == compiled_from(
                self.registry().spec_flavor(),
                self.text(),
                self.registry().base(),
                self.registry().registered().len(),
                0,
                0,
            ).0,
    {
        self.build().0
    }
}

} // verus!
