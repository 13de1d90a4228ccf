use vstd::prelude::*;

use crate::args::{Arg, ArgView};
use crate::error::Error;
use crate::flavor::Flavor;
use crate::text::{
    chars_of, digit_end, digits_value, int_text, lemma_digit_end, push_char, push_int, push_str,
    string_with_capacity,
};

verus! {

/// Where the scanner stands with respect to quoted text.
#[derive(Debug, Clone, Copy, PartialEq, Eq, Structural)]
pub enum ScanState {
    /// Outside any quoted region: placeholders are recognised here only.
    Normal,
    /// Inside a region opened by the given quote character.
    Quoted(char),
    /// Inside a quoted region, right after a backslash.
    Escaped(char),
}

/// Whether `c` opens a quoted region; the backtick counts only where `backtick` holds.
pub open spec fn is_quote(c: char, backtick: bool) -> bool {
    c == '\'' || c == '"' || (backtick && c == '`')
}

/// The state after copying `c` through unchanged.
pub open spec fn next_state(st: ScanState, c: char, backtick: bool) -> ScanState {
    match st {
        ScanState::Escaped(q) => ScanState::Quoted(q),
        ScanState::Quoted(q) => {
            if c == q {
                ScanState::Normal
            } else if c == '\\' {
                ScanState::Escaped(q)
            } else {
                ScanState::Quoted(q)
            }
        },
        ScanState::Normal => {
            if is_quote(c, backtick) {
                ScanState::Quoted(c)
            } else {
                ScanState::Normal
            }
        },
    }
}

/// Whether string literals of the dialect escape with a backslash, rather than by doubling quotes.
pub open spec fn backslash_escapes(f: Flavor) -> bool {
    f == Flavor::MySQL || f == Flavor::ClickHouse
}

/// The text that stands for `c` inside a string literal.
pub open spec fn escaped_char(f: Flavor, c: char) -> Seq<char> {
    if c == '\'' {
        if backslash_escapes(f) {
            seq!['\\', '\'']
        } else {
            seq!['\'', '\'']
        }
    } else if c == '\\' && backslash_escapes(f) {
        seq!['\\', '\\']
    } else {
        seq![c]
    }
}

/// The text of `s` with each character escaped.
pub open spec fn escaped(f: Flavor, s: Seq<char>) -> Seq<char>
    decreases s.len(),
{
    if s.len() == 0 {
        Seq::empty()
    } else {
        escaped(f, s.drop_last()) + escaped_char(f, s.last())
    }
}

/// The literal text of a boolean.
pub open spec fn bool_text(f: Flavor, b: bool) -> Seq<char> {
    if f == Flavor::SQLServer || f == Flavor::Oracle {
        if b { "1"@ } else { "0"@ }
    } else {
        if b { "TRUE"@ } else { "FALSE"@ }
    }
}

/// The literal text of `a` in the dialect, or why it has none.
pub open spec fn encode(f: Flavor, a: ArgView) -> Result<Seq<char>, Error> {
    match a {
        ArgView::Null => Ok("NULL"@),
        ArgView::Bool(b) => Ok(bool_text(f, b)),
        ArgView::Int(n) => Ok(int_text(n as int)),
        ArgView::Str(s) => Ok(seq!['\''] + escaped(f, s) + seq!['\'']),
        ArgView::Bytes(_) => Err(Error::UnsupportedArgs),
        ArgView::Raw(s) => Ok(s),
    }
}

/// `p` in front of a successful result; an error passes through.
pub open spec fn prepend(p: Seq<char>, r: Result<Seq<char>, Error>) -> Result<Seq<char>, Error> {
    match r {
        Ok(t) => Ok(p + t),
        Err(e) => Err(e),
    }
}

/// The output for `s` from position `i` on, where `cnt` arguments were taken by `?`.
pub open spec fn sequential_from(
    f: Flavor,
    s: Seq<char>,
    args: Seq<Arg>,
    i: nat,
    cnt: nat,
    st: ScanState,
) -> Result<Seq<char>, Error>
    decreases s.len() - i,
{
    if i >= s.len() {
        Ok(Seq::empty())
    } else if st == ScanState::Normal && s[i as int] == '?' {
        if cnt >= args.len() {
            Err(Error::MissingArgs)
        } else {
            match encode(f, args[cnt as int]@) {
                Err(e) => Err(e),
                Ok(t) => prepend(t, sequential_from(f, s, args, i + 1, cnt + 1, ScanState::Normal)),
            }
        }
    } else {
        prepend(seq![s[i as int]], sequential_from(f, s, args, i + 1, cnt, next_state(st, s[i as int], true)))
    }
}

/// Interpolation of a template whose placeholders are `?`, each taking the next argument.
pub open spec fn sequential_interpolation(f: Flavor, s: Seq<char>, args: Seq<Arg>) -> Result<
    Seq<char>,
    Error,
> {
    sequential_from(f, s, args, 0, 0, ScanState::Normal)
}

/// The output for `s` from position `i` on, where placeholders are `marker` and a 1-based index.
pub open spec fn indexed_from(
    marker: char,
    f: Flavor,
    s: Seq<char>,
    args: Seq<Arg>,
    i: nat,
    st: ScanState,
) -> Result<Seq<char>, Error>
    decreases s.len() - i,
{
    if i >= s.len() {
        Ok(Seq::empty())
    } else if st == ScanState::Normal && s[i as int] == marker {
        let j = digit_end(s, i + 1 as int);
        if j <= i + 1 {
            prepend(seq![marker], indexed_from(marker, f, s, args, i + 1, ScanState::Normal))
        } else {
            let n = digits_value(s.subrange(i + 1 as int, j));
            if n < 1 || n > args.len() {
                Err(Error::MissingArgs)
            } else {
                match encode(f, args[n - 1]@) {
                    Err(e) => Err(e),
                    Ok(t) => {
                        proof {
                            lemma_digit_end(s, i + 1 as int);
                        }
                        prepend(t, indexed_from(marker, f, s, args, j as nat, ScanState::Normal))
                    },
                }
            }
        }
    } else {
        prepend(seq![s[i as int]], indexed_from(marker, f, s, args, i + 1, next_state(st, s[i as int], false)))
    }
}

/// Interpolation of a template whose placeholders are `marker` followed by a 1-based index.
pub open spec fn indexed_interpolation(marker: char, f: Flavor, s: Seq<char>, args: Seq<Arg>) -> Result<
    Seq<char>,
    Error,
> {
    indexed_from(marker, f, s, args, 0, ScanState::Normal)
}

/// What interpolating `s` with `args` gives in each dialect.
pub open spec fn interpolation(f: Flavor, s: Seq<char>, args: Seq<Arg>) -> Result<Seq<char>, Error> {
    match f {
        Flavor::MySQL | Flavor::SQLite | Flavor::CQL | Flavor::ClickHouse | Flavor::Presto
        | Flavor::Informix => sequential_interpolation(f, s, args),
        Flavor::PostgreSQL => indexed_interpolation('$', f, s, args),
        Flavor::SQLServer => indexed_interpolation('@', f, s, args),
        Flavor::Oracle => indexed_interpolation(':', f, s, args),
        Flavor::InvalidFlavor => Err(Error::NotImplemented),
    }
}

/// `r` is the executable form of the outcome `m`.
pub open spec fn yields(r: Result<String, Error>, m: Result<Seq<char>, Error>) -> bool {
    match m {
        Ok(t) => r is Ok && r->Ok_0@ == t,
        Err(e) => r is Err && r->Err_0 == e,
    }
}

proof fn lemma_prepend_assoc(a: Seq<char>, b: Seq<char>, r: Result<Seq<char>, Error>)
    ensures
        prepend(a, prepend(b, r)) == prepend(a + b, r),
{
    if let Ok(t) = r {
        assert(a + (b + t) =~= (a + b) + t);
    }
}

fn step(st: ScanState, c: char, backtick: bool) -> (r: ScanState)
    ensures
        r == next_state(st, c, backtick),
{
    match st {
        ScanState::Escaped(q) => ScanState::Quoted(q),
        ScanState::Quoted(q) => {
            if c == q {
                ScanState::Normal
            } else if c == '\\' {
                ScanState::Escaped(q)
            } else {
                ScanState::Quoted(q)
            }
        },
        ScanState::Normal => {
            if c == '\'' || c == '"' || (backtick && c == '`') {
                ScanState::Quoted(c)
            } else {
                ScanState::Normal
            }
        },
    }
}

fn push_escaped(buf: &mut String, f: Flavor, s: &str)
    ensures
        final(buf)@ == old(buf)@ + escaped(f, s@),
{
    let cs = chars_of(s);
    let backslash = f == Flavor::MySQL || f == Flavor::ClickHouse;
    let mut i: usize = 0;
    while i < cs.len()
        invariant
            cs@ == s@,
            i <= cs.len(),
            backslash == backslash_escapes(f),
            buf@ == old(buf)@ + escaped(f, cs@.take(i as int)),
        decreases cs.len() - i,
    {
        let c = cs[i];
        let ghost before = buf@;
        if c == '\'' {
            if backslash {
                push_char(buf, '\\');
            } else {
                push_char(buf, '\'');
            }
            push_char(buf, '\'');
        } else if c == '\\' && backslash {
            push_char(buf, '\\');
            push_char(buf, '\\');
        } else {
            push_char(buf, c);
        }
        assert(buf@ =~= before + escaped_char(f, c));
        assert(cs@.take(i + 1).drop_last() =~= cs@.take(i as int));
        i = i + 1;
    }
    assert(cs@.take(i as int) =~= s@);
}

fn push_bool(buf: &mut String, f: Flavor, b: bool)
    ensures
        final(buf)@ == old(buf)@ + bool_text(f, b),
{
    if f == Flavor::SQLServer || f == Flavor::Oracle {
        if b {
            push_str(buf, "1");
        } else {
            push_str(buf, "0");
        }
    } else {
        if b {
            push_str(buf, "TRUE");
        } else {
            push_str(buf, "FALSE");
        }
    }
}

/// Appends the literal text of `arg` in the dialect; on failure `buf` is left as it was.
pub fn encode_value(buf: &mut String, arg: &Arg, f: Flavor) -> (r: Result<(), Error>)
    ensures
        match encode(f, arg@) {
            Ok(t) => r is Ok && final(buf)@ == old(buf)@ + t,
            Err(e) => r == Err::<(), Error>(e) && final(buf)@ == old(buf)@,
        },
{
    match arg {
        Arg::Null => {
            push_str(buf, "NULL");
            Ok(())
        },
        Arg::Bool(b) => {
            push_bool(buf, f, *b);
            Ok(())
        },
        Arg::Int(n) => {
            push_int(buf, *n);
            Ok(())
        },
        Arg::Str(s) => {
            push_char(buf, '\'');
            push_escaped(buf, f, s.as_str());
            push_char(buf, '\'');
            assert(final(buf)@ =~= old(buf)@ + (seq!['\''] + escaped(f, s@) + seq!['\'']));
            Ok(())
        },
        Arg::Bytes(_) => Err(Error::UnsupportedArgs),
        Arg::Raw(s) => {
            push_str(buf, s.as_str());
            Ok(())
        },
    }
}


/// A guess at the length of the output, so that its buffer need not grow while it is written.
fn estimated_len(query: &str, args: &[Arg]) -> usize {
    let q = query.len();
    if args.len() <= (usize::MAX - q) / 20 {
        q + args.len() * 20
    } else {
        q
    }
}

/// Replaces each `?` outside quoted text by the literal of the next argument.
pub fn mysql_like_interpolate(flavor: Flavor, query: &str, args: &[Arg]) -> (r: Result<String, Error>)
    ensures
        yields(r, sequential_interpolation(flavor, query@, args@)),
{
    let cs = chars_of(query);
    let mut buf = string_with_capacity(estimated_len(query, args));
    let mut cnt: usize = 0;
    let mut st = ScanState::Normal;
    let mut i: usize = 0;
    while i < cs.len()
        invariant
            cs@ == query@,
            i <= cs.len(),
            cnt <= args.len(),
            sequential_interpolation(flavor, query@, args@) == prepend(
                buf@,
                sequential_from(flavor, query@, args@, i as nat, cnt as nat, st),
            ),
        decreases cs.len() - i,
    {
        let c = cs[i];
        let ghost before = buf@;
        if st == ScanState::Normal && c == '?' {
            if cnt >= args.len() {
                return Err(Error::MissingArgs);
            }
            match encode_value(&mut buf, &args[cnt], flavor) {
                Err(e) => {
                    return Err(e);
                },
                Ok(()) => {},
            }
            proof {
                let t = encode(flavor, args@[cnt as int]@)->Ok_0;
                let next = sequential_from(flavor, query@, args@, (i + 1) as nat, (cnt + 1) as nat, ScanState::Normal);
                assert(sequential_from(flavor, query@, args@, i as nat, cnt as nat, st) == prepend(t, next));
                lemma_prepend_assoc(before, t, next);
                assert(buf@ == before + t);
                assert(sequential_interpolation(flavor, query@, args@) == prepend(buf@, next));
            }
            cnt = cnt + 1;
        } else {
            push_char(&mut buf, c);
            proof {
                let next = sequential_from(flavor, query@, args@, (i + 1) as nat, cnt as nat, next_state(st, c, true));
                assert(sequential_from(flavor, query@, args@, i as nat, cnt as nat, st) == prepend(seq![c], next));
                lemma_prepend_assoc(before, seq![c], next);
                assert(buf@ == before + seq![c]);
                assert(sequential_interpolation(flavor, query@, args@) == prepend(buf@, next));
            }
            st = step(st, c, true);
        }
        i = i + 1;
    }
    assert(buf@ + Seq::<char>::empty() =~= buf@);
    Ok(buf)
}

/// Replaces each `marker` followed by digits, outside quoted text, by the literal of the
/// argument that the digits number from 1.
fn indexed_interpolate(marker: char, flavor: Flavor, query: &str, args: &[Arg]) -> (r: Result<String, Error>)
    ensures
        yields(r, indexed_interpolation(marker, flavor, query@, args@)),
{
    let cs = chars_of(query);
    let ghost s = query@;
    let mut buf = string_with_capacity(estimated_len(query, args));
    let max: usize = args.len();
    let mut st = ScanState::Normal;
    let mut i: usize = 0;
    while i < cs.len()
        invariant
            cs@ == s,
            s == query@,
            max == args.len(),
            i <= cs.len(),
            indexed_interpolation(marker, flavor, s, args@) == prepend(
                buf@,
                indexed_from(marker, flavor, s, args@, i as nat, st),
            ),
        decreases cs.len() - i,
    {
        let c = cs[i];
        let ghost before = buf@;
        if st == ScanState::Normal && c == marker {
            proof {
                lemma_digit_end(s, i + 1);
            }
            let mut k: usize = i + 1;
            let mut acc: u128 = 0;
            while k < cs.len() && cs[k] >= '0' && cs[k] <= '9'
                invariant
                    cs@ == s,
                    i < cs.len(),
                    i + 1 <= k <= digit_end(s, i + 1),
                    digit_end(s, k as int) == digit_end(s, i + 1),
                    digit_end(s, i + 1) <= s.len(),
                    acc <= max as u128 * 10 + 9,
                    acc <= max ==> acc == digits_value(s.subrange(i + 1, k as int)),
                    acc > max ==> digits_value(s.subrange(i + 1, k as int)) > max,
                decreases cs.len() - k,
            {
                let d = cs[k];
                proof {
                    lemma_digit_end(s, k + 1);
                }
                assert(s.subrange(i + 1, k + 1).drop_last() =~= s.subrange(i + 1, k as int));
                if acc <= max as u128 {
                    acc = acc * 10 + (d as u32 - '0' as u32) as u128;
                }
                k = k + 1;
            }
            if k == i + 1 {
                push_char(&mut buf, marker);
                proof {
                    let next = indexed_from(marker, flavor, s, args@, (i + 1) as nat, ScanState::Normal);
                    assert(indexed_from(marker, flavor, s, args@, i as nat, st) == prepend(seq![marker], next));
                    lemma_prepend_assoc(before, seq![marker], next);
                    assert(buf@ == before + seq![marker]);
                    assert(indexed_interpolation(marker, flavor, s, args@) == prepend(buf@, next));
                }
                i = i + 1;
            } else {
                if acc < 1 || acc > max as u128 {
                    return Err(Error::MissingArgs);
                }
                let idx: usize = (acc - 1) as usize;
                match encode_value(&mut buf, &args[idx], flavor) {
                    Err(e) => {
                        return Err(e);
                    },
                    Ok(()) => {},
                }
                proof {
                    let t = encode(flavor, args@[idx as int]@)->Ok_0;
                    let next = indexed_from(marker, flavor, s, args@, k as nat, ScanState::Normal);
                    assert(indexed_from(marker, flavor, s, args@, i as nat, st) == prepend(t, next));
                    lemma_prepend_assoc(before, t, next);
                    assert(buf@ == before + t);
                    assert(indexed_interpolation(marker, flavor, s, args@) == prepend(buf@, next));
                }
                i = k;
            }
            st = ScanState::Normal;
        } else {
            push_char(&mut buf, c);
            proof {
                let next = indexed_from(marker, flavor, s, args@, (i + 1) as nat, next_state(st, c, false));
                assert(indexed_from(marker, flavor, s, args@, i as nat, st) == prepend(seq![c], next));
                lemma_prepend_assoc(before, seq![c], next);
                assert(buf@ == before + seq![c]);
                assert(indexed_interpolation(marker, flavor, s, args@) == prepend(buf@, next));
            }
            st = step(st, c, false);
            i = i + 1;
        }
    }
    assert(buf@ + Seq::<char>::empty() =~= buf@);
    Ok(buf)
}

/// Interpolates a MySQL template, whose placeholders are `?`.
pub fn mysql_interpolate(query: &str, args: &[Arg]) -> (r: Result<String, Error>)
    ensures
        yields(r, interpolation(Flavor::MySQL, query@, args@)),
{
    mysql_like_interpolate(Flavor::MySQL, query, args)
}

/// Interpolates a SQLite template, whose placeholders are `?`.
pub fn sqlite_interpolate(query: &str, args: &[Arg]) -> (r: Result<String, Error>)
    ensures
        yields(r, interpolation(Flavor::SQLite, query@, args@)),
{
    mysql_like_interpolate(Flavor::SQLite, query, args)
}

/// Interpolates a CQL template, whose placeholders are `?`.
pub fn cql_interpolate(query: &str, args: &[Arg]) -> (r: Result<String, Error>)
    ensures
        yields(r, interpolation(Flavor::CQL, query@, args@)),
{
    mysql_like_interpolate(Flavor::CQL, query, args)
}

/// Interpolates a ClickHouse template, whose placeholders are `?`.
pub fn clickhouse_interpolate(query: &str, args: &[Arg]) -> (r: Result<String, Error>)
    ensures
        yields(r, interpolation(Flavor::ClickHouse, query@, args@)),
{
    mysql_like_interpolate(Flavor::ClickHouse, query, args)
}

/// Interpolates a Presto template, whose placeholders are `?`.
pub fn presto_interpolate(query: &str, args: &[Arg]) -> (r: Result<String, Error>)
    ensures
        yields(r, interpolation(Flavor::Presto, query@, args@)),
{
    mysql_like_interpolate(Flavor::Presto, query, args)
}

/// Interpolates a Informix template, whose placeholders are `?`.
pub fn informix_interpolate(query: &str, args: &[Arg]) -> (r: Result<String, Error>)
    ensures
        yields(r, interpolation(Flavor::Informix, query@, args@)),
{
    mysql_like_interpolate(Flavor::Informix, query, args)
}

/// Interpolates a PostgreSQL template, whose placeholders are `$N` with `N` counted from 1.
pub fn postgresql_interpolate(query: &str, args: &[Arg]) -> (r: Result<String, Error>)
    ensures
        yields(r, interpolation(Flavor::PostgreSQL, query@, args@)),
{
    indexed_interpolate('$', Flavor::PostgreSQL, query, args)
}

/// Interpolates a SQL Server template, whose placeholders are `@N` with `N` counted from 1.
pub fn sqlserver_interpolate(query: &str, args: &[Arg]) -> (r: Result<String, Error>)
    ensures
        yields(r, interpolation(Flavor::SQLServer, query@, args@)),
{
    indexed_interpolate('@', Flavor::SQLServer, query, args)
}

/// Interpolates a Oracle template, whose placeholders are `:N` with `N` counted from 1.
pub fn oracle_interpolate(query: &str, args: &[Arg]) -> (r: Result<String, Error>)
    ensures
        yields(r, interpolation(Flavor::Oracle, query@, args@)),
{
    indexed_interpolate(':', Flavor::Oracle, query, args)
}


/// Every argument has a literal form in the dialect.
pub open spec fn all_encodable(f: Flavor, args: Seq<Arg>) -> bool {
    forall|k: int| 0 <= k < args.len() ==> (#[trigger] encode(f, args[k]@)) is Ok
}

/// The number of `?` placeholders that a scan of `s` from position `i` in state `st` meets.
pub open spec fn sequential_marks_from(s: Seq<char>, i: nat, st: ScanState) -> nat
    decreases s.len() - i,
{
    if i >= s.len() {
        0
    } else if st == ScanState::Normal && s[i as int] == '?' {
        1 + sequential_marks_from(s, i + 1, ScanState::Normal)
    } else {
        sequential_marks_from(s, i + 1, next_state(st, s[i as int], true))
    }
}

/// The number of `?` placeholders of `s` that stand outside quoted text.
pub open spec fn sequential_marks(s: Seq<char>) -> nat {
    sequential_marks_from(s, 0, ScanState::Normal)
}

proof fn lemma_sequential_from_outcome(
    f: Flavor,
    s: Seq<char>,
    args: Seq<Arg>,
    i: nat,
    cnt: nat,
    st: ScanState,
)
    requires
        all_encodable(f, args),
        cnt <= args.len(),
    ensures
        sequential_from(f, s, args, i, cnt, st) is Ok <==> cnt + sequential_marks_from(s, i, st)
            <= args.len(),
        cnt + sequential_marks_from(s, i, st) > args.len() ==> sequential_from(f, s, args, i, cnt, st)
            == Err::<Seq<char>, Error>(Error::MissingArgs),
    decreases s.len() - i,
{
    if i < s.len() {
        if st == ScanState::Normal && s[i as int] == '?' {
            if cnt < args.len() {
                assert(encode(f, args[cnt as int]@) is Ok);
                lemma_sequential_from_outcome(f, s, args, i + 1, cnt + 1, ScanState::Normal);
            }
        } else {
            lemma_sequential_from_outcome(f, s, args, i + 1, cnt, next_state(st, s[i as int], true));
        }
    }
}

/// With arguments that all have a literal form, sequential interpolation succeeds exactly when
/// there are at least as many arguments as `?` placeholders outside quoted text, each placeholder
/// taking the next argument once; with fewer arguments it fails with `MissingArgs`.
pub proof fn lemma_sequential_placeholders(f: Flavor, s: Seq<char>, args: Seq<Arg>)
    requires
        all_encodable(f, args),
    ensures
        sequential_interpolation(f, s, args) is Ok <==> sequential_marks(s) <= args.len(),
        sequential_marks(s) > args.len() ==> sequential_interpolation(f, s, args) == Err::<
            Seq<char>,
            Error,
        >(Error::MissingArgs),
{
    lemma_sequential_from_outcome(f, s, args, 0, 0, ScanState::Normal);
}

proof fn lemma_sequential_from_prefix(
    f: Flavor,
    s: Seq<char>,
    args: Seq<Arg>,
    m: nat,
    i: nat,
    cnt: nat,
    st: ScanState,
)
    requires
        cnt + sequential_marks_from(s, i, st) <= m <= args.len(),
    ensures
        sequential_from(f, s, args, i, cnt, st) == sequential_from(f, s, args.take(m as int), i, cnt, st),
    decreases s.len() - i,
{
    if i < s.len() {
        if st == ScanState::Normal && s[i as int] == '?' {
            assert(args.take(m as int)[cnt as int] == args[cnt as int]);
            lemma_sequential_from_prefix(f, s, args, m, i + 1, cnt + 1, ScanState::Normal);
        } else {
            lemma_sequential_from_prefix(f, s, args, m, i + 1, cnt, next_state(st, s[i as int], true));
        }
    }
}

/// Sequential interpolation reads only as many arguments as there are `?` placeholders outside
/// quoted text, the first of them in order: arguments beyond those change nothing.
pub proof fn lemma_sequential_reads_marked_prefix(f: Flavor, s: Seq<char>, args: Seq<Arg>)
    requires
        sequential_marks(s) <= args.len(),
    ensures
        sequential_interpolation(f, s, args) == sequential_interpolation(
            f,
            s,
            args.take(sequential_marks(s) as int),
        ),
{
    lemma_sequential_from_prefix(f, s, args, sequential_marks(s), 0, 0, ScanState::Normal);
}

/// Whether every indexed placeholder that a scan of `s` from `i` in state `st` meets names one of
/// `len` arguments.
pub open spec fn indices_in_range_from(marker: char, s: Seq<char>, len: nat, i: nat, st: ScanState) -> bool
    decreases s.len() - i,
{
    if i >= s.len() {
        true
    } else if st == ScanState::Normal && s[i as int] == marker {
        let j = digit_end(s, i + 1 as int);
        if j <= i + 1 {
            indices_in_range_from(marker, s, len, i + 1, ScanState::Normal)
        } else {
            let n = digits_value(s.subrange(i + 1 as int, j));
            proof {
                lemma_digit_end(s, i + 1 as int);
            }
            1 <= n <= len && indices_in_range_from(marker, s, len, j as nat, ScanState::Normal)
        }
    } else {
        indices_in_range_from(marker, s, len, i + 1, next_state(st, s[i as int], false))
    }
}

/// Whether every indexed placeholder of `s` outside quoted text names one of `len` arguments.
pub open spec fn indices_in_range(marker: char, s: Seq<char>, len: nat) -> bool {
    indices_in_range_from(marker, s, len, 0, ScanState::Normal)
}

proof fn lemma_indexed_from_outcome(
    marker: char,
    f: Flavor,
    s: Seq<char>,
    args: Seq<Arg>,
    i: nat,
    st: ScanState,
)
    requires
        all_encodable(f, args),
    ensures
        indexed_from(marker, f, s, args, i, st) is Ok <==> indices_in_range_from(
            marker,
            s,
            args.len(),
            i,
            st,
        ),
        !indices_in_range_from(marker, s, args.len(), i, st) ==> indexed_from(marker, f, s, args, i, st)
            == Err::<Seq<char>, Error>(Error::MissingArgs),
    decreases s.len() - i,
{
    if i < s.len() {
        if st == ScanState::Normal && s[i as int] == marker {
            let j = digit_end(s, i + 1 as int);
            lemma_digit_end(s, i + 1 as int);
            if j <= i + 1 {
                lemma_indexed_from_outcome(marker, f, s, args, i + 1, ScanState::Normal);
            } else {
                let n = digits_value(s.subrange(i + 1 as int, j));
                if 1 <= n <= args.len() {
                    assert(encode(f, args[n - 1]@) is Ok);
                    lemma_indexed_from_outcome(marker, f, s, args, j as nat, ScanState::Normal);
                }
            }
        } else {
            lemma_indexed_from_outcome(marker, f, s, args, i + 1, next_state(st, s[i as int], false));
        }
    }
}

/// With arguments that all have a literal form, indexed interpolation succeeds exactly when every
/// index outside quoted text lies between 1 and the number of arguments, however often an index
/// recurs; an index out of that range makes it fail with `MissingArgs`.
pub proof fn lemma_indexed_placeholders(marker: char, f: Flavor, s: Seq<char>, args: Seq<Arg>)
    requires
        all_encodable(f, args),
    ensures
        indexed_interpolation(marker, f, s, args) is Ok <==> indices_in_range(marker, s, args.len()),
        !indices_in_range(marker, s, args.len()) ==> indexed_interpolation(marker, f, s, args)
            == Err::<Seq<char>, Error>(Error::MissingArgs),
{
    lemma_indexed_from_outcome(marker, f, s, args, 0, ScanState::Normal);
}

/// Inside a quoted region, a backslash followed by the closing quote leaves the region open.
pub proof fn lemma_escaped_quote_stays_open(q: char, backtick: bool)
    requires
        is_quote(q, backtick),
    ensures
        next_state(next_state(ScanState::Quoted(q), '\\', backtick), q, backtick)
            == ScanState::Quoted(q),
{
}

} // verus!
