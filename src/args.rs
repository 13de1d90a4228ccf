use vstd::prelude::*;

use crate::flavor::Flavor;
use crate::text::{
    chars_of, digit_end, digits_value, join, lemma_digit_end, lemma_join_push, lemma_nat_text_injective,
    nat_text, push_char, push_nat, push_str,
};

verus! {

/// The smallest index that the registry numbers its placeholders from; it keeps them apart from
/// the numbered markers that callers write themselves.
pub const MIN_INDEX_BASE: usize = 256;

/// A deferred value: a scalar, or a sub-expression that was built earlier.
#[derive(Debug, Clone)]
pub enum Arg {
    /// SQL `NULL`.
    Null,
    /// A boolean.
    Bool(bool),
    /// A signed integer.
    Int(i64),
    /// A text value, written as a quoted string literal.
    Str(String),
    /// A binary value, which has no safe literal form.
    Bytes(Vec<u8>),
    /// SQL text built earlier, written as it stands.
    Raw(String),
}

/// What a deferred value holds.
pub enum ArgView {
    Null,
    Bool(bool),
    Int(i64),
    Str(Seq<char>),
    Bytes(Seq<u8>),
    Raw(Seq<char>),
}

impl View for Arg {
    type V = ArgView;

    open spec fn view(&self) -> ArgView {
        match self {
            Arg::Null => ArgView::Null,
            Arg::Bool(b) => ArgView::Bool(*b),
            Arg::Int(n) => ArgView::Int(*n),
            Arg::Str(s) => ArgView::Str(s@),
            Arg::Bytes(b) => ArgView::Bytes(b@),
            Arg::Raw(s) => ArgView::Raw(s@),
        }
    }
}

/// What each of a sequence of values holds.
pub open spec fn arg_views(s: Seq<Arg>) -> Seq<ArgView> {
    s.map_values(|a: Arg| a@)
}

impl Arg {
    /// A value that holds what `self` holds.
    pub fn duplicate(&self) -> (r: Arg)
        ensures
            r@ == self@,
    {
        match self {
            Arg::Null => Arg::Null,
            Arg::Bool(b) => Arg::Bool(*b),
            Arg::Int(n) => Arg::Int(*n),
            Arg::Str(s) => Arg::Str(s.clone()),
            Arg::Bytes(b) => {
                let c = b.clone();
                assert(c@ =~= b@);
                Arg::Bytes(c)
            },
            Arg::Raw(s) => Arg::Raw(s.clone()),
        }
    }
}

/// The placeholder token of the value in slot `k`.
pub open spec fn placeholder(k: nat) -> Seq<char> {
    seq!['$'] + nat_text(k)
}

/// The placeholder tokens of `count` slots from `start` on.
pub open spec fn placeholder_list(start: nat, count: nat) -> Seq<Seq<char>> {
    Seq::new(count, |k: int| placeholder((start + k) as nat))
}

/// Placeholders of distinct slots differ.
pub proof fn lemma_placeholders_distinct(a: nat, b: nat)
    requires
        a != b,
    ensures
        placeholder(a) != placeholder(b),
{
    if placeholder(a) == placeholder(b) {
        assert(nat_text(a) =~= placeholder(a).drop_first());
        assert(nat_text(b) =~= placeholder(b).drop_first());
        lemma_nat_text_injective(a, b);
    }
}

/// The marker that stands for the `n`-th argument, counted from 1, of a prepared statement.
pub open spec fn native_marker(f: Flavor, n: nat) -> Seq<char> {
    match f {
        Flavor::PostgreSQL => seq!['$'] + nat_text(n),
        Flavor::SQLServer => seq!['@'] + nat_text(n),
        Flavor::Oracle => seq![':'] + nat_text(n),
        _ => seq!['?'],
    }
}

/// The text of `s` from position `i` on with each placeholder of slots `base .. base + count`
/// replaced by a native marker, the markers numbered on from `emitted`; and the slots in the
/// order their placeholders appear. Other text, `$` and digits included, is kept as it stands.
pub open spec fn compiled_from(
    f: Flavor,
    s: Seq<char>,
    base: nat,
    count: nat,
    i: nat,
    emitted: nat,
) -> (Seq<char>, Seq<nat>)
    decreases s.len() - i,
{
    if i >= s.len() {
        (Seq::empty(), Seq::empty())
    } else if s[i as int] == '$' {
        let j = digit_end(s, i + 1 as int);
        if j <= i + 1 {
            let r = compiled_from(f, s, base, count, i + 1, emitted);
            (seq!['$'] + r.0, r.1)
        } else {
            let k = digits_value(s.subrange(i + 1 as int, j));
            proof {
                lemma_digit_end(s, i + 1 as int);
            }
            if base <= k < base + count {
                let r = compiled_from(f, s, base, count, j as nat, emitted + 1);
                (native_marker(f, emitted + 1) + r.0, seq![(k - base) as nat] + r.1)
            } else {
                let r = compiled_from(f, s, base, count, j as nat, emitted);
                (s.subrange(i as int, j) + r.0, r.1)
            }
        }
    } else {
        let r = compiled_from(f, s, base, count, i + 1, emitted);
        (seq![s[i as int]] + r.0, r.1)
    }
}

/// The registry of deferred values of one statement, in the order they were registered.
pub struct Args {
    index_base: usize,
    values: Vec<Arg>,
    flavor: Flavor,
}

impl Args {
    /// The number that the first slot's placeholder carries.
    pub closed spec fn base(&self) -> nat {
        self.index_base as nat
    }

    /// The values registered so far, in order.
    pub closed spec fn registered(&self) -> Seq<Arg> {
        self.values@
    }

    /// The dialect the statement is built for.
    pub closed spec fn spec_flavor(&self) -> Flavor {
        self.flavor
    }

    /// The placeholder that the next registered value gets.
    pub open spec fn next_placeholder(&self) -> Seq<char> {
        placeholder(self.base() + self.registered().len())
    }

    /// An empty registry for MySQL.
    pub fn new() -> (r: Self)
        ensures
            r.base() == MIN_INDEX_BASE,
            r.registered() == Seq::<Arg>::empty(),
            r.spec_flavor() == Flavor::MySQL,
    {
        Args { index_base: MIN_INDEX_BASE, values: Vec::new(), flavor: Flavor::MySQL }
    }

    /// Registers `arg` in a new slot and returns that slot's placeholder.
    pub fn add(&mut self, arg: Arg) -> (r: String)
        ensures
            r@ == old(self).next_placeholder(),
            final(self).registered() == old(self).registered().push(arg),
            final(self).base() == old(self).base(),
            final(self).spec_flavor() == old(self).spec_flavor(),
    {
        let k: u128 = self.index_base as u128 + self.values.len() as u128;
        let mut r = String::new();
        push_char(&mut r, '$');
        push_nat(&mut r, k);
        assert(r@ =~= placeholder(k as nat));
        self.values.push(arg);
        r
    }

    /// The registered values, in registration order, for a prepared statement.
    pub fn finalize(&self) -> (r: &[Arg])
        ensures
            r@ == self.registered(),
    {
        self.values.as_slice()
    }

    /// The statement text `sql` for a prepared statement in dialect `flavor`, and its arguments:
    /// `initial_arg`, then the registered value of each placeholder, in the order the
    /// placeholders appear. Placeholders become native markers numbered after `initial_arg`.
    pub fn compile_with_flavor(&self, sql: &str, flavor: Flavor, initial_arg: Vec<Arg>) -> (r: (
        String,
        Vec<Arg>,
    ))
        ensures
            r.0@ == compiled_from(flavor, sql@, self.base(), self.registered().len(), 0, initial_arg@.len()).0,
            arg_views(r.1@) == arg_views(initial_arg@) + compiled_from(
                flavor,
                sql@,
                self.base(),
                self.registered().len(),
                0,
                initial_arg@.len(),
            ).1.map_values(|k: nat| self.registered()[k as int]@),
    {
        let cs = chars_of(sql);
        let ghost s = sql@;
        let ghost base = self.base();
        let ghost count = self.registered().len();
        let ghost e0 = initial_arg@.len();
        let ghost vals = self.registered();
        let ghost full = compiled_from(flavor, s, base, count, 0, e0);
        let ghost mut slots: Seq<nat> = Seq::empty();
        let n_values: usize = self.values.len();
        let lo: u128 = self.index_base as u128;
        let hi: u128 = self.index_base as u128 + n_values as u128;
        let mut out = initial_arg;
        let mut buf = String::new();
        let mut emitted: u128 = out.len() as u128;
        let mut i: usize = 0;
        assert(arg_views(out@) + slots.map_values(|k: nat| vals[k as int]@) =~= arg_views(out@));
        while i < cs.len()
            invariant
                cs@ == s,
                s == sql@,
                i <= cs.len(),
                base == self.base(),
                count == self.registered().len(),
                vals == self.registered(),
                lo == base,
                hi == base + count,
                count == n_values,
                e0 <= usize::MAX,
                lo <= usize::MAX,
                vals.len() == self.values@.len(),
                forall|k: int| 0 <= k < vals.len() ==> #[trigger] vals[k] == self.values@[k],
                emitted == e0 + slots.len(),
                emitted <= e0 + i,
                full == compiled_from(flavor, s, base, count, 0, e0),
                full.0 == buf@ + compiled_from(flavor, s, base, count, i as nat, emitted as nat).0,
                full.1 == slots + compiled_from(flavor, s, base, count, i as nat, emitted as nat).1,
                forall|k: int| 0 <= k < slots.len() ==> #[trigger] slots[k] < count,
                arg_views(out@) == arg_views(initial_arg@) + slots.map_values(|k: nat| vals[k as int]@),
            decreases cs.len() - i,
        {
            let c = cs[i];
            let ghost before = buf@;
            let ghost cur = compiled_from(flavor, s, base, count, i as nat, emitted as nat);
            if c == '$' {
                proof {
                    lemma_digit_end(s, i + 1);
                }
                let mut k: usize = i + 1;
                let mut acc: u128 = 0;
                let mut digits = String::new();
                while k < cs.len() && cs[k] >= '0' && cs[k] <= '9'
                    invariant
                        cs@ == s,
                        i < cs.len(),
                        i + 1 <= k <= digit_end(s, i + 1),
                        digit_end(s, k as int) == digit_end(s, i + 1),
                        digit_end(s, i + 1) <= s.len(),
                        digits@ == s.subrange(i + 1, k as int),
                        hi <= 2 * (usize::MAX as int),
                        acc <= hi * 10 + 9,
                        acc <= hi ==> acc == digits_value(s.subrange(i + 1, k as int)),
                        acc > hi ==> digits_value(s.subrange(i + 1, k as int)) > hi,
                    decreases cs.len() - k,
                {
                    let d = cs[k];
                    proof {
                        lemma_digit_end(s, k + 1);
                    }
                    assert(s.subrange(i + 1, k + 1).drop_last() =~= s.subrange(i + 1, k as int));
                    if acc <= hi {
                        acc = acc * 10 + (d as u32 - '0' as u32) as u128;
                    }
                    push_char(&mut digits, d);
                    assert(digits@ =~= s.subrange(i + 1, k + 1));
                    k = k + 1;
                }
                let ghost next_i: nat = if k == i + 1 { (i + 1) as nat } else { k as nat };
                if k > i + 1 && lo <= acc && acc < hi {
                    assert(digit_end(s, i + 1) == k);
                    assert(digits_value(s.subrange(i + 1, k as int)) == acc);
                    emitted = emitted + 1;
                    let slot: usize = (acc - lo) as usize;
                    assert(slot == acc - lo);
                    match flavor {
                        Flavor::PostgreSQL => {
                            push_char(&mut buf, '$');
                            push_nat(&mut buf, emitted);
                        },
                        Flavor::SQLServer => {
                            push_char(&mut buf, '@');
                            push_nat(&mut buf, emitted);
                        },
                        Flavor::Oracle => {
                            push_char(&mut buf, ':');
                            push_nat(&mut buf, emitted);
                        },
                        _ => {
                            push_char(&mut buf, '?');
                        },
                    }
                    let v = self.values[slot].duplicate();
                    let ghost prev_out = arg_views(out@);
                    out.push(v);
                    proof {
                        let m = native_marker(flavor, emitted as nat);
                        assert(buf@ =~= before + m);
                        assert(cur.0 == m + compiled_from(flavor, s, base, count, k as nat, emitted as nat).0);
                        assert(full.0 =~= buf@ + compiled_from(flavor, s, base, count, k as nat, emitted as nat).0);
                        assert(cur.1 == seq![slot as nat] + compiled_from(flavor, s, base, count, k as nat, emitted as nat).1);
                        slots = slots.push(slot as nat);
                        assert(full.1 =~= slots + compiled_from(flavor, s, base, count, k as nat, emitted as nat).1);
                        assert(arg_views(out@) =~= prev_out.push(vals[slot as int]@));
                        assert(arg_views(out@) =~= arg_views(initial_arg@) + slots.map_values(|k: nat| vals[k as int]@));
                    }
                } else {
                    push_char(&mut buf, '$');
                    push_str(&mut buf, digits.as_str());
                    proof {
                        assert(s.subrange(i as int, k as int) =~= seq!['$'] + s.subrange(i + 1, k as int));
                        assert(buf@ =~= before + s.subrange(i as int, k as int));
                        assert(full.0 =~= buf@ + compiled_from(flavor, s, base, count, k as nat, emitted as nat).0);
                    }
                }
                i = k;
            } else {
                push_char(&mut buf, c);
                assert(full.0 =~= buf@ + compiled_from(flavor, s, base, count, (i + 1) as nat, emitted as nat).0);
                i = i + 1;
            }
        }
        assert(full.0 =~= buf@);
        assert(full.1 =~= slots);
        (buf, out)
    }

    /// The dialect the statement is built for.
    pub fn flavor(&self) -> (r: Flavor)
        ensures
            r == self.spec_flavor(),
    {
        self.flavor
    }

    /// Sets the dialect and returns the one set before.
    pub fn set_flavor(&mut self, flavor: Flavor) -> (r: Flavor)
        ensures
            r == old(self).spec_flavor(),
            final(self).spec_flavor() == flavor,
            final(self).registered() == old(self).registered(),
            final(self).base() == old(self).base(),
    {
        let before = self.flavor;
        self.flavor = flavor;
        before
    }
}

/// Text under construction whose values go to a registry as they are written.
pub struct ArgsCompileContext {
    buf: String,
}

impl View for ArgsCompileContext {
    type V = Seq<char>;

    closed spec fn view(&self) -> Seq<char> {
        self.buf@
    }
}

impl ArgsCompileContext {
    /// An empty text.
    pub fn new() -> (r: Self)
        ensures
            r@ == Seq::<char>::empty(),
    {
        ArgsCompileContext { buf: String::new() }
    }

    /// Appends `s` as it stands.
    pub fn write_string(&mut self, s: &str)
        ensures
            final(self)@ == old(self)@ + s@,
    {
        push_str(&mut self.buf, s);
    }

    /// Registers `value` with `args` and appends its placeholder.
    pub fn write_value(&mut self, args: &mut Args, value: Arg)
        ensures
            final(self)@ == old(self)@ + old(args).next_placeholder(),
            final(args).registered() == old(args).registered().push(value),
            final(args).base() == old(args).base(),
            final(args).spec_flavor() == old(args).spec_flavor(),
    {
        let p = args.add(value);
        push_str(&mut self.buf, p.as_str());
    }

    /// Registers each of `values` with `args`, in order, and appends their placeholders with
    /// `sep` between each two.
    pub fn write_values(&mut self, args: &mut Args, values: Vec<Arg>, sep: &str)
        ensures
            final(self)@ == old(self)@ + join(
                placeholder_list(old(args).base() + old(args).registered().len(), values@.len()),
                sep@,
            ),
            final(args).registered() == old(args).registered() + values@,
            final(args).base() == old(args).base(),
            final(args).spec_flavor() == old(args).spec_flavor(),
    {
        let ghost start = old(args).base() + old(args).registered().len();
        let ghost all = values@;
        let mut first = true;
        for v in it: values
            invariant
                it.seq() == all,
                start == old(args).base() + old(args).registered().len(),
                first == (it.index() == 0),
                args.base() == old(args).base(),
                args.spec_flavor() == old(args).spec_flavor(),
                args.registered() == old(args).registered() + all.take(it.index() as int),
                self@ == old(self)@ + join(placeholder_list(start, it.index() as nat), sep@),
        {
            let ghost i = it.index();
            let ghost prev = self@;
            assert(all.take(i + 1) =~= all.take(i as int).push(v));
            assert(args.registered().len() == old(args).registered().len() + i);
            assert(args.next_placeholder() == placeholder((start + i) as nat));
            let p = args.add(v);
            if !first {
                push_str(&mut self.buf, sep);
            }
            push_str(&mut self.buf, p.as_str());
            first = false;
            proof {
                lemma_join_push(placeholder_list(start, i as nat), p@, sep@);
                assert(placeholder_list(start, i as nat).push(p@) =~= placeholder_list(start, (i + 1) as nat));
            }
            assert(self@ =~= old(self)@ + join(placeholder_list(start, (i + 1) as nat), sep@));
        }
        assert(all.take(all.len() as int) =~= all);
    }

    /// The text written so far.
    pub fn into_string(self) -> (r: String)
        ensures
            r@ == self@,
    {
        self.buf
    }
}

} // verus!
