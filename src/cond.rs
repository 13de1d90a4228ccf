use vstd::prelude::*;

use crate::args::{lemma_placeholders_distinct, placeholder, placeholder_list, Arg, Args, ArgsCompileContext};
use crate::stringbuilder::StringBuilder;
use crate::text::{join, lemma_join_non_empty_len, non_empty, push_char, push_str, views};

verus! {

/// `after` is `before` with `values` registered in turn.
pub open spec fn registers(before: Args, after: Args, values: Seq<Arg>) -> bool {
    &&& after.registered() == before.registered() + values
    &&& after.base() == before.base()
    &&& after.spec_flavor() == before.spec_flavor()
}

/// The placeholders of `count` values registered in turn with `args`, separated by commas.
pub open spec fn placeholders_text(args: Args, count: nat) -> Seq<char> {
    join(placeholder_list(args.base() + args.registered().len(), count), ", "@)
}

/// Members of `ss` that are not empty, joined by `op` and put in parentheses; nothing when
/// every member is empty.
pub open spec fn combined(ss: Seq<Seq<char>>, op: Seq<char>) -> Seq<char> {
    if non_empty(ss).len() == 0 {
        Seq::empty()
    } else {
        seq!['('] + join(non_empty(ss), op) + seq![')']
    }
}

/// A non-empty field compared with a new value: the text begins with the field and ends with a
/// placeholder that differs from the placeholder of every value registered before.
pub proof fn lemma_equal_placeholder_fresh(before: Args, field: Seq<char>)
    requires
        field.len() > 0,
    ensures
        (field + " = "@ + before.next_placeholder()).subrange(0, field.len() as int) == field,
        (field + " = "@ + before.next_placeholder()).subrange(
            field.len() + 3 as int,
            field.len() + 3 + before.next_placeholder().len() as int,
        ) == before.next_placeholder(),
        forall|k: nat|
            k < before.registered().len() ==> before.next_placeholder() != #[trigger] placeholder(
                before.base() + k,
            ),
{
    reveal_strlit(" = ");
    let t = field + " = "@ + before.next_placeholder();
    assert(t.subrange(0, field.len() as int) =~= field);
    assert(t.subrange(field.len() + 3 as int, field.len() + 3 + before.next_placeholder().len() as int)
        =~= before.next_placeholder());
    assert forall|k: nat| k < before.registered().len() implies before.next_placeholder()
        != #[trigger] placeholder(before.base() + k) by {
        lemma_placeholders_distinct(before.base() + before.registered().len(), before.base() + k);
    }
}

/// Builds predicate text; every value it is given goes to its registry, and the text holds the
/// value's placeholder in its place.
pub struct Cond {
    args: Args,
}

impl Cond {
    /// The registry that the values go to.
    pub closed spec fn registry(&self) -> Args {
        self.args
    }

    /// A builder with an empty registry.
    pub fn new() -> (r: Self)
        ensures
            r.registry().registered() == Seq::<Arg>::empty(),
            r.registry().base() == crate::args::MIN_INDEX_BASE,
    {
        Cond { args: Args::new() }
    }

    /// The registry, for building the statement around the predicates.
    pub fn args(&self) -> (r: &Args)
        ensures
            *r == self.registry(),
    {
        &self.args
    }

    /// Registers `value` and returns its placeholder.
    fn var(&mut self, value: Arg) -> (r: String)
        ensures
            r@ == old(self).registry().next_placeholder(),
            registers(old(self).registry(), final(self).registry(), seq![value]),
    {
        let r = self.args.add(value);
        assert(seq![value] =~= Seq::<Arg>::empty().push(value));
        assert(old(self).registry().registered().push(value) =~= old(self).registry().registered() + seq![value]);
        r
    }

    /// `field`, `op` and the placeholder of `value`; nothing when `field` is empty.
    fn compare(&mut self, field: &str, op: &str, value: Arg) -> (r: String)
        ensures
            field@.len() == 0 ==> r@.len() == 0 && final(self).registry() == old(self).registry(),
            field@.len() > 0 ==> r@ == field@ + op@ + old(self).registry().next_placeholder()
                && registers(old(self).registry(), final(self).registry(), seq![value]),
    {
        if field.is_empty() {
            return String::new();
        }
        let mut ctx = ArgsCompileContext::new();
        ctx.write_string(field);
        ctx.write_string(op);
        ctx.write_value(&mut self.args, value);
        assert(old(self).registry().registered().push(value) =~= old(self).registry().registered() + seq![value]);
        let r = ctx.into_string();
        assert(r@ =~= field@ + op@ + old(self).registry().next_placeholder());
        r
    }

    /// `field`, `op`, the placeholders of `values` separated by commas, and `)`; nothing when
    /// `field` is empty.
    fn compare_list(&mut self, field: &str, op: &str, values: Vec<Arg>) -> (r: String)
        ensures
            field@.len() == 0 ==> r@.len() == 0 && final(self).registry() == old(self).registry(),
            field@.len() > 0 ==> r@ == field@ + op@ + placeholders_text(old(self).registry(), values@.len())
                + seq![')'] && registers(old(self).registry(), final(self).registry(), values@),
    {
        if field.is_empty() {
            return String::new();
        }
        let mut ctx = ArgsCompileContext::new();
        ctx.write_string(field);
        ctx.write_string(op);
        ctx.write_values(&mut self.args, values, ", ");
        let mut r = ctx.into_string();
        push_char(&mut r, ')');
        assert(r@ =~= field@ + op@ + placeholders_text(old(self).registry(), values@.len()) + seq![')']);
        r
    }

    /// `field`, a space, `op`, `quantifier`, the placeholders of `values` separated by commas,
    /// and `)`; nothing when `field` or `op` is empty.
    fn quantified(&mut self, field: &str, op: &str, quantifier: &str, values: Vec<Arg>) -> (r: String)
        ensures
            field@.len() == 0 || op@.len() == 0 ==> r@.len() == 0 && final(self).registry()
                == old(self).registry(),
            field@.len() > 0 && op@.len() > 0 ==> r@ == field@ + seq![' '] + op@ + quantifier@
                + placeholders_text(old(self).registry(), values@.len()) + seq![')'] && registers(
                old(self).registry(),
                final(self).registry(),
                values@,
            ),
    {
        if field.is_empty() || op.is_empty() {
            return String::new();
        }
        let mut ctx = ArgsCompileContext::new();
        ctx.write_string(field);
        ctx.write_string(" ");
        ctx.write_string(op);
        ctx.write_string(quantifier);
        ctx.write_values(&mut self.args, values, ", ");
        let mut r = ctx.into_string();
        push_char(&mut r, ')');
        proof {
            reveal_strlit(" ");
        }
        assert(r@ =~= field@ + seq![' '] + op@ + quantifier@ + placeholders_text(old(self).registry(), values@.len()) + seq![')']);
        r
    }

    /// `LOWER(field`, `op`, the placeholder of `value` and `)`; nothing when `field` is empty.
    fn lowered(&mut self, field: &str, op: &str, value: Arg) -> (r: String)
        ensures
            field@.len() == 0 ==> r@.len() == 0 && final(self).registry() == old(self).registry(),
            field@.len() > 0 ==> r@ == "LOWER("@ + field@ + op@ + old(self).registry().next_placeholder()
                + seq![')'] && registers(old(self).registry(), final(self).registry(), seq![value]),
    {
        if field.is_empty() {
            return String::new();
        }
        let mut ctx = ArgsCompileContext::new();
        ctx.write_string("LOWER(");
        ctx.write_string(field);
        ctx.write_string(op);
        ctx.write_value(&mut self.args, value);
        assert(old(self).registry().registered().push(value) =~= old(self).registry().registered() + seq![value]);
        let mut r = ctx.into_string();
        push_char(&mut r, ')');
        assert(r@ =~= "LOWER("@ + field@ + op@ + old(self).registry().next_placeholder() + seq![')']);
        r
    }

    /// `field`, `op`, the placeholder of `lower`, ` AND ` and the placeholder of `upper`;
    /// nothing when `field` is empty.
    fn range(&mut self, field: &str, op: &str, lower: Arg, upper: Arg) -> (r: String)
        ensures
            field@.len() == 0 ==> r@.len() == 0 && final(self).registry() == old(self).registry(),
            field@.len() > 0 ==> r@ == field@ + op@ + old(self).registry().next_placeholder()
                + " AND "@ + crate::args::placeholder(
                old(self).registry().base() + old(self).registry().registered().len() + 1,
            ) && registers(old(self).registry(), final(self).registry(), seq![lower, upper]),
    {
        if field.is_empty() {
            return String::new();
        }
        let mut ctx = ArgsCompileContext::new();
        ctx.write_string(field);
        ctx.write_string(op);
        ctx.write_value(&mut self.args, lower);
        ctx.write_string(" AND ");
        ctx.write_value(&mut self.args, upper);
        assert(old(self).registry().registered().push(lower).push(upper) =~= old(self).registry().registered() + seq![lower, upper]);
        let r = ctx.into_string();
        assert(r@ =~= field@ + op@ + old(self).registry().next_placeholder() + " AND "@ + crate::args::placeholder(
                old(self).registry().base() + old(self).registry().registered().len() + 1));
        r
    }

    /// `prefix`, the placeholder of `value` and `)`.
    fn wrapped(&mut self, prefix: &str, value: Arg) -> (r: String)
        ensures
            r@ == prefix@ + old(self).registry().next_placeholder() + seq![')'],
            registers(old(self).registry(), final(self).registry(), seq![value]),
    {
        let mut ctx = ArgsCompileContext::new();
        ctx.write_string(prefix);
        ctx.write_value(&mut self.args, value);
        assert(old(self).registry().registered().push(value) =~= old(self).registry().registered() + seq![value]);
        let mut r = ctx.into_string();
        push_char(&mut r, ')');
        assert(r@ =~= prefix@ + old(self).registry().next_placeholder() + seq![')']);
        r
    }

    /// `field` and `suffix`; nothing when `field` is empty. No value is registered.
    fn postfix(&self, field: &str, suffix: &str) -> (r: String)
        ensures
            field@.len() == 0 ==> r@.len() == 0,
            field@.len() > 0 ==> r@ == field@ + suffix@,
    {
        if field.is_empty() {
            return String::new();
        }
        let mut r = String::new();
        push_str(&mut r, field);
        push_str(&mut r, suffix);
        assert(r@ =~= field@ + suffix@);
        r
    }

    /// The members of `exprs` that are not empty, joined by `op`, in parentheses.
    fn combine(&self, exprs: Vec<String>, op: &str) -> (r: String)
        ensures
            r@ == combined(views(exprs@), op@),
    {
        let mut sb = StringBuilder::new();
        sb.write_strings(exprs.as_slice(), op);
        proof {
            lemma_join_non_empty_len(views(exprs@), op@);
        }
        let joined = sb.to_string();
        if joined.is_empty() {
            return String::new();
        }
        let mut r = String::new();
        push_char(&mut r, '(');
        push_str(&mut r, joined);
        push_char(&mut r, ')');
        assert(r@ =~= combined(views(exprs@), op@));
        r
    }

    /// `field = value`. Registers `value`; nothing when `field` is empty.
    pub fn equal(&mut self, field: &str, value: Arg) -> (r: String)
        ensures
            field@.len() == 0 ==> r@.len() == 0 && final(self).registry() == old(self).registry(),
            field@.len() > 0 ==> r@ == field@ + " = "@ + old(self).registry().next_placeholder()
                && registers(old(self).registry(), final(self).registry(), seq![value]),
    {
        self.compare(field, " = ", value)
    }

    /// Same as [`Cond::equal`].
    pub fn e(&mut self, field: &str, value: Arg) -> (r: String)
        ensures
            field@.len() == 0 ==> r@.len() == 0 && final(self).registry() == old(self).registry(),
            field@.len() > 0 ==> r@ == field@ + " = "@ + old(self).registry().next_placeholder()
                && registers(old(self).registry(), final(self).registry(), seq![value]),
    {
        self.equal(field, value)
    }

    /// Same as [`Cond::equal`].
    pub fn eq(&mut self, field: &str, value: Arg) -> (r: String)
        ensures
            field@.len() == 0 ==> r@.len() == 0 && final(self).registry() == old(self).registry(),
            field@.len() > 0 ==> r@ == field@ + " = "@ + old(self).registry().next_placeholder()
                && registers(old(self).registry(), final(self).registry(), seq![value]),
    {
        self.equal(field, value)
    }

    /// `field <> value`. Registers `value`; nothing when `field` is empty.
    pub fn not_equal(&mut self, field: &str, value: Arg) -> (r: String)
        ensures
            field@.len() == 0 ==> r@.len() == 0 && final(self).registry() == old(self).registry(),
            field@.len() > 0 ==> r@ == field@ + " <> "@ + old(self).registry().next_placeholder()
                && registers(old(self).registry(), final(self).registry(), seq![value]),
    {
        self.compare(field, " <> ", value)
    }

    /// Same as [`Cond::not_equal`].
    pub fn ne(&mut self, field: &str, value: Arg) -> (r: String)
        ensures
            field@.len() == 0 ==> r@.len() == 0 && final(self).registry() == old(self).registry(),
            field@.len() > 0 ==> r@ == field@ + " <> "@ + old(self).registry().next_placeholder()
                && registers(old(self).registry(), final(self).registry(), seq![value]),
    {
        self.not_equal(field, value)
    }

    /// Same as [`Cond::not_equal`].
    pub fn neq(&mut self, field: &str, value: Arg) -> (r: String)
        ensures
            field@.len() == 0 ==> r@.len() == 0 && final(self).registry() == old(self).registry(),
            field@.len() > 0 ==> r@ == field@ + " <> "@ + old(self).registry().next_placeholder()
                && registers(old(self).registry(), final(self).registry(), seq![value]),
    {
        self.not_equal(field, value)
    }

    /// `field > value`. Registers `value`; nothing when `field` is empty.
    pub fn greater_than(&mut self, field: &str, value: Arg) -> (r: String)
        ensures
            field@.len() == 0 ==> r@.len() == 0 && final(self).registry() == old(self).registry(),
            field@.len() > 0 ==> r@ == field@ + " > "@ + old(self).registry().next_placeholder()
                && registers(old(self).registry(), final(self).registry(), seq![value]),
    {
        self.compare(field, " > ", value)
    }

    /// Same as [`Cond::greater_than`].
    pub fn g(&mut self, field: &str, value: Arg) -> (r: String)
        ensures
            field@.len() == 0 ==> r@.len() == 0 && final(self).registry() == old(self).registry(),
            field@.len() > 0 ==> r@ == field@ + " > "@ + old(self).registry().next_placeholder()
                && registers(old(self).registry(), final(self).registry(), seq![value]),
    {
        self.greater_than(field, value)
    }

    /// Same as [`Cond::greater_than`].
    pub fn gt(&mut self, field: &str, value: Arg) -> (r: String)
        ensures
            field@.len() == 0 ==> r@.len() == 0 && final(self).registry() == old(self).registry(),
            field@.len() > 0 ==> r@ == field@ + " > "@ + old(self).registry().next_placeholder()
                && registers(old(self).registry(), final(self).registry(), seq![value]),
    {
        self.greater_than(field, value)
    }

    /// `field >= value`. Registers `value`; nothing when `field` is empty.
    pub fn greater_equal_than(&mut self, field: &str, value: Arg) -> (r: String)
        ensures
            field@.len() == 0 ==> r@.len() == 0 && final(self).registry() == old(self).registry(),
            field@.len() > 0 ==> r@ == field@ + " >= "@ + old(self).registry().next_placeholder()
                && registers(old(self).registry(), final(self).registry(), seq![value]),
    {
        self.compare(field, " >= ", value)
    }

    /// Same as [`Cond::greater_equal_than`].
    pub fn ge(&mut self, field: &str, value: Arg) -> (r: String)
        ensures
            field@.len() == 0 ==> r@.len() == 0 && final(self).registry() == old(self).registry(),
            field@.len() > 0 ==> r@ == field@ + " >= "@ + old(self).registry().next_placeholder()
                && registers(old(self).registry(), final(self).registry(), seq![value]),
    {
        self.greater_equal_than(field, value)
    }

    /// Same as [`Cond::greater_equal_than`].
    pub fn gte(&mut self, field: &str, value: Arg) -> (r: String)
        ensures
            field@.len() == 0 ==> r@.len() == 0 && final(self).registry() == old(self).registry(),
            field@.len() > 0 ==> r@ == field@ + " >= "@ + old(self).registry().next_placeholder()
                && registers(old(self).registry(), final(self).registry(), seq![value]),
    {
        self.greater_equal_than(field, value)
    }

    /// `field < value`. Registers `value`; nothing when `field` is empty.
    pub fn less_than(&mut self, field: &str, value: Arg) -> (r: String)
        ensures
            field@.len() == 0 ==> r@.len() == 0 && final(self).registry() == old(self).registry(),
            field@.len() > 0 ==> r@ == field@ + " < "@ + old(self).registry().next_placeholder()
                && registers(old(self).registry(), final(self).registry(), seq![value]),
    {
        self.compare(field, " < ", value)
    }

    /// Same as [`Cond::less_than`].
    pub fn l(&mut self, field: &str, value: Arg) -> (r: String)
        ensures
            field@.len() == 0 ==> r@.len() == 0 && final(self).registry() == old(self).registry(),
            field@.len() > 0 ==> r@ == field@ + " < "@ + old(self).registry().next_placeholder()
                && registers(old(self).registry(), final(self).registry(), seq![value]),
    {
        self.less_than(field, value)
    }

    /// Same as [`Cond::less_than`].
    pub fn lt(&mut self, field: &str, value: Arg) -> (r: String)
        ensures
            field@.len() == 0 ==> r@.len() == 0 && final(self).registry() == old(self).registry(),
            field@.len() > 0 ==> r@ == field@ + " < "@ + old(self).registry().next_placeholder()
                && registers(old(self).registry(), final(self).registry(), seq![value]),
    {
        self.less_than(field, value)
    }

    /// `field <= value`. Registers `value`; nothing when `field` is empty.
    pub fn less_equal_than(&mut self, field: &str, value: Arg) -> (r: String)
        ensures
            field@.len() == 0 ==> r@.len() == 0 && final(self).registry() == old(self).registry(),
            field@.len() > 0 ==> r@ == field@ + " <= "@ + old(self).registry().next_placeholder()
                && registers(old(self).registry(), final(self).registry(), seq![value]),
    {
        self.compare(field, " <= ", value)
    }

    /// Same as [`Cond::less_equal_than`].
    pub fn le(&mut self, field: &str, value: Arg) -> (r: String)
        ensures
            field@.len() == 0 ==> r@.len() == 0 && final(self).registry() == old(self).registry(),
            field@.len() > 0 ==> r@ == field@ + " <= "@ + old(self).registry().next_placeholder()
                && registers(old(self).registry(), final(self).registry(), seq![value]),
    {
        self.less_equal_than(field, value)
    }

    /// Same as [`Cond::less_equal_than`].
    pub fn lte(&mut self, field: &str, value: Arg) -> (r: String)
        ensures
            field@.len() == 0 ==> r@.len() == 0 && final(self).registry() == old(self).registry(),
            field@.len() > 0 ==> r@ == field@ + " <= "@ + old(self).registry().next_placeholder()
                && registers(old(self).registry(), final(self).registry(), seq![value]),
    {
        self.less_equal_than(field, value)
    }

    /// `field LIKE value`. Registers `value`; nothing when `field` is empty.
    pub fn like(&mut self, field: &str, value: Arg) -> (r: String)
        ensures
            field@.len() == 0 ==> r@.len() == 0 && final(self).registry() == old(self).registry(),
            field@.len() > 0 ==> r@ == field@ + " LIKE "@ + old(self).registry().next_placeholder()
                && registers(old(self).registry(), final(self).registry(), seq![value]),
    {
        self.compare(field, " LIKE ", value)
    }

    /// `field NOT LIKE value`. Registers `value`; nothing when `field` is empty.
    pub fn not_like(&mut self, field: &str, value: Arg) -> (r: String)
        ensures
            field@.len() == 0 ==> r@.len() == 0 && final(self).registry() == old(self).registry(),
            field@.len() > 0 ==> r@ == field@ + " NOT LIKE "@ + old(self).registry().next_placeholder()
                && registers(old(self).registry(), final(self).registry(), seq![value]),
    {
        self.compare(field, " NOT LIKE ", value)
    }

    /// `field IS DISTINCT FROM value`. Registers `value`; nothing when `field` is empty.
    pub fn is_distinct_from(&mut self, field: &str, value: Arg) -> (r: String)
        ensures
            field@.len() == 0 ==> r@.len() == 0 && final(self).registry() == old(self).registry(),
            field@.len() > 0 ==> r@ == field@ + " IS DISTINCT FROM "@ + old(self).registry().next_placeholder()
                && registers(old(self).registry(), final(self).registry(), seq![value]),
    {
        self.compare(field, " IS DISTINCT FROM ", value)
    }

    /// `field IS NOT DISTINCT FROM value`. Registers `value`; nothing when `field` is empty.
    pub fn is_not_distinct_from(&mut self, field: &str, value: Arg) -> (r: String)
        ensures
            field@.len() == 0 ==> r@.len() == 0 && final(self).registry() == old(self).registry(),
            field@.len() > 0 ==> r@ == field@ + " IS NOT DISTINCT FROM "@ + old(self).registry().next_placeholder()
                && registers(old(self).registry(), final(self).registry(), seq![value]),
    {
        self.compare(field, " IS NOT DISTINCT FROM ", value)
    }

    /// `field IN (values)`, each value registered in turn; nothing when `field` is empty.
    pub fn in_(&mut self, field: &str, values: Vec<Arg>) -> (r: String)
        ensures
            field@.len() == 0 ==> r@.len() == 0 && final(self).registry() == old(self).registry(),
            field@.len() > 0 ==> r@ == field@ + " IN ("@ + placeholders_text(old(self).registry(), values@.len())
                + seq![')'] && registers(old(self).registry(), final(self).registry(), values@),
    {
        self.compare_list(field, " IN (", values)
    }

    /// `field NOT IN (values)`, each value registered in turn; nothing when `field` is empty.
    pub fn not_in(&mut self, field: &str, values: Vec<Arg>) -> (r: String)
        ensures
            field@.len() == 0 ==> r@.len() == 0 && final(self).registry() == old(self).registry(),
            field@.len() > 0 ==> r@ == field@ + " NOT IN ("@ + placeholders_text(old(self).registry(), values@.len())
                + seq![')'] && registers(old(self).registry(), final(self).registry(), values@),
    {
        self.compare_list(field, " NOT IN (", values)
    }

    /// `LOWER(field) LIKE LOWER(value)`: a match that ignores case, by lower-casing both
    /// sides. Registers `value`; nothing when `field` is empty.
    pub fn i_like(&mut self, field: &str, value: Arg) -> (r: String)
        ensures
            field@.len() == 0 ==> r@.len() == 0 && final(self).registry() == old(self).registry(),
            field@.len() > 0 ==> r@ == "LOWER("@ + field@ + ") LIKE LOWER("@ + old(self).registry().next_placeholder()
                + seq![')'] && registers(old(self).registry(), final(self).registry(), seq![value]),
    {
        self.lowered(field, ") LIKE LOWER(", value)
    }

    /// `LOWER(field) NOT LIKE LOWER(value)`: a match that ignores case, by lower-casing both
    /// sides. Registers `value`; nothing when `field` is empty.
    pub fn not_i_like(&mut self, field: &str, value: Arg) -> (r: String)
        ensures
            field@.len() == 0 ==> r@.len() == 0 && final(self).registry() == old(self).registry(),
            field@.len() > 0 ==> r@ == "LOWER("@ + field@ + ") NOT LIKE LOWER("@ + old(self).registry().next_placeholder()
                + seq![')'] && registers(old(self).registry(), final(self).registry(), seq![value]),
    {
        self.lowered(field, ") NOT LIKE LOWER(", value)
    }

    /// `field IS NULL`; nothing when `field` is empty.
    pub fn is_null(&self, field: &str) -> (r: String)
        ensures
            field@.len() == 0 ==> r@.len() == 0,
            field@.len() > 0 ==> r@ == field@ + " IS NULL"@,
    {
        self.postfix(field, " IS NULL")
    }

    /// `field IS NOT NULL`; nothing when `field` is empty.
    pub fn is_not_null(&self, field: &str) -> (r: String)
        ensures
            field@.len() == 0 ==> r@.len() == 0,
            field@.len() > 0 ==> r@ == field@ + " IS NOT NULL"@,
    {
        self.postfix(field, " IS NOT NULL")
    }

    /// `field BETWEEN lower AND upper`, registering `lower` then `upper`; nothing when `field` is
    /// empty.
    pub fn between(&mut self, field: &str, lower: Arg, upper: Arg) -> (r: String)
        ensures
            field@.len() == 0 ==> r@.len() == 0 && final(self).registry() == old(self).registry(),
            field@.len() > 0 ==> r@ == field@ + " BETWEEN "@ + old(self).registry().next_placeholder()
                + " AND "@ + crate::args::placeholder(
                old(self).registry().base() + old(self).registry().registered().len() + 1,
            ) && registers(old(self).registry(), final(self).registry(), seq![lower, upper]),
    {
        self.range(field, " BETWEEN ", lower, upper)
    }

    /// `field NOT BETWEEN lower AND upper`, registering `lower` then `upper`; nothing when `field` is
    /// empty.
    pub fn not_between(&mut self, field: &str, lower: Arg, upper: Arg) -> (r: String)
        ensures
            field@.len() == 0 ==> r@.len() == 0 && final(self).registry() == old(self).registry(),
            field@.len() > 0 ==> r@ == field@ + " NOT BETWEEN "@ + old(self).registry().next_placeholder()
                + " AND "@ + crate::args::placeholder(
                old(self).registry().base() + old(self).registry().registered().len() + 1,
            ) && registers(old(self).registry(), final(self).registry(), seq![lower, upper]),
    {
        self.range(field, " NOT BETWEEN ", lower, upper)
    }

    /// The members of `or_expr` that are not empty, joined by `OR` and put in parentheses;
    /// nothing when every member is empty.
    pub fn or(&self, or_expr: Vec<String>) -> (r: String)
        ensures
            r@ == combined(views(or_expr@), " OR "@),
    {
        self.combine(or_expr, " OR ")
    }

    /// The members of `and_expr` that are not empty, joined by `AND` and put in parentheses;
    /// nothing when every member is empty.
    pub fn and(&self, and_expr: Vec<String>) -> (r: String)
        ensures
            r@ == combined(views(and_expr@), " AND "@),
    {
        self.combine(and_expr, " AND ")
    }

    /// `NOT expr`; nothing when `expr` is empty.
    pub fn not(&self, not_expr: String) -> (r: String)
        ensures
            not_expr@.len() == 0 ==> r@.len() == 0,
            not_expr@.len() > 0 ==> r@ == "NOT "@ + not_expr@,
    {
        if not_expr.as_str().is_empty() {
            return String::new();
        }
        let mut r = String::new();
        push_str(&mut r, "NOT ");
        push_str(&mut r, not_expr.as_str());
        r
    }

    /// `EXISTS (subquery)`, registering `subquery`.
    pub fn exists_(&mut self, subquery: Arg) -> (r: String)
        ensures
            r@ == "EXISTS ("@ + old(self).registry().next_placeholder() + seq![')'],
            registers(old(self).registry(), final(self).registry(), seq![subquery]),
    {
        self.wrapped("EXISTS (", subquery)
    }

    /// `NOT EXISTS (subquery)`, registering `subquery`.
    pub fn not_exists(&mut self, subquery: Arg) -> (r: String)
        ensures
            r@ == "NOT EXISTS ("@ + old(self).registry().next_placeholder() + seq![')'],
            registers(old(self).registry(), final(self).registry(), seq![subquery]),
    {
        self.wrapped("NOT EXISTS (", subquery)
    }

    /// `field op ANY (values)`, each value registered in turn; nothing when `field` or `op` is
    /// empty.
    pub fn any(&mut self, field: &str, op: &str, values: Vec<Arg>) -> (r: String)
        ensures
            field@.len() == 0 || op@.len() == 0 ==> r@.len() == 0 && final(self).registry()
                == old(self).registry(),
            field@.len() > 0 && op@.len() > 0 ==> r@ == field@ + seq![' '] + op@ + " ANY ("@
                + placeholders_text(old(self).registry(), values@.len()) + seq![')'] && registers(
                old(self).registry(),
                final(self).registry(),
                values@,
            ),
    {
        self.quantified(field, op, " ANY (", values)
    }

    /// `field op ALL (values)`, each value registered in turn; nothing when `field` or `op` is
    /// empty.
    pub fn all(&mut self, field: &str, op: &str, values: Vec<Arg>) -> (r: String)
        ensures
            field@.len() == 0 || op@.len() == 0 ==> r@.len() == 0 && final(self).registry()
                == old(self).registry(),
            field@.len() > 0 && op@.len() > 0 ==> r@ == field@ + seq![' '] + op@ + " ALL ("@
                + placeholders_text(old(self).registry(), values@.len()) + seq![')'] && registers(
                old(self).registry(),
                final(self).registry(),
                values@,
            ),
    {
        self.quantified(field, op, " ALL (", values)
    }

    /// `field op SOME (values)`, each value registered in turn; nothing when `field` or `op` is
    /// empty.
    pub fn some(&mut self, field: &str, op: &str, values: Vec<Arg>) -> (r: String)
        ensures
            field@.len() == 0 || op@.len() == 0 ==> r@.len() == 0 && final(self).registry()
                == old(self).registry(),
            field@.len() > 0 && op@.len() > 0 ==> r@ == field@ + seq![' '] + op@ + " SOME ("@
                + placeholders_text(old(self).registry(), values@.len()) + seq![')'] && registers(
                old(self).registry(),
                final(self).registry(),
                values@,
            ),
    {
        self.quantified(field, op, " SOME (", values)
    }
}

} // verus!
