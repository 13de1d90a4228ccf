use vstd::prelude::*;

verus! {

/// Relies on `String::push`: appends one character at the end.
#[verifier::external_body]
pub(crate) fn push_char(s: &mut String, c: char)
    ensures
        final(s)@ == old(s)@.push(c),
{
    s.push(c);
}

/// Relies on `String::push_str`: appends the characters of `t` at the end.
#[verifier::external_body]
pub(crate) fn push_str(s: &mut String, t: &str)
    ensures
        final(s)@ == old(s)@ + t@,
{
    s.push_str(t);
}

/// Relies on `String::with_capacity`: the new string is empty.
#[verifier::external_body]
pub(crate) fn string_with_capacity(n: usize) -> (r: String)
    ensures
        r@ == Seq::<char>::empty(),
{
    String::with_capacity(n)
}

/// Relies on `String::reserve`: reserving room leaves the contents as they are.
#[verifier::external_body]
pub(crate) fn reserve(s: &mut String, additional: usize)
    ensures
        final(s)@ == old(s)@,
{
    s.reserve(additional);
}

/// The characters of `s`, in order.
pub fn chars_of(s: &str) -> (r: Vec<char>)
    ensures
        r@ == s@,
{
    let mut v: Vec<char> = Vec::new();
    for c in it: s.chars()
        invariant
            v@ == it.seq().take(it.index() as int),
    {
        v.push(c);
    }
    v
}


/// The decimal digit for `d`, which is below ten.
pub open spec fn digit_char(d: nat) -> char {
    if d == 0 { '0' }
    else if d == 1 { '1' }
    else if d == 2 { '2' }
    else if d == 3 { '3' }
    else if d == 4 { '4' }
    else if d == 5 { '5' }
    else if d == 6 { '6' }
    else if d == 7 { '7' }
    else if d == 8 { '8' }
    else { '9' }
}

/// Whether `c` is an ASCII decimal digit.
pub open spec fn is_digit(c: char) -> bool {
    '0' <= c && c <= '9'
}

/// The value of the decimal digit `c`.
pub open spec fn digit_value(c: char) -> nat {
    (c as u32 - '0' as u32) as nat
}

/// The decimal text of `n`, without sign or leading zeros.
pub open spec fn nat_text(n: nat) -> Seq<char>
    decreases n,
{
    if n < 10 {
        seq![digit_char(n)]
    } else {
        nat_text(n / 10).push(digit_char(n % 10))
    }
}

/// The decimal text of `n`, with a leading `-` when it is negative.
pub open spec fn int_text(n: int) -> Seq<char> {
    if n < 0 {
        seq!['-'] + nat_text((-n) as nat)
    } else {
        nat_text(n as nat)
    }
}

/// The value of a run of decimal digits, read from the left.
pub open spec fn digits_value(ds: Seq<char>) -> nat
    decreases ds.len(),
{
    if ds.len() == 0 {
        0
    } else {
        digits_value(ds.drop_last()) * 10 + digit_value(ds.last())
    }
}

fn digit_to_char(d: u128) -> (c: char)
    requires
        d < 10,
    ensures
        c == digit_char(d as nat),
{
    if d == 0 { '0' }
    else if d == 1 { '1' }
    else if d == 2 { '2' }
    else if d == 3 { '3' }
    else if d == 4 { '4' }
    else if d == 5 { '5' }
    else if d == 6 { '6' }
    else if d == 7 { '7' }
    else if d == 8 { '8' }
    else { '9' }
}

/// Appends the decimal text of `n`.
pub fn push_nat(buf: &mut String, n: u128)
    ensures
        final(buf)@ == old(buf)@ + nat_text(n as nat),
    decreases n,
{
    if n >= 10 {
        push_nat(buf, n / 10);
    }
    push_char(buf, digit_to_char(n % 10));
    assert(final(buf)@ =~= old(buf)@ + nat_text(n as nat));
}

/// Appends the decimal text of `n`, signed.
pub fn push_int(buf: &mut String, n: i64)
    ensures
        final(buf)@ == old(buf)@ + int_text(n as int),
{
    if n < 0 {
        push_char(buf, '-');
        let m: u128 = (0 - (n as i128)) as u128;
        push_nat(buf, m);
        assert(final(buf)@ =~= old(buf)@ + int_text(n as int));
    } else {
        push_nat(buf, n as u128);
    }
}

/// Decimal text is never empty.
pub proof fn lemma_nat_text_len(n: nat)
    ensures
        nat_text(n).len() >= 1,
        n >= 10 ==> nat_text(n).len() >= 2,
    decreases n,
{
    if n >= 10 {
        lemma_nat_text_len(n / 10);
    }
}

proof fn lemma_digit_char_injective(x: nat, y: nat)
    requires
        x < 10,
        y < 10,
        digit_char(x) == digit_char(y),
    ensures
        x == y,
{
}

/// Distinct numbers have distinct decimal texts.
pub proof fn lemma_nat_text_injective(a: nat, b: nat)
    requires
        nat_text(a) == nat_text(b),
    ensures
        a == b,
    decreases a,
{
    lemma_nat_text_len(a);
    lemma_nat_text_len(b);
    if a < 10 && b < 10 {
        assert(nat_text(a) == seq![digit_char(a)]);
        assert(nat_text(b) == seq![digit_char(b)]);
        assert(nat_text(a)[0] == digit_char(a));
        assert(nat_text(b)[0] == digit_char(b));
        lemma_digit_char_injective(a, b);
    } else if a >= 10 && b >= 10 {
        let pa = nat_text(a / 10);
        let pb = nat_text(b / 10);
        assert(nat_text(a) == pa.push(digit_char(a % 10)));
        assert(nat_text(b) == pb.push(digit_char(b % 10)));
        assert(nat_text(a).last() == digit_char(a % 10));
        assert(nat_text(b).last() == digit_char(b % 10));
        assert(pa =~= nat_text(a).drop_last());
        assert(pb =~= nat_text(b).drop_last());
        lemma_nat_text_injective(a / 10, b / 10);
        lemma_digit_char_injective(a % 10, b % 10);
        assert(a == 10 * (a / 10) + a % 10 && b == 10 * (b / 10) + b % 10) by (nonlinear_arith);
    } else {
        assert(nat_text(a).len() != nat_text(b).len());
    }
}


/// The texts of a sequence of strings.
pub open spec fn views(v: Seq<String>) -> Seq<Seq<char>> {
    v.map_values(|s: String| s@)
}

/// The non-empty members of `ss`, in order.
pub open spec fn non_empty(ss: Seq<Seq<char>>) -> Seq<Seq<char>>
    decreases ss.len(),
{
    if ss.len() == 0 {
        ss
    } else if ss.last().len() > 0 {
        non_empty(ss.drop_last()).push(ss.last())
    } else {
        non_empty(ss.drop_last())
    }
}

/// The members of `ss` with `sep` between each two neighbours.
pub open spec fn join(ss: Seq<Seq<char>>, sep: Seq<char>) -> Seq<char>
    decreases ss.len(),
{
    if ss.len() == 0 {
        Seq::empty()
    } else if ss.len() == 1 {
        ss[0]
    } else {
        join(ss.drop_last(), sep) + sep + ss.last()
    }
}

/// Joining one more member adds the separator only where something came before.
pub proof fn lemma_join_push(ss: Seq<Seq<char>>, x: Seq<char>, sep: Seq<char>)
    ensures
        join(ss.push(x), sep) == if ss.len() == 0 {
            x
        } else {
            join(ss, sep) + sep + x
        },
{
    assert(ss.push(x).drop_last() =~= ss);
    if ss.len() == 0 {
        assert(ss.push(x)[0] == x);
    }
}

/// Every member of `non_empty(ss)` is non-empty.
pub proof fn lemma_non_empty_members(ss: Seq<Seq<char>>)
    ensures
        forall|k: int| 0 <= k < non_empty(ss).len() ==> (#[trigger] non_empty(ss)[k]).len() > 0,
    decreases ss.len(),
{
    if ss.len() > 0 {
        let prev = non_empty(ss.drop_last());
        lemma_non_empty_members(ss.drop_last());
        assert forall|k: int| 0 <= k < non_empty(ss).len() implies (#[trigger] non_empty(
            ss,
        )[k]).len() > 0 by {
            if k < prev.len() {
                assert(non_empty(ss)[k] == prev[k]);
            }
        }
    }
}

/// A join of non-empty members is empty exactly when there are none.
pub proof fn lemma_join_non_empty_len(ss: Seq<Seq<char>>, sep: Seq<char>)
    ensures
        join(non_empty(ss), sep).len() == 0 <==> non_empty(ss).len() == 0,
{
    let ne = non_empty(ss);
    lemma_non_empty_members(ss);
    if ne.len() > 0 {
        assert(ne.last().len() > 0);
        assert(ne.drop_last().push(ne.last()) =~= ne);
        lemma_join_push(ne.drop_last(), ne.last(), sep);
    }
}

/// The end of the run of decimal digits that starts at `k`.
pub open spec fn digit_end(s: Seq<char>, k: int) -> int
    decreases s.len() - k,
{
    if 0 <= k < s.len() && is_digit(s[k]) {
        digit_end(s, k + 1)
    } else {
        k
    }
}

/// The run of digits from `k` ends within `s`, and holds digits only.
pub proof fn lemma_digit_end(s: Seq<char>, k: int)
    requires
        0 <= k <= s.len(),
    ensures
        k <= digit_end(s, k) <= s.len(),
        forall|m: int| k <= m < digit_end(s, k) ==> is_digit(#[trigger] s[m]),
    decreases s.len() - k,
{
    if k < s.len() && is_digit(s[k]) {
        lemma_digit_end(s, k + 1);
    }
}

} // verus!
