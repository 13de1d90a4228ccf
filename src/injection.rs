use vstd::prelude::*;

use crate::stringbuilder::StringBuilder;
use crate::text::{join, lemma_join_non_empty_len, non_empty, views};

verus! {

/// The stages of building a `CREATE TABLE` statement after which raw SQL can be spliced in.
#[derive(Debug, Clone, Copy, PartialEq, Eq, Structural)]
pub enum InjectionMarker {
    Init,
    AfterCreate,
    AfterDefine,
    AfterOption,
}

/// `s` after `b`, with one space between them when `b` is not empty.
pub open spec fn leading(b: Seq<char>, s: Seq<char>) -> Seq<char> {
    if b.len() == 0 {
        s
    } else {
        b + seq![' '] + s
    }
}

/// `b` followed by the non-empty members of `frags` joined by spaces; `b` alone when there
/// are none.
pub open spec fn spliced(b: Seq<char>, frags: Seq<Seq<char>>) -> Seq<char> {
    if non_empty(frags).len() == 0 {
        b
    } else {
        leading(b, join(non_empty(frags), seq![' ']))
    }
}

/// Raw SQL fragments, kept per stage in the order they were given.
pub struct Injection {
    init: Vec<String>,
    after_create: Vec<String>,
    after_define: Vec<String>,
    after_option: Vec<String>,
}

impl Injection {
    /// The fragments kept for stage `m`.
    pub closed spec fn at(&self, m: InjectionMarker) -> Seq<Seq<char>> {
        match m {
            InjectionMarker::Init => views(self.init@),
            InjectionMarker::AfterCreate => views(self.after_create@),
            InjectionMarker::AfterDefine => views(self.after_define@),
            InjectionMarker::AfterOption => views(self.after_option@),
        }
    }

    /// No fragments at any stage.
    pub fn new() -> (r: Self)
        ensures
            forall|m: InjectionMarker| #[trigger] r.at(m) == Seq::<Seq<char>>::empty(),
    {
        let r = Injection {
            init: Vec::new(),
            after_create: Vec::new(),
            after_define: Vec::new(),
            after_option: Vec::new(),
        };
        assert forall|m: InjectionMarker| #[trigger] r.at(m) == Seq::<Seq<char>>::empty() by {
            assert(r.at(m) =~= Seq::<Seq<char>>::empty());
        }
        r
    }

    /// Keeps `sql` as the last fragment of stage `marker`.
    pub fn sql(&mut self, marker: InjectionMarker, sql: String)
        ensures
            final(self).at(marker) == old(self).at(marker).push(sql@),
            forall|m: InjectionMarker| m != marker ==> #[trigger] final(self).at(m) == old(self).at(m),
    {
        let ghost text = sql@;
        match marker {
            InjectionMarker::Init => self.init.push(sql),
            InjectionMarker::AfterCreate => self.after_create.push(sql),
            InjectionMarker::AfterDefine => self.after_define.push(sql),
            InjectionMarker::AfterOption => self.after_option.push(sql),
        }
        assert(final(self).at(marker) =~= old(self).at(marker).push(text));
    }

    /// Splices the fragments of stage `marker` into `buf`, joined by spaces.
    pub fn write_to(&self, buf: &mut StringBuilder, marker: InjectionMarker)
        ensures
            final(buf)@ == spliced(old(buf)@, self.at(marker)),
    {
        let frags = match marker {
            InjectionMarker::Init => &self.init,
            InjectionMarker::AfterCreate => &self.after_create,
            InjectionMarker::AfterDefine => &self.after_define,
            InjectionMarker::AfterOption => &self.after_option,
        };
        let mut joined = StringBuilder::new();
        joined.write_strings(frags.as_slice(), " ");
        proof {
            reveal_strlit(" ");
            assert(" "@ =~= seq![' ']);
            lemma_join_non_empty_len(self.at(marker), seq![' ']);
        }
        let text = joined.to_string();
        if !text.is_empty() {
            buf.write_leading_string(text);
        }
    }
}

} // verus!
