use vstd::prelude::*;

use crate::text::{
    join, lemma_join_push, non_empty, push_char, push_str, reserve, views,
};

verus! {

/// A text buffer that statement text is assembled in, piece by piece.
pub struct StringBuilder {
    buffer: String,
}

impl View for StringBuilder {
    type V = Seq<char>;

    closed spec fn view(&self) -> Seq<char> {
        self.buffer@
    }
}

impl StringBuilder {
    /// An empty buffer.
    pub fn new() -> (r: Self)
        ensures
            r@ == Seq::<char>::empty(),
    {
        StringBuilder { buffer: String::new() }
    }

    /// Appends `s`, after one space if the buffer already holds text.
    pub fn write_leading_string(&mut self, s: &str)
        ensures
            final(self)@ == if old(self)@.len() == 0 {
                s@
            } else {
                old(self)@ + seq![' '] + s@
            },
    {
        if self.buffer.as_str().is_empty() == false {
            push_char(&mut self.buffer, ' ');
        }
        push_str(&mut self.buffer, s);
        assert(self@ =~= if old(self)@.len() == 0 {
            s@
        } else {
            old(self)@ + seq![' '] + s@
        });
    }

    /// Appends `s`.
    pub fn write_string(&mut self, s: &str)
        ensures
            final(self)@ == old(self)@ + s@,
    {
        push_str(&mut self.buffer, s);
    }

    /// Appends the non-empty members of `ss`, with `sep` between each two of them.
    pub fn write_strings(&mut self, ss: &[String], sep: &str)
        ensures
            final(self)@ == old(self)@ + join(non_empty(views(ss@)), sep@),
    {
        let ghost all = views(ss@);
        let mut first_added = false;
        let mut i: usize = 0;
        while i < ss.len()
            invariant
                all == views(ss@),
                i <= ss.len(),
                first_added == (non_empty(all.take(i as int)).len() > 0),
                self@ == old(self)@ + join(non_empty(all.take(i as int)), sep@),
            decreases ss.len() - i,
        {
            let s = ss[i].as_str();
            let ghost prev = non_empty(all.take(i as int));
            assert(all.take(i + 1).drop_last() =~= all.take(i as int));
            assert(all.take(i + 1).last() == s@);
            if !s.is_empty() {
                if first_added {
                    push_str(&mut self.buffer, sep);
                }
                push_str(&mut self.buffer, s);
                first_added = true;
                proof {
                    lemma_join_push(prev, s@, sep@);
                }
                assert(self@ =~= old(self)@ + join(non_empty(all.take(i + 1)), sep@));
            }
            i = i + 1;
        }
        assert(all.take(i as int) =~= all);
    }

    /// Appends one character.
    pub fn write_rune(&mut self, r: char)
        ensures
            final(self)@ == old(self)@.push(r),
    {
        push_char(&mut self.buffer, r);
    }

    /// The text assembled so far.
    pub fn to_string(&self) -> (r: &str)
        ensures
            r@ == self@,
    {
        self.buffer.as_str()
    }

    /// Makes room for `n` more bytes ahead of time; the text stays as it is.
    pub fn grow(&mut self, n: usize)
        ensures
            final(self)@ == old(self)@,
    {
        reserve(&mut self.buffer, n);
    }

    /// Empties the buffer.
    pub fn reset(&mut self)
        ensures
            final(self)@ == Seq::<char>::empty(),
    {
        self.buffer = String::new();
    }
}

} // verus!
