use vstd::prelude::*;
use vstd::string::*;
use crate::text::{pad, push_char, push_int, int_text};

verus! {

/// An append-only text accumulator that tracks an indentation depth.
pub struct ProtoWriter {
    pub indent: usize,
    result: String,
}

impl ProtoWriter {
    /// The text accumulated so far.
    pub closed spec fn text(&self) -> Seq<char> {
        self.result@
    }

    /// The current nesting depth.
    pub closed spec fn depth(&self) -> nat {
        self.indent as nat
    }

    pub fn new() -> (w: Self)
        ensures
            w.depth() == 0,
            w.text() == Seq::<char>::empty(),
    {
        ProtoWriter { indent: 0, result: String::new() }
    }

    /// Appends one character.
    pub fn push(&mut self, ch: char)
        ensures
            final(self).depth() == old(self).depth(),
            final(self).text() == old(self).text().push(ch),
    {
        push_char(&mut self.result, ch);
    }

    /// Appends `string` as it is.
    pub fn push_str(&mut self, string: &str)
        ensures
            final(self).depth() == old(self).depth(),
            final(self).text() == old(self).text() + string@,
    {
        self.result.append(string);
    }

    /// Appends the padding of the current depth, then `string`.
    pub fn push_str_indented(&mut self, string: &str)
        ensures
            final(self).depth() == old(self).depth(),
            final(self).text() == old(self).text() + pad(old(self).depth()) + string@,
    {
        let ghost t0 = self.result@;
        let ghost d0 = self.indent;
        let mut k: usize = 0;
        while k < self.indent
            invariant
                self.indent == d0,
                k <= self.indent,
                self.result@ == t0 + pad(k as nat),
            decreases self.indent - k,
        {
            push_char(&mut self.result, ' ');
            push_char(&mut self.result, ' ');
            k = k + 1;
            assert(self.result@ =~= t0 + pad(k as nat));
        }
        self.result.append(string);
        assert(self.result@ =~= t0 + pad(self.indent as nat) + string@);
    }

    /// Appends the decimal notation of `n`.
    pub fn push_int(&mut self, n: i32)
        ensures
            final(self).depth() == old(self).depth(),
            final(self).text() == old(self).text() + int_text(n as int),
    {
        push_int(&mut self.result, n);
    }

    /// Goes one level deeper.
    pub fn indent(&mut self)
        requires
            old(self).depth() < usize::MAX,
        ensures
            final(self).depth() == old(self).depth() + 1,
            final(self).text() == old(self).text(),
    {
        self.indent = self.indent + 1;
    }

    /// Goes back one level; the depth never drops below zero.
    pub fn deindent(&mut self)
        requires
            old(self).depth() > 0,
        ensures
            final(self).depth() == old(self).depth() - 1,
            final(self).text() == old(self).text(),
    {
        self.indent = self.indent - 1;
    }

    /// A copy of the accumulated text.
    pub fn result(&self) -> (r: String)
        ensures
            r@ == self.text(),
    {
        self.result.clone()
    }
}

} // verus!
