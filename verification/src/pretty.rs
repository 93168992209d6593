use vstd::prelude::*;

use crate::text::push_char;

verus! {

/// A buffer that expressions print themselves into.
pub struct PrettyPrinter {
    buf: String,
}

impl View for PrettyPrinter {
    type V = Seq<char>;

    closed spec fn view(&self) -> Seq<char> {
        self.buf@
    }
}

impl PrettyPrinter {
    pub fn new() -> (p: PrettyPrinter)
        ensures
            p@ == Seq::<char>::empty(),
    {
        PrettyPrinter { buf: String::new() }
    }

    pub fn push_str(&mut self, s: &str)
        ensures
            final(self)@ == old(self)@ + s@,
    {
        self.buf.append(s);
    }

    pub fn push(&mut self, c: char)
        ensures
            final(self)@ == old(self)@.push(c),
    {
        push_char(&mut self.buf, c);
    }

    /// The text printed so far.
    pub fn finish(self) -> (s: String)
        ensures
            s@ == self@,
    {
        self.buf
    }
}

} // verus!
