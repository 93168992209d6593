use vstd::prelude::*;

use crate::pretty::PrettyPrinter;
use crate::span::Span;

verus! {

/// A range of numbers, `range '0'-'255'`, with the digits of both ends, most significant
/// first, and the radix they are written in.
#[derive(Clone, Debug, PartialEq, Eq)]
pub struct Range {
    pub start: Vec<u8>,
    pub end: Vec<u8>,
    pub radix: u8,
    pub span: Span,
}

impl Range {
    pub fn new(start: Vec<u8>, end: Vec<u8>, radix: u8, span: Span) -> (r: Range)
        ensures
            r.start@ == start@,
            r.end@ == end@,
            r.radix == radix,
            r.span == span,
    {
        Range { start, end, radix, span }
    }

    /// Prints the range as `range '<start>'-'<end>'`, each digit as `0`-`9` or `A`-`Z`.
    pub fn pretty_print(&self, buf: &mut PrettyPrinter)
        requires
            forall|i: int| 0 <= i < self.start@.len() ==> self.start@[i] <= 200,
            forall|i: int| 0 <= i < self.end@.len() ==> self.end@[i] <= 200,
        ensures
            final(buf)@ == old(buf)@ + range_text(self.start@, self.end@),
    {
        buf.push_str("range '");
        push_digits(buf, &self.start);
        buf.push_str("'-'");
        push_digits(buf, &self.end);
        buf.push('\'');
        proof {
            reveal_strlit("range '");
            reveal_strlit("'-'");
        }
        assert(final(buf)@ =~= old(buf)@ + range_text(self.start@, self.end@));
    }
}

/// The character that shows a digit: `0`-`9`, then `A` onwards.
pub open spec fn digit_char(n: u8) -> char {
    if n <= 9 {
        (n + 48) as char
    } else {
        (n + 55) as char
    }
}

/// The characters that show a sequence of digits.
pub open spec fn digits_text(d: Seq<u8>) -> Seq<char>
    decreases d.len(),
{
    if d.len() == 0 {
        Seq::empty()
    } else {
        digits_text(d.drop_last()).push(digit_char(d.last()))
    }
}

/// How a range prints.
pub open spec fn range_text(start: Seq<u8>, end: Seq<u8>) -> Seq<char> {
    "range '"@ + digits_text(start) + "'-'"@ + digits_text(end) + seq!['\'']
}

fn hex(n: u8) -> (c: char)
    requires
        n <= 200,
    ensures
        c == digit_char(n),
{
    if n <= 9 {
        (n + 48u8) as char
    } else {
        (n + 55u8) as char
    }
}

fn push_digits(buf: &mut PrettyPrinter, d: &Vec<u8>)
    requires
        forall|i: int| 0 <= i < d@.len() ==> d@[i] <= 200,
    ensures
        final(buf)@ == old(buf)@ + digits_text(d@),
{
    let mut i: usize = 0;
    while i < d.len()
        invariant
            i <= d@.len(),
            forall|k: int| 0 <= k < d@.len() ==> d@[k] <= 200,
            buf@ == old(buf)@ + digits_text(d@.take(i as int)),
        decreases d.len() - i,
    {
        let ghost before = buf@;
        buf.push(hex(d[i]));
        assert(d@.take(i + 1).drop_last() =~= d@.take(i as int));
        assert(buf@ =~= old(buf)@ + digits_text(d@.take(i + 1)));
        i = i + 1;
    }
    assert(d@.take(d@.len() as int) =~= d@);
}

} // verus!
