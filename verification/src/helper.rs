use vstd::prelude::*;

use crate::error::{NumberError, ParseErrorKind, ParseErrorKindModel};
use crate::text::push_char;

verus! {

/// A string without its first and last characters (the quotes of a string literal).
pub fn strip_first_last(s: &str) -> (r: &str)
    requires
        s@.len() >= 2,
    ensures
        r@ == s@.subrange(1, s@.len() - 1),
{
    let n = s.unicode_len();
    s.substring_char(1, n - 1)
}

/// `r` with `prefix` put in front of the text it holds, when it holds one.
pub open spec fn prepend<E>(prefix: Seq<char>, r: Result<Seq<char>, E>) -> Result<Seq<char>, E> {
    match r {
        Ok(t) => Ok(prefix + t),
        Err(e) => Err(e),
    }
}

/// The contents of a double-quoted string from index `i` of its body on, with `\\` and
/// `\"` unescaped; any other backslash is an error at its offset in the quoted string.
pub open spec fn unescape_from(body: Seq<char>, i: int) -> Result<Seq<char>, ParseErrorKindModel>
    decreases body.len() - i,
{
    if i < 0 || i >= body.len() {
        Ok(Seq::empty())
    } else if body[i] == '\\' {
        if i + 1 < body.len() && (body[i + 1] == '\\' || body[i + 1] == '"') {
            prepend(seq![body[i + 1]], unescape_from(body, i + 2))
        } else {
            Err(ParseErrorKindModel::InvalidEscapeInStringAt((i + 1) as usize))
        }
    } else {
        prepend(seq![body[i]], unescape_from(body, i + 1))
    }
}

/// The text of a string literal: in double quotes, escapes are resolved; in single quotes,
/// the text is taken as it stands.
pub open spec fn quoted_text(s: Seq<char>) -> Result<Seq<char>, ParseErrorKindModel> {
    let body = s.subrange(1, s.len() - 1);
    if s[0] == '"' {
        unescape_from(body, 0)
    } else {
        Ok(body)
    }
}

proof fn lemma_prepend_assoc<E>(a: Seq<char>, b: Seq<char>, r: Result<Seq<char>, E>)
    ensures
        prepend(a, prepend(b, r)) == prepend(a + b, r),
{
    match r {
        Ok(t) => {
            assert(a + (b + t) =~= (a + b) + t);
        },
        Err(e) => {},
    }
}

/// Parses the text of a string literal (in quotes), as `quoted_text` says.
pub fn parse_quoted_text(input: &str) -> (res: Result<String, ParseErrorKind>)
    requires
        input@.len() >= 2,
    ensures
        match quoted_text(input@) {
            Ok(t) => res is Ok && res->Ok_0@ == t,
            Err(e) => res is Err && res->Err_0@ == e,
        },
{
    let body = strip_first_last(input);
    if input.get_char(0) != '"' {
        return Ok(body.to_owned());
    }
    let n = body.unicode_len();
    let mut buf = String::new();
    let mut i: usize = 0;
    proof {
        assert(buf@ + Seq::<char>::empty() =~= Seq::<char>::empty());
        match unescape_from(body@, 0) {
            Ok(t) => assert(buf@ + t =~= t),
            Err(_) => {},
        }
    }
    while i < n
        invariant
            n == body@.len(),
            body@ == input@.subrange(1, input@.len() - 1),
            input@[0] == '"',
            i <= n,
            unescape_from(body@, 0) == prepend(buf@, unescape_from(body@, i as int)),
        decreases n - i,
    {
        let c = body.get_char(i);
        if c == '\\' {
            if i + 1 < n {
                let d = body.get_char(i + 1);
                if d == '\\' || d == '"' {
                    let ghost old_buf = buf@;
                    proof {
                        assert(unescape_from(body@, i as int) == prepend(
                            seq![d],
                            unescape_from(body@, i + 2),
                        ));
                        lemma_prepend_assoc(buf@, seq![d], unescape_from(body@, i + 2));
                    }
                    push_char(&mut buf, d);
                    assert(buf@ =~= old_buf + seq![d]);
                    i = i + 2;
                    continue;
                }
            }
            assert(unescape_from(body@, i as int) == Err::<Seq<char>, ParseErrorKindModel>(
                ParseErrorKindModel::InvalidEscapeInStringAt((i + 1) as usize),
            ));
            return Err(ParseErrorKind::InvalidEscapeInStringAt(i + 1));
        }
        let ghost old_buf = buf@;
        proof {
            assert(unescape_from(body@, i as int) == prepend(seq![c], unescape_from(body@, i + 1)));
            lemma_prepend_assoc(buf@, seq![c], unescape_from(body@, i + 1));
        }
        push_char(&mut buf, c);
        assert(buf@ =~= old_buf + seq![c]);
        i = i + 1;
    }
    proof {
        assert(buf@ + Seq::<char>::empty() =~= buf@);
    }
    Ok(buf)
}

/// The value of a digit in radix 36 (`0`-`9`, then `a`-`z` or `A`-`Z`), if the character is one.
pub open spec fn digit_value(c: char) -> Option<u8> {
    if '0' <= c <= '9' {
        Some((c as u32 - '0' as u32) as u8)
    } else if 'a' <= c <= 'z' {
        Some((c as u32 - 'a' as u32 + 10) as u8)
    } else if 'A' <= c <= 'Z' {
        Some((c as u32 - 'A' as u32 + 10) as u8)
    } else {
        None
    }
}

/// The digits of a number in the given radix, or an error when a character is no digit
/// of it.
pub open spec fn digits_in_radix(s: Seq<char>, radix: u8) -> Result<Seq<u8>, NumberError>
    decreases s.len(),
{
    if s.len() == 0 {
        Ok(Seq::empty())
    } else {
        match digits_in_radix(s.drop_last(), radix) {
            Err(e) => Err(e),
            Ok(d) => match digit_value(s.last()) {
                Some(v) => if v < radix {
                    Ok(d.push(v))
                } else {
                    Err(NumberError::InvalidDigit)
                },
                None => Err(NumberError::InvalidDigit),
            },
        }
    }
}

/// The digits of a number in the given radix: every character must be a digit, there must
/// be at least one, and there must be no leading zero.
pub open spec fn number_digits(s: Seq<char>, radix: u8) -> Result<Seq<u8>, NumberError> {
    match digits_in_radix(s, radix) {
        Err(e) => Err(e),
        Ok(d) => if d.len() == 0 {
            Err(NumberError::Empty)
        } else if d.len() > 1 && d[0] == 0 {
            Err(NumberError::LeadingZero)
        } else {
            Ok(d)
        },
    }
}

fn digit_of(c: char) -> (r: Option<u8>)
    ensures
        r == digit_value(c),
{
    if '0' <= c && c <= '9' {
        Some((c as u32 - '0' as u32) as u8)
    } else if 'a' <= c && c <= 'z' {
        Some((c as u32 - 'a' as u32 + 10) as u8)
    } else if 'A' <= c && c <= 'Z' {
        Some((c as u32 - 'A' as u32 + 10) as u8)
    } else {
        None
    }
}

/// Parses the digits of a number in the given radix, as `number_digits` says.
pub fn parse_number(src: &str, radix: u8) -> (res: Result<Vec<u8>, NumberError>)
    ensures
        match number_digits(src@, radix) {
            Ok(d) => res is Ok && res->Ok_0@ == d,
            Err(e) => res is Err && res->Err_0 == e,
        },
{
    let n = src.unicode_len();
    let mut digits: Vec<u8> = Vec::new();
    let mut i: usize = 0;
    while i < n
        invariant
            n == src@.len(),
            i <= n,
            digits_in_radix(src@.take(i as int), radix) == Ok::<Seq<u8>, NumberError>(digits@),
        decreases n - i,
    {
        let c = src.get_char(i);
        assert(src@.take(i + 1).drop_last() == src@.take(i as int));
        match digit_of(c) {
            Some(v) => {
                if v >= radix {
                    proof {
                        lemma_digits_error_stays(src@, radix, i as int + 1);
                    }
                    return Err(NumberError::InvalidDigit);
                }
                digits.push(v);
            },
            None => {
                proof {
                    lemma_digits_error_stays(src@, radix, i as int + 1);
                }
                return Err(NumberError::InvalidDigit);
            },
        }
        i = i + 1;
    }
    assert(src@.take(n as int) == src@);
    if digits.len() == 0 {
        return Err(NumberError::Empty);
    }
    if digits.len() > 1 && digits[0] == 0 {
        return Err(NumberError::LeadingZero);
    }
    Ok(digits)
}

/// An invalid digit in a prefix makes the whole number invalid.
proof fn lemma_digits_error_stays(s: Seq<char>, radix: u8, k: int)
    requires
        0 <= k <= s.len(),
        digits_in_radix(s.take(k), radix) is Err,
    ensures
        digits_in_radix(s, radix) == digits_in_radix(s.take(k), radix),
    decreases s.len() - k,
{
    if k < s.len() {
        assert(s.take(k + 1).drop_last() == s.take(k));
        lemma_digits_error_stays(s, radix, k + 1);
    } else {
        assert(s.take(k) == s);
    }
}

/// Whether every character is a decimal digit.
pub open spec fn is_decimal(s: Seq<char>) -> bool {
    forall|i: int| 0 <= i < s.len() ==> '0' <= #[trigger] s[i] <= '9'
}

/// The value of a string of decimal digits.
pub open spec fn decimal_value(s: Seq<char>) -> nat
    decreases s.len(),
{
    if s.len() == 0 {
        0
    } else {
        decimal_value(s.drop_last()) * 10 + (s.last() as nat - '0' as nat) as nat
    }
}

/// A longer prefix of a decimal number is worth at least as much.
pub proof fn lemma_decimal_prefix(s: Seq<char>, k: int)
    requires
        0 <= k <= s.len(),
        is_decimal(s),
    ensures
        decimal_value(s.take(k)) <= decimal_value(s),
    decreases s.len() - k,
{
    if k < s.len() {
        lemma_decimal_prefix(s, k + 1);
        assert(s.take(k + 1).drop_last() == s.take(k));
        assert('0' <= s[k] <= '9');
    } else {
        assert(s.take(k) == s);
    }
}

/// The value of a string of decimal digits, if it is at most `max`.
pub fn parse_decimal(s: &str, max: u32) -> (r: Option<u32>)
    requires
        is_decimal(s@),
    ensures
        decimal_value(s@) <= max ==> r == Some(decimal_value(s@) as u32),
        decimal_value(s@) > max ==> r is None,
{
    let n = s.unicode_len();
    let mut acc: u64 = 0;
    let mut i: usize = 0;
    while i < n
        invariant
            n == s@.len(),
            i <= n,
            is_decimal(s@),
            acc == decimal_value(s@.take(i as int)),
            acc <= max,
        decreases n - i,
    {
        let c = s.get_char(i);
        assert('0' <= s@[i as int] <= '9');
        assert(s@.take(i + 1).drop_last() == s@.take(i as int));
        acc = acc * 10 + (c as u32 - '0' as u32) as u64;
        i = i + 1;
        if acc > max as u64 {
            proof {
                lemma_decimal_prefix(s@, i as int);
            }
            return None;
        }
    }
    assert(s@.take(n as int) == s@);
    Some(acc as u32)
}

/// The value of a hexadecimal digit, if the character is one.
pub open spec fn hex_digit(c: char) -> Option<nat> {
    if '0' <= c <= '9' {
        Some((c as nat - '0' as nat) as nat)
    } else if 'a' <= c <= 'f' {
        Some((c as nat - 'a' as nat + 10) as nat)
    } else if 'A' <= c <= 'F' {
        Some((c as nat - 'A' as nat + 10) as nat)
    } else {
        None
    }
}

/// The value of a string of hexadecimal digits, if every character is one.
pub open spec fn hex_value(s: Seq<char>) -> Option<nat>
    decreases s.len(),
{
    if s.len() == 0 {
        Some(0)
    } else {
        match (hex_value(s.drop_last()), hex_digit(s.last())) {
            (Some(v), Some(d)) => Some(v * 16 + d),
            _ => None,
        }
    }
}

/// A hexadecimal number as `u32::from_str_radix(s, 16)` reads it: an optional `+`
/// before at least one digit, with a value that fits in 32 bits.
pub open spec fn hex_u32(s: Seq<char>) -> Option<u32> {
    let digits = if s.len() > 1 && s[0] == '+' { s.skip(1) } else { s };
    if s.len() == 0 {
        None
    } else {
        match hex_value(digits) {
            Some(v) => if v <= u32::MAX {
                Some(v as u32)
            } else {
                None
            },
            None => None,
        }
    }
}

fn hex_digit_of(c: char) -> (r: Option<u32>)
    ensures
        match hex_digit(c) {
            Some(d) => r == Some(d as u32),
            None => r is None,
        },
{
    if '0' <= c && c <= '9' {
        Some(c as u32 - '0' as u32)
    } else if 'a' <= c && c <= 'f' {
        Some(c as u32 - 'a' as u32 + 10)
    } else if 'A' <= c && c <= 'F' {
        Some(c as u32 - 'A' as u32 + 10)
    } else {
        None
    }
}

/// A prefix that is no hexadecimal number, or is worth too much, makes the whole
/// string no number of 32 bits.
proof fn lemma_hex_prefix(s: Seq<char>, k: int)
    requires
        0 <= k <= s.len(),
    ensures
        hex_value(s.take(k)) is None ==> hex_value(s) is None,
        hex_value(s) is Some ==> hex_value(s.take(k))->0 <= hex_value(s)->0,
    decreases s.len() - k,
{
    if k < s.len() {
        lemma_hex_prefix(s, k + 1);
        assert(s.take(k + 1).drop_last() == s.take(k));
    } else {
        assert(s.take(k) == s);
    }
}

/// Parses a hexadecimal number as `hex_u32` says.
pub fn parse_hex_u32(s: &str) -> (r: Option<u32>)
    ensures
        r == hex_u32(s@),
{
    let n = s.unicode_len();
    if n == 0 {
        return None;
    }
    let start: usize = if n > 1 && s.get_char(0) == '+' { 1 } else { 0 };
    let ghost digits = if s@.len() > 1 && s@[0] == '+' { s@.skip(1) } else { s@ };
    assert(digits == s@.subrange(start as int, n as int));
    let mut acc: u64 = 0;
    let mut i: usize = start;
    while i < n
        invariant
            n == s@.len(),
            start <= i <= n,
            n > 0,
            digits == (if s@.len() > 1 && s@[0] == '+' { s@.skip(1) } else { s@ }),
            digits == s@.subrange(start as int, n as int),
            hex_value(digits.take(i - start)) == Some(acc as nat),
            acc <= u32::MAX,
        decreases n - i,
    {
        let c = s.get_char(i);
        assert(digits.take(i - start + 1).drop_last() == digits.take(i - start));
        assert(digits.take(i - start + 1).last() == c);
        match hex_digit_of(c) {
            Some(d) => {
                acc = acc * 16 + d as u64;
                i = i + 1;
                assert(hex_value(digits.take(i - start)) == Some(acc as nat));
                if acc > u32::MAX as u64 {
                    proof {
                        lemma_hex_prefix(digits, i - start);
                    }
                    assert(hex_value(digits) is None || hex_value(digits)->0 > u32::MAX);
                    assert(hex_u32(s@) is None);
                    return None;
                }
            },
            None => {
                proof {
                    lemma_hex_prefix(digits, i - start + 1);
                }
                assert(hex_value(digits) is None);
                assert(hex_u32(s@) is None);
                return None;
            },
        }
    }
    assert(digits.take(n - start) == digits);
    Some(acc as u32)
}

/// Lexicographic order of digit sequences, as `Vec`'s `>` compares them.
pub open spec fn lex_greater(a: Seq<u8>, b: Seq<u8>) -> bool
    decreases a.len(),
{
    if a.len() == 0 {
        false
    } else if b.len() == 0 {
        true
    } else if a[0] != b[0] {
        a[0] > b[0]
    } else {
        lex_greater(a.skip(1), b.skip(1))
    }
}

/// Whether `a` comes after `b` in lexicographic order.
pub fn digits_greater(a: &Vec<u8>, b: &Vec<u8>) -> (r: bool)
    ensures
        r == lex_greater(a@, b@),
{
    let mut i: usize = 0;
    assert(a@.skip(0) =~= a@);
    assert(b@.skip(0) =~= b@);
    while i < a.len() && i < b.len()
        invariant
            i <= a.len(),
            i <= b.len(),
            lex_greater(a@, b@) == lex_greater(a@.skip(i as int), b@.skip(i as int)),
        decreases a.len() - i,
    {
        if a[i] != b[i] {
            return a[i] > b[i];
        }
        assert(a@.skip(i as int).skip(1) =~= a@.skip(i + 1));
        assert(b@.skip(i as int).skip(1) =~= b@.skip(i + 1));
        i = i + 1;
    }
    a.len() > i
}

} // verus!
