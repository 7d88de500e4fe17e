//! Character classes and conversions between strings and character vectors.
use vstd::prelude::*;

verus! {

/// The characters that `char::is_whitespace` accepts: those with the Unicode
/// `White_Space` property.
pub open spec fn is_white_space(c: char) -> bool {
    ||| '\u{9}' <= c <= '\u{d}'
    ||| c == ' '
    ||| c == '\u{85}'
    ||| c == '\u{a0}'
    ||| c == '\u{1680}'
    ||| '\u{2000}' <= c <= '\u{200a}'
    ||| c == '\u{2028}'
    ||| c == '\u{2029}'
    ||| c == '\u{202f}'
    ||| c == '\u{205f}'
    ||| c == '\u{3000}'
}

/// The characters that `char::is_digit(10)` accepts.
pub open spec fn is_decimal_digit(c: char) -> bool {
    '0' <= c <= '9'
}

/// The ASCII letters, `'a'..='z'` and `'A'..='Z'`.
pub open spec fn is_ascii_letter(c: char) -> bool {
    ('a' <= c <= 'z') || ('A' <= c <= 'Z')
}

/// Whether `char::is_alphabetic` holds of `c` (the Unicode `Alphabetic` property).
pub uninterp spec fn char_alphabetic(c: char) -> bool;

/// Whether `char::is_numeric` holds of `c` (the Unicode general categories `Nd`, `Nl`, `No`).
pub uninterp spec fn char_numeric(c: char) -> bool;

/// Whether `c` is white space, as `char::is_whitespace` decides it (the
/// `White_Space` list, written out).
pub(crate) fn char_is_whitespace(c: char) -> (b: bool)
    ensures
        b == is_white_space(c),
{
    ('\u{9}' <= c && c <= '\u{d}') || c == ' ' || c == '\u{85}' || c == '\u{a0}' || c == '\u{1680}' || (
    '\u{2000}' <= c && c <= '\u{200a}') || c == '\u{2028}' || c == '\u{2029}' || c == '\u{202f}' || c
        == '\u{205f}' || c == '\u{3000}'
}

/// Whether `c` is one of `'0'..='9'`, as `char::is_digit(10)` decides it.
pub(crate) fn char_is_decimal_digit(c: char) -> (b: bool)
    ensures
        b == is_decimal_digit(c),
{
    '0' <= c && c <= '9'
}

/// Calls `char::is_alphabetic`. Outside ASCII its result is named, not
/// stated; within ASCII std answers exactly for the letters.
#[verifier::external_body]
pub(crate) fn char_is_alphabetic(c: char) -> (b: bool)
    ensures
        b == char_alphabetic(c),
        c <= '\x7f' ==> (b <==> is_ascii_letter(c)),
{
    c.is_alphabetic()
}

/// Calls `char::is_alphanumeric`, which std documents as `is_alphabetic() || is_numeric()`;
/// within ASCII that is exactly the letters and the digits.
#[verifier::external_body]
pub(crate) fn char_is_alphanumeric(c: char) -> (b: bool)
    ensures
        b == (char_alphabetic(c) || char_numeric(c)),
        c <= '\x7f' ==> (b <==> (is_ascii_letter(c) || is_decimal_digit(c))),
{
    c.is_alphanumeric()
}

/// Appends one character to a string (`String::push`).
#[verifier::external_body]
pub(crate) fn push_char(s: &mut String, c: char)
    ensures
        final(s)@ == old(s)@.push(c),
{
    s.push(c)
}

/// The characters of `s`, in order.
pub fn chars_of(s: &str) -> (v: Vec<char>)
    ensures
        v@ == s@,
{
    let n = s.unicode_len();
    let mut v: Vec<char> = Vec::new();
    let mut i: usize = 0;
    while i < n
        invariant
            n == s@.len(),
            i <= n,
            v@ == s@.subrange(0, i as int),
        decreases n - i,
    {
        let c = s.get_char(i);
        v.push(c);
        assert(v@ =~= s@.subrange(0, i + 1));
        i = i + 1;
    }
    assert(v@ =~= s@);
    v
}

/// Whether `s` is `lit`.
pub fn is_text(s: &String, lit: &str) -> (b: bool)
    ensures
        b == (s@ == lit@),
{
    let l = lit.to_owned();
    *s == l
}

/// The decimal digits of `n`, most significant first, without leading zeros
/// (and `"0"` for zero).
pub open spec fn decimal_digits(n: nat) -> Seq<char>
    decreases n,
{
    if n < 10 {
        seq![(('0' as int) + n) as char]
    } else {
        decimal_digits(n / 10).push((('0' as int) + (n % 10)) as char)
    }
}

/// How `Display` writes an `i64`: a minus sign for negative numbers, then the digits.
pub open spec fn decimal_text(n: i64) -> Seq<char> {
    if n < 0 {
        seq!['-'] + decimal_digits((-(n as int)) as nat)
    } else {
        decimal_digits(n as nat)
    }
}

/// The digits of `n`.
fn digits_of(n: u64) -> (s: String)
    ensures
        s@ == decimal_digits(n as nat),
    decreases n,
{
    if n < 10 {
        let mut s = String::new();
        let c = digit_char(n as u8);
        push_char(&mut s, c);
        assert(s@ =~= decimal_digits(n as nat));
        s
    } else {
        let mut s = digits_of(n / 10);
        let c = digit_char((n % 10) as u8);
        push_char(&mut s, c);
        s
    }
}

/// The character of a decimal digit.
fn digit_char(d: u8) -> (c: char)
    requires
        d < 10,
    ensures
        c == (('0' as int) + d) as char,
{
    if d == 0 { '0' } else if d == 1 { '1' } else if d == 2 { '2' } else if d == 3 { '3' }
    else if d == 4 { '4' } else if d == 5 { '5' } else if d == 6 { '6' } else if d == 7 { '7' }
    else if d == 8 { '8' } else { '9' }
}

/// `n` written in decimal, as `Display` writes it.
pub fn i64_text(n: i64) -> (s: String)
    ensures
        s@ == decimal_text(n),
{
    if n < 0 {
        let m: u64 = if n == i64::MIN {
            0x8000_0000_0000_0000u64
        } else {
            (-n) as u64
        };
        let digits = digits_of(m);
        let mut s = String::new();
        push_char(&mut s, '-');
        s.append(digits.as_str());
        assert(s@ =~= decimal_text(n));
        s
    } else {
        digits_of(n as u64)
    }
}

/// `n` written in decimal, as `Display` writes it.
pub fn u64_text(n: u64) -> (s: String)
    ensures
        s@ == decimal_digits(n as nat),
{
    digits_of(n)
}

} // verus!
