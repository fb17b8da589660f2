use vstd::prelude::*;

verus! {

/// Whether `char::is_numeric` holds of a character (Unicode general
/// categories for numbers).
pub uninterp spec fn unicode_numeric(c: char) -> bool;

/// Whether `char::is_alphanumeric` holds of a character (Unicode
/// `Alphabetic` property or a number category).
pub uninterp spec fn unicode_alphanumeric(c: char) -> bool;

/// The characters with Unicode's `White_Space` property, of which
/// `char::is_whitespace` holds.
pub open spec fn unicode_whitespace(c: char) -> bool {
    ('\u{9}' <= c <= '\u{d}') || c == ' ' || c == '\u{85}' || c == '\u{a0}' || c == '\u{1680}'
        || ('\u{2000}' <= c <= '\u{200a}') || c == '\u{2028}' || c == '\u{2029}' || c
        == '\u{202f}' || c == '\u{205f}' || c == '\u{3000}'
}

/// Relies on `char::is_numeric`: a function of the character alone; among
/// the ASCII characters it holds of the digits only.
#[verifier::external_body]
pub(crate) fn is_numeric(c: char) -> (r: bool)
    ensures
        r == unicode_numeric(c),
        c <= '\u{7f}' ==> (r <==> '0' <= c <= '9'),
{
    c.is_numeric()
}

/// Relies on `char::is_alphanumeric`: a function of the character alone;
/// among the ASCII characters it holds of the letters and digits only.
#[verifier::external_body]
pub(crate) fn is_alphanumeric(c: char) -> (r: bool)
    ensures
        r == unicode_alphanumeric(c),
        c <= '\u{7f}' ==> (r <==> ('a' <= c <= 'z' || 'A' <= c <= 'Z' || '0' <= c <= '9')),
{
    c.is_alphanumeric()
}

/// Relies on `char::is_whitespace`: true exactly of the characters with the
/// Unicode `White_Space` property.
#[verifier::external_body]
pub(crate) fn is_whitespace(c: char) -> (r: bool)
    ensures
        r == unicode_whitespace(c),
{
    c.is_whitespace()
}

/// Relies on `String::push`: appends the character at the end.
#[verifier::external_body]
pub(crate) fn push_char(s: &mut String, c: char)
    ensures
        final(s)@ == old(s)@.push(c),
{
    s.push(c)
}

} // verus!
