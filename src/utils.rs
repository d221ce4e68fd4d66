use vstd::prelude::*;

verus! {

pub open spec fn is_digit_spec(c: char) -> bool {
    '0' <= c && c <= '9'
}

pub open spec fn is_alpha_spec(c: char) -> bool {
    ('a' <= c && c <= 'z') || ('A' <= c && c <= 'Z') || c == '_'
}

pub open spec fn is_alphanumeric_spec(c: char) -> bool {
    is_alpha_spec(c) || is_digit_spec(c)
}

/// ASCII whitespace: space, tab, line feed, form feed and carriage return.
pub open spec fn is_whitespace_spec(c: char) -> bool {
    c == ' ' || c == '\t' || c == '\n' || c == '\x0C' || c == '\r'
}

/// An ASCII decimal digit.
pub fn is_digit(ch: char) -> (r: bool)
    ensures
        r == is_digit_spec(ch),
{
    '0' <= ch && ch <= '9'
}

/// An ASCII letter or an underscore: what may start an identifier.
pub fn is_alpha(ch: char) -> (r: bool)
    ensures
        r == is_alpha_spec(ch),
{
    ('a' <= ch && ch <= 'z') || ('A' <= ch && ch <= 'Z') || ch == '_'
}

/// What may continue an identifier.
pub fn is_alphanumeric(ch: char) -> (r: bool)
    ensures
        r == is_alphanumeric_spec(ch),
{
    is_alpha(ch) || is_digit(ch)
}

/// ASCII whitespace, which the scanner skips.
pub fn is_whitespace(ch: char) -> (r: bool)
    ensures
        r == is_whitespace_spec(ch),
{
    ch == ' ' || ch == '\t' || ch == '\n' || ch == '\x0C' || ch == '\r'
}

} // verus!
