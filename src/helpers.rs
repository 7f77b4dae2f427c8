//! Small byte and text helpers shared by the renderers.
use vstd::prelude::*;
use vstd::string::StringExecFns;

verus! {

/// Whether `b` is one of the bytes that ASCII calls whitespace:
/// space, tab, line feed, form feed and carriage return.
pub open spec fn is_ascii_whitespace_byte(b: u8) -> bool {
    b == 0x20 || b == 0x09 || b == 0x0a || b == 0x0c || b == 0x0d
}

/// Whether `b` is a visible ASCII character, `!` through `~`.
pub open spec fn is_ascii_graphic_byte(b: u8) -> bool {
    0x21 <= b <= 0x7e
}

/// Whether `b` is shown as itself in the character column: every byte
/// that is graphic, or that is not whitespace.
pub open spec fn is_printable(b: u8) -> bool {
    is_ascii_graphic_byte(b) || !is_ascii_whitespace_byte(b)
}

/// Returns whether the given byte is shown as a character of its own.
pub fn is_printable_ascii_character(byte: &u8) -> (r: bool)
    ensures
        r == is_printable(*byte),
{
    let b = *byte;
    let graphic = 0x21 <= b && b <= 0x7e;
    let whitespace = b == 0x20 || b == 0x09 || b == 0x0a || b == 0x0c || b == 0x0d;
    graphic || !whitespace
}

/// Relies on `String::push`: appends one character to the end of the string.
#[verifier::external_body]
pub(crate) fn push_char(s: &mut String, c: char)
    ensures
        final(s)@ == old(s)@.push(c),
{
    s.push(c)
}

/// Appends the characters of `t` to `s`.
pub(crate) fn push_str(s: &mut String, t: &str)
    ensures
        final(s)@ == old(s)@ + t@,
{
    s.append(t);
}

} // verus!
