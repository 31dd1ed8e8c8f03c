//! Character classification used by the encoder, decoder and analyzer.

use vstd::prelude::*;

verus! {

/// A character that percent-encoding leaves unescaped: an ASCII letter, an
/// ASCII digit, or one of the unreserved marks `-`, `_`, `.`, `~`.
pub open spec fn is_unreserved(c: char) -> bool {
    ('A' <= c && c <= 'Z') || ('a' <= c && c <= 'z') || ('0' <= c && c <= '9') || c == '-' || c
        == '_' || c == '.' || c == '~'
}

/// A case-insensitive hexadecimal digit.
pub open spec fn is_hex_digit(c: char) -> bool {
    ('0' <= c && c <= '9') || ('A' <= c && c <= 'F') || ('a' <= c && c <= 'f')
}

/// The numeric value of a hexadecimal digit.
pub open spec fn hex_value(c: char) -> nat
    recommends
        is_hex_digit(c),
{
    if '0' <= c && c <= '9' {
        (c as nat - 48) as nat
    } else if 'A' <= c && c <= 'F' {
        (c as nat - 55) as nat
    } else if 'a' <= c && c <= 'f' {
        (c as nat - 87) as nat
    } else {
        0
    }
}

/// The uppercase hexadecimal digit for a value below sixteen.
pub open spec fn hex_upper(v: u8) -> char
    recommends
        v < 16,
{
    if v < 10 {
        (v + 48) as char
    } else {
        (v + 55) as char
    }
}

/// The decimal digit character for a value below ten.
pub open spec fn decimal_char(v: nat) -> char
    recommends
        v < 10,
{
    (v + 48) as char
}

/// The low eight bits of a character's code point.
pub open spec fn low_byte(c: char) -> u8 {
    ((c as int) % 256) as u8
}

/// Runtime test for `is_unreserved`.
pub fn unreserved(c: char) -> (b: bool)
    ensures
        b == is_unreserved(c),
{
    let u = c as u32;
    (65 <= u && u <= 90) || (97 <= u && u <= 122) || (48 <= u && u <= 57) || u == 45 || u == 95
        || u == 46 || u == 126
}

/// Runtime hexadecimal digit recognizer: the digit's value, or `None` where
/// the character is not a hexadecimal digit.
pub fn hex_digit_value(c: char) -> (r: Option<u8>)
    ensures
        r is Some <==> is_hex_digit(c),
        r is Some ==> r->0 == hex_value(c) && r->0 < 16,
{
    let u = c as u32;
    if 48 <= u && u <= 57 {
        Some((u - 48) as u8)
    } else if 65 <= u && u <= 70 {
        Some((u - 55) as u8)
    } else if 97 <= u && u <= 102 {
        Some((u - 87) as u8)
    } else {
        None
    }
}

/// Runtime rendering of a value below sixteen as an uppercase hex digit.
pub fn hex_upper_char(v: u8) -> (c: char)
    requires
        v < 16,
    ensures
        c == hex_upper(v),
{
    if v < 10 {
        (v + 48) as char
    } else {
        (v + 55) as char
    }
}

/// Runtime rendering of a value below ten as a decimal digit.
pub fn decimal_digit_char(v: u8) -> (c: char)
    requires
        v < 10,
    ensures
        c == decimal_char(v as nat),
{
    (v + 48) as char
}

} // verus!
