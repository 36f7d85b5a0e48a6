//! Character-class primitives: the fixed ASCII sets of the grammar
//! (`ALPHA`, `DIGIT`, `HEXDIG`, `unreserved`, `sub-delims`, `gen-delims`,
//! `reserved`), each as a spec predicate on a byte and as an executable
//! parser that recognizes exactly one input byte against the set.

use vstd::prelude::*;
use crate::types::{ErrorKind, ParseError};

verus! {

/// `%`, the byte that opens a percent-encoded triple.
pub const PCT_SIGN: u8 = 37;

/// `.`, the separator of IPv4 octets.
pub const DOT: u8 = 46;

/// `/`, the separator of path segments.
pub const SLASH: u8 = 47;

/// `:`, the separator before a port and inside userinfo.
pub const COLON: u8 = 58;

/// `?`, legal inside query and fragment text.
pub const QUESTION: u8 = 63;

/// `@`, the separator after userinfo.
pub const AT_SIGN: u8 = 64;

/// `[`, the opening bracket of an IP literal.
pub const LBRACKET: u8 = 91;

/// `]`, the closing bracket of an IP literal.
pub const RBRACKET: u8 = 93;

/// ALPHA = %x41-5A / %x61-7A (A-Z / a-z)
pub open spec fn is_alpha(c: u8) -> bool {
    (65 <= c <= 90) || (97 <= c <= 122)
}

/// DIGIT = %x30-39 (0-9)
pub open spec fn is_digit(c: u8) -> bool {
    48 <= c <= 57
}

/// HEXDIG = DIGIT / "A"-"F" / "a"-"f"
pub open spec fn is_hexdig(c: u8) -> bool {
    is_digit(c) || (65 <= c <= 70) || (97 <= c <= 102)
}

/// The numeric value of a hexadecimal digit.
pub open spec fn hexdig_val(c: u8) -> int
    recommends
        is_hexdig(c),
{
    if is_digit(c) {
        c - 48
    } else if 65 <= c <= 70 {
        c - 55
    } else {
        c - 87
    }
}

/// unreserved = ALPHA / DIGIT / "-" / "." / "_" / "~"
pub open spec fn is_unreserved(c: u8) -> bool {
    is_alpha(c) || is_digit(c) || c == 45 || c == 46 || c == 95 || c == 126
}

/// sub-delims = "!" / "$" / "&" / "'" / "(" / ")" / "*" / "+" / "," / ";" / "="
pub open spec fn is_sub_delim(c: u8) -> bool {
    c == 33 || c == 36 || c == 38 || c == 39 || c == 40 || c == 41 || c == 42 || c == 43
        || c == 44 || c == 59 || c == 61
}

/// gen-delims = ":" / "/" / "?" / "#" / "[" / "]" / "@"
pub open spec fn is_gen_delim(c: u8) -> bool {
    c == COLON || c == SLASH || c == QUESTION || c == 35 || c == LBRACKET || c == RBRACKET
        || c == AT_SIGN
}

/// reserved = gen-delims / sub-delims
pub open spec fn is_reserved(c: u8) -> bool {
    is_gen_delim(c) || is_sub_delim(c)
}

/// The plain (single-byte) alternatives of
/// pchar = unreserved / pct-encoded / sub-delims / ":" / "@".
pub open spec fn is_pchar_plain(c: u8) -> bool {
    is_unreserved(c) || is_sub_delim(c) || c == COLON || c == AT_SIGN
}

/// Whether a byte is an ASCII letter.
pub fn is_alpha_u8(c: u8) -> (r: bool)
    ensures
        r == is_alpha(c),
{
    (65 <= c && c <= 90) || (97 <= c && c <= 122)
}

/// Whether a byte is an ASCII decimal digit.
pub fn is_digit_u8(c: u8) -> (r: bool)
    ensures
        r == is_digit(c),
{
    48 <= c && c <= 57
}

/// Whether a byte is an ASCII hexadecimal digit.
pub fn is_hex_digit_u8(c: u8) -> (r: bool)
    ensures
        r == is_hexdig(c),
{
    (48 <= c && c <= 57) || (65 <= c && c <= 70) || (97 <= c && c <= 102)
}

/// Whether a byte is in the unreserved set.
pub fn is_unreserved_u8(c: u8) -> (r: bool)
    ensures
        r == is_unreserved(c),
{
    is_alpha_u8(c) || is_digit_u8(c) || c == 45 || c == 46 || c == 95 || c == 126
}

/// Whether a byte is a sub-delims byte.
pub fn is_sub_delim_u8(c: u8) -> (r: bool)
    ensures
        r == is_sub_delim(c),
{
    c == 33 || c == 36 || c == 38 || c == 39 || c == 40 || c == 41 || c == 42 || c == 43 || c == 44
        || c == 59 || c == 61
}

/// Whether a byte is a gen-delims byte.
pub fn is_gen_delim_u8(c: u8) -> (r: bool)
    ensures
        r == is_gen_delim(c),
{
    c == COLON || c == SLASH || c == QUESTION || c == 35 || c == LBRACKET || c == RBRACKET || c
        == AT_SIGN
}

/// The numeric value of a hexadecimal digit byte.
pub fn hex_value(c: u8) -> (r: u8)
    requires
        is_hexdig(c),
    ensures
        r as int == hexdig_val(c),
        r <= 15,
{
    if c <= 57 {
        c - 48
    } else if c <= 70 {
        c - 55
    } else {
        c - 87
    }
}

/// Recognize one ALPHA byte; consume it and report it as a character.
pub fn alpha(input: &[u8], pos: usize) -> (r: Result<(char, usize), ParseError>)
    requires
        pos <= input@.len(),
    ensures
        match r {
            Ok((c, np)) => pos < input@.len() && is_alpha(input@[pos as int]) && c == (
            input@[pos as int] as char) && np == pos + 1,
            Err(e) => (pos == input@.len() || !is_alpha(input@[pos as int])) && e.kind
                == ErrorKind::CharClass && e.pos == pos,
        },
{
    if pos < input.len() {
        let c: u8 = input[pos];
        if (65 <= c && c <= 90) || (97 <= c && c <= 122) {
            return Ok((c as char, pos + 1));
        }
    }
    Err(ParseError { kind: ErrorKind::CharClass, pos })
}

/// Recognize one DIGIT byte.
pub fn digit(input: &[u8], pos: usize) -> (r: Result<(char, usize), ParseError>)
    requires
        pos <= input@.len(),
    ensures
        match r {
            Ok((c, np)) => pos < input@.len() && is_digit(input@[pos as int]) && c == (
            input@[pos as int] as char) && np == pos + 1,
            Err(e) => (pos == input@.len() || !is_digit(input@[pos as int])) && e.kind
                == ErrorKind::CharClass && e.pos == pos,
        },
{
    if pos < input.len() {
        let c: u8 = input[pos];
        if 48 <= c && c <= 57 {
            return Ok((c as char, pos + 1));
        }
    }
    Err(ParseError { kind: ErrorKind::CharClass, pos })
}

/// Recognize one HEXDIG byte.
pub fn hexdig(input: &[u8], pos: usize) -> (r: Result<(char, usize), ParseError>)
    requires
        pos <= input@.len(),
    ensures
        match r {
            Ok((c, np)) => pos < input@.len() && is_hexdig(input@[pos as int]) && c == (
            input@[pos as int] as char) && np == pos + 1,
            Err(e) => (pos == input@.len() || !is_hexdig(input@[pos as int])) && e.kind
                == ErrorKind::CharClass && e.pos == pos,
        },
{
    if pos < input.len() {
        let c: u8 = input[pos];
        if is_hex_digit_u8(c) {
            return Ok((c as char, pos + 1));
        }
    }
    Err(ParseError { kind: ErrorKind::CharClass, pos })
}

/// Recognize one ALPHA or DIGIT byte.
pub fn alphanumeric(input: &[u8], pos: usize) -> (r: Result<(char, usize), ParseError>)
    requires
        pos <= input@.len(),
    ensures
        match r {
            Ok((c, np)) => pos < input@.len() && (is_alpha(input@[pos as int]) || is_digit(
                input@[pos as int],
            )) && c == (input@[pos as int] as char) && np == pos + 1,
            Err(e) => (pos == input@.len() || !(is_alpha(input@[pos as int]) || is_digit(
                input@[pos as int],
            ))) && e.kind == ErrorKind::CharClass && e.pos == pos,
        },
{
    match alpha(input, pos) {
        Ok(ok) => Ok(ok),
        Err(_) => digit(input, pos),
    }
}

/// Recognize one unreserved byte.
pub fn unreserved(input: &[u8], pos: usize) -> (r: Result<(char, usize), ParseError>)
    requires
        pos <= input@.len(),
    ensures
        match r {
            Ok((c, np)) => pos < input@.len() && is_unreserved(input@[pos as int]) && c == (
            input@[pos as int] as char) && np == pos + 1,
            Err(e) => (pos == input@.len() || !is_unreserved(input@[pos as int])) && e.kind
                == ErrorKind::CharClass && e.pos == pos,
        },
{
    if pos < input.len() {
        let c: u8 = input[pos];
        if (65 <= c && c <= 90) || (97 <= c && c <= 122) || (48 <= c && c <= 57) || c == 45 || c
            == 46 || c == 95 || c == 126 {
            return Ok((c as char, pos + 1));
        }
    }
    Err(ParseError { kind: ErrorKind::CharClass, pos })
}

/// Recognize one sub-delims byte.
pub fn sub_delims(input: &[u8], pos: usize) -> (r: Result<(char, usize), ParseError>)
    requires
        pos <= input@.len(),
    ensures
        match r {
            Ok((c, np)) => pos < input@.len() && is_sub_delim(input@[pos as int]) && c == (
            input@[pos as int] as char) && np == pos + 1,
            Err(e) => (pos == input@.len() || !is_sub_delim(input@[pos as int])) && e.kind
                == ErrorKind::CharClass && e.pos == pos,
        },
{
    if pos < input.len() {
        let c: u8 = input[pos];
        if c == 33 || c == 36 || c == 38 || c == 39 || c == 40 || c == 41 || c == 42 || c == 43
            || c == 44 || c == 59 || c == 61 {
            return Ok((c as char, pos + 1));
        }
    }
    Err(ParseError { kind: ErrorKind::CharClass, pos })
}

/// Recognize one gen-delims byte.
pub fn gen_delims(input: &[u8], pos: usize) -> (r: Result<(char, usize), ParseError>)
    requires
        pos <= input@.len(),
    ensures
        match r {
            Ok((c, np)) => pos < input@.len() && is_gen_delim(input@[pos as int]) && c == (
            input@[pos as int] as char) && np == pos + 1,
            Err(e) => (pos == input@.len() || !is_gen_delim(input@[pos as int])) && e.kind
                == ErrorKind::CharClass && e.pos == pos,
        },
{
    if pos < input.len() {
        let c: u8 = input[pos];
        if c == COLON || c == SLASH || c == QUESTION || c == 35 || c == LBRACKET || c == RBRACKET
            || c == AT_SIGN {
            return Ok((c as char, pos + 1));
        }
    }
    Err(ParseError { kind: ErrorKind::CharClass, pos })
}

/// Recognize one reserved byte.
pub fn reserved(input: &[u8], pos: usize) -> (r: Result<(char, usize), ParseError>)
    requires
        pos <= input@.len(),
    ensures
        match r {
            Ok((c, np)) => pos < input@.len() && is_reserved(input@[pos as int]) && c == (
            input@[pos as int] as char) && np == pos + 1,
            Err(e) => (pos == input@.len() || !is_reserved(input@[pos as int])) && e.kind
                == ErrorKind::CharClass && e.pos == pos,
        },
{
    match gen_delims(input, pos) {
        Ok(ok) => Ok(ok),
        Err(_) => sub_delims(input, pos),
    }
}

} // verus!
