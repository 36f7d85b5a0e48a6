//! The percent-encoding codec: recognition of the three-byte sequence
//! `% HEXDIG HEXDIG` and the decoded code point it stands for. Spans are
//! always sliced from the original encoded bytes; the decoded value is
//! used by higher layers only to confirm that a triple is well formed.

use vstd::prelude::*;
use crate::chars::{is_hexdig, hexdig_val, is_hex_digit_u8, hex_value, PCT_SIGN};
use crate::types::{ErrorKind, ParseError};

verus! {

/// A well-formed percent-encoded triple starts at offset `p` of the
/// buffer: a `%` followed by two hexadecimal digits, all inside bounds.
pub open spec fn pct_triple_at(s: Seq<u8>, p: int) -> bool {
    &&& 0 <= p
    &&& p + 3 <= s.len()
    &&& s[p] == PCT_SIGN
    &&& is_hexdig(s[p + 1])
    &&& is_hexdig(s[p + 2])
}

/// The code point a well-formed triple encodes.
pub open spec fn pct_decoded_val(s: Seq<u8>, p: int) -> int
    recommends
        pct_triple_at(s, p),
{
    hexdig_val(s[p + 1]) * 16 + hexdig_val(s[p + 2])
}

/// The exact error a malformed triple at `p` produces: a missing `%` or a
/// bad hex digit is a class mismatch at the offending offset, while a
/// triple cut off by the end of the buffer is reported as incomplete.
pub open spec fn pct_err(s: Seq<u8>, p: int) -> ParseError
    recommends
        0 <= p <= s.len(),
        !pct_triple_at(s, p),
{
    if p >= s.len() || s[p] != PCT_SIGN {
        ParseError { kind: ErrorKind::CharClass, pos: p as usize }
    } else if p + 1 >= s.len() {
        ParseError { kind: ErrorKind::Incomplete, pos: s.len() as usize }
    } else if !is_hexdig(s[p + 1]) {
        ParseError { kind: ErrorKind::CharClass, pos: (p + 1) as usize }
    } else if p + 2 >= s.len() {
        ParseError { kind: ErrorKind::Incomplete, pos: s.len() as usize }
    } else {
        ParseError { kind: ErrorKind::CharClass, pos: (p + 2) as usize }
    }
}

/// Whether a well-formed percent-encoded triple starts at `pos`.
pub fn is_pct_triple(input: &[u8], pos: usize) -> (r: bool)
    requires
        pos <= input@.len(),
    ensures
        r == pct_triple_at(input@, pos as int),
{
    if pos < input.len() && input[pos] == PCT_SIGN && input.len() - pos >= 3 {
        is_hex_digit_u8(input[pos + 1]) && is_hex_digit_u8(input[pos + 2])
    } else {
        false
    }
}

/// pct-encoded = "%" HEXDIG HEXDIG
///
/// Recognize one percent-encoded triple, consume its three bytes and
/// report the decoded code point.
pub fn pct_encoded(input: &[u8], pos: usize) -> (r: Result<(char, usize), ParseError>)
    requires
        pos <= input@.len(),
    ensures
        match r {
            Ok((c, np)) => pct_triple_at(input@, pos as int) && np == pos + 3 && c as int
                == pct_decoded_val(input@, pos as int),
            Err(e) => !pct_triple_at(input@, pos as int) && e == pct_err(input@, pos as int),
        },
{
    if pos >= input.len() || input[pos] != PCT_SIGN {
        return Err(ParseError { kind: ErrorKind::CharClass, pos });
    }
    if input.len() - pos < 2 {
        return Err(ParseError { kind: ErrorKind::Incomplete, pos: input.len() });
    }
    let hi: u8 = input[pos + 1];
    if !is_hex_digit_u8(hi) {
        return Err(ParseError { kind: ErrorKind::CharClass, pos: pos + 1 });
    }
    if input.len() - pos < 3 {
        return Err(ParseError { kind: ErrorKind::Incomplete, pos: input.len() });
    }
    let lo: u8 = input[pos + 2];
    if !is_hex_digit_u8(lo) {
        return Err(ParseError { kind: ErrorKind::CharClass, pos: pos + 2 });
    }
    let v: u8 = hex_value(hi) * 16 + hex_value(lo);
    Ok((v as char, pos + 3))
}

} // verus!
