//! The span-accounting algorithm shared by every production that yields
//! a borrowed span: repeatedly match one token — a three-byte
//! percent-encoded triple where one starts, otherwise a single byte of
//! the production's character class — and accumulate the byte offset at
//! which the repetition stops. The original input is then sliced at that
//! offset, so the span is byte-exact against encoded input.

use vstd::prelude::*;
use crate::chars::{
    is_alpha, is_digit, is_hexdig, is_unreserved, is_sub_delim, is_pchar_plain, is_alpha_u8,
    is_digit_u8, is_hex_digit_u8, is_unreserved_u8, is_sub_delim_u8, COLON, AT_SIGN, SLASH,
    QUESTION,
};
use crate::pct::{pct_triple_at, is_pct_triple};

verus! {

/// The repeated-token classes of the grammar, one per production shape.
#[derive(Clone, Copy, PartialEq, Eq, Structural, Debug)]
pub enum CharClass {
    /// ALPHA / DIGIT / "+" / "-" / "." — the tail of a scheme.
    SchemeTail,
    /// unreserved / sub-delims / ":" — the plain bytes of userinfo.
    UserInfo,
    /// unreserved / sub-delims — the plain bytes of a registered name.
    RegName,
    /// The plain bytes of pchar — segments.
    Segment,
    /// unreserved / sub-delims / "@" — segment-nz-nc, colon excluded.
    SegmentNc,
    /// pchar / "/" / "?" — query and fragment text.
    Query,
    /// DIGIT — port and dec-octet runs.
    Digit,
    /// HEXDIG — h16 runs.
    HexDigit,
}

/// Whether a percent-encoded triple counts as a token of the class.
/// The digit runs and the scheme tail admit plain bytes only.
pub open spec fn class_allows_pct(cls: CharClass) -> bool {
    match cls {
        CharClass::SchemeTail => false,
        CharClass::UserInfo => true,
        CharClass::RegName => true,
        CharClass::Segment => true,
        CharClass::SegmentNc => true,
        CharClass::Query => true,
        CharClass::Digit => false,
        CharClass::HexDigit => false,
    }
}

/// The single-byte members of each class.
pub open spec fn in_class(cls: CharClass, c: u8) -> bool {
    match cls {
        CharClass::SchemeTail => is_alpha(c) || is_digit(c) || c == 43 || c == 45 || c == 46,
        CharClass::UserInfo => is_unreserved(c) || is_sub_delim(c) || c == COLON,
        CharClass::RegName => is_unreserved(c) || is_sub_delim(c),
        CharClass::Segment => is_pchar_plain(c),
        CharClass::SegmentNc => is_unreserved(c) || is_sub_delim(c) || c == AT_SIGN,
        CharClass::Query => is_pchar_plain(c) || c == SLASH || c == QUESTION,
        CharClass::Digit => is_digit(c),
        CharClass::HexDigit => is_hexdig(c),
    }
}

/// Whether a token of the class starts at offset `p`: a well-formed
/// percent triple where the class admits one, else a class byte.
pub open spec fn token_at(s: Seq<u8>, p: int, cls: CharClass) -> bool {
    (class_allows_pct(cls) && pct_triple_at(s, p)) || (0 <= p < s.len() && in_class(cls, s[p]))
}

/// The offset at which the token repetition of the class, started at
/// `p`, stops: each step advances by 3 over a percent triple and by 1
/// over a plain class byte.
pub open spec fn run_end(s: Seq<u8>, p: int, cls: CharClass) -> int
    decreases s.len() - p,
{
    if 0 <= p && p < s.len() {
        if class_allows_pct(cls) && pct_triple_at(s, p) {
            run_end(s, p + 3, cls)
        } else if in_class(cls, s[p]) {
            run_end(s, p + 1, cls)
        } else {
            p
        }
    } else {
        p
    }
}

/// A run stays inside the buffer, and it stops only where no further
/// token of the class starts.
pub proof fn lemma_run_end_props(s: Seq<u8>, p: int, cls: CharClass)
    requires
        0 <= p <= s.len(),
    ensures
        p <= run_end(s, p, cls) <= s.len(),
        !token_at(s, run_end(s, p, cls), cls),
    decreases s.len() - p,
{
    if p < s.len() {
        if class_allows_pct(cls) && pct_triple_at(s, p) {
            lemma_run_end_props(s, p + 3, cls);
        } else if in_class(cls, s[p]) {
            lemma_run_end_props(s, p + 1, cls);
        }
    }
}

/// In a class that admits no percent triple, every byte strictly inside
/// the run is a member of the class.
pub proof fn lemma_run_end_chars(s: Seq<u8>, p: int, cls: CharClass)
    requires
        0 <= p <= s.len(),
        !class_allows_pct(cls),
    ensures
        forall|q: int| p <= q < run_end(s, p, cls) ==> #[trigger] in_class(cls, s[q]),
    decreases s.len() - p,
{
    if p < s.len() && in_class(cls, s[p]) {
        lemma_run_end_chars(s, p + 1, cls);
    }
}

/// Whether a percent triple counts as a token of the class.
pub fn class_allows_pct_exec(cls: CharClass) -> (r: bool)
    ensures
        r == class_allows_pct(cls),
{
    match cls {
        CharClass::SchemeTail => false,
        CharClass::UserInfo => true,
        CharClass::RegName => true,
        CharClass::Segment => true,
        CharClass::SegmentNc => true,
        CharClass::Query => true,
        CharClass::Digit => false,
        CharClass::HexDigit => false,
    }
}

/// Whether a byte is a single-byte member of the class.
pub fn in_class_exec(cls: CharClass, c: u8) -> (r: bool)
    ensures
        r == in_class(cls, c),
{
    match cls {
        CharClass::SchemeTail => is_alpha_u8(c) || is_digit_u8(c) || c == 43 || c == 45 || c == 46,
        CharClass::UserInfo => is_unreserved_u8(c) || is_sub_delim_u8(c) || c == COLON,
        CharClass::RegName => is_unreserved_u8(c) || is_sub_delim_u8(c),
        CharClass::Segment => is_unreserved_u8(c) || is_sub_delim_u8(c) || c == COLON || c
            == AT_SIGN,
        CharClass::SegmentNc => is_unreserved_u8(c) || is_sub_delim_u8(c) || c == AT_SIGN,
        CharClass::Query => is_unreserved_u8(c) || is_sub_delim_u8(c) || c == COLON || c == AT_SIGN
            || c == SLASH || c == QUESTION,
        CharClass::Digit => is_digit_u8(c),
        CharClass::HexDigit => is_hex_digit_u8(c),
    }
}

/// Run the span-accounting loop of the class from `pos` and report the
/// offset where it stops.
pub fn scan(input: &[u8], pos: usize, cls: CharClass) -> (end: usize)
    requires
        pos <= input@.len(),
    ensures
        end as int == run_end(input@, pos as int, cls),
        pos <= end <= input@.len(),
{
    let mut cur: usize = pos;
    loop
        invariant
            pos <= cur <= input@.len(),
            run_end(input@, pos as int, cls) == run_end(input@, cur as int, cls),
        ensures
            cur as int == run_end(input@, pos as int, cls),
        decreases input@.len() - cur,
    {
        if cur == input.len() {
            break;
        }
        if class_allows_pct_exec(cls) && is_pct_triple(input, cur) {
            cur = cur + 3;
        } else if in_class_exec(cls, input[cur]) {
            cur = cur + 1;
        } else {
            break;
        }
    }
    cur
}

} // verus!
