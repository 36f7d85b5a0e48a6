//! The path productions: pchar, the three segment shapes, and the five
//! mutually exclusive path forms, tried in the grammar's order.

use vstd::prelude::*;
use crate::chars::{
    is_pchar_plain, is_unreserved_u8, is_sub_delim_u8, COLON, AT_SIGN, SLASH, PCT_SIGN,
};
use crate::pct::{pct_triple_at, pct_decoded_val, pct_err, pct_encoded, is_pct_triple};
use crate::scan::{CharClass, in_class_exec, token_at, run_end, scan, lemma_run_end_props};
use crate::types::{ErrorKind, ParseError, Path, Span};

verus! {

/// The error a failed pchar token at `p` produces: behind a `%` the
/// percent-codec's own report, otherwise a class mismatch at `p`.
pub open spec fn pchar_err(s: Seq<u8>, p: int) -> ParseError {
    if 0 <= p < s.len() && s[p] == PCT_SIGN {
        pct_err(s, p)
    } else {
        ParseError { kind: ErrorKind::CharClass, pos: p as usize }
    }
}

/// pchar = unreserved / pct-encoded / sub-delims / ":" / "@"
///
/// Recognize one pchar token: a plain byte consumes one position, a
/// percent-encoded triple three; the reported character is the decoded
/// code point in the triple's case.
pub fn pchar(input: &[u8], pos: usize) -> (r: Result<(char, usize), ParseError>)
    requires
        pos <= input@.len(),
    ensures
        match r {
            Ok((c, np)) => if pos < input@.len() && is_pchar_plain(input@[pos as int]) {
                c == (input@[pos as int] as char) && np == pos + 1
            } else {
                pct_triple_at(input@, pos as int) && c as int == pct_decoded_val(
                    input@,
                    pos as int,
                ) && np == pos + 3
            },
            Err(e) => !token_at(input@, pos as int, CharClass::Segment) && e == pchar_err(
                input@,
                pos as int,
            ),
        },
{
    if pos < input.len() {
        let c: u8 = input[pos];
        if is_unreserved_u8(c) || is_sub_delim_u8(c) || c == COLON || c == AT_SIGN {
            return Ok((c as char, pos + 1));
        }
        if c == PCT_SIGN {
            return pct_encoded(input, pos);
        }
    }
    Err(ParseError { kind: ErrorKind::CharClass, pos })
}

/// segment = *pchar
///
/// Always accepts; the span covers the pchar run measured by the
/// span-accounting loop.
pub fn segment(input: &[u8], pos: usize) -> (r: Result<(Span, usize), ParseError>)
    requires
        pos <= input@.len(),
    ensures
        match r {
            Ok((sp, np)) => sp.start == pos && sp.end as int == run_end(
                input@,
                pos as int,
                CharClass::Segment,
            ) && np == sp.end && np <= input@.len(),
            Err(_) => false,
        },
{
    let e = scan(input, pos, CharClass::Segment);
    Ok((Span { start: pos, end: e }, e))
}

/// segment-nz = 1*pchar
pub fn segment_nz(input: &[u8], pos: usize) -> (r: Result<(Span, usize), ParseError>)
    requires
        pos <= input@.len(),
    ensures
        match r {
            Ok((sp, np)) => run_end(input@, pos as int, CharClass::Segment) > pos && sp.start
                == pos && sp.end as int == run_end(input@, pos as int, CharClass::Segment) && np
                == sp.end && np <= input@.len(),
            Err(e) => run_end(input@, pos as int, CharClass::Segment) == pos && e == (ParseError {
                kind: ErrorKind::CharClass,
                pos,
            }),
        },
{
    let e = scan(input, pos, CharClass::Segment);
    if e == pos {
        return Err(ParseError { kind: ErrorKind::CharClass, pos });
    }
    Ok((Span { start: pos, end: e }, e))
}

/// segment-nz-nc = 1*( unreserved / pct-encoded / sub-delims / "@" )
///
/// A non-empty segment with no colon.
pub fn segment_nz_nc(input: &[u8], pos: usize) -> (r: Result<(Span, usize), ParseError>)
    requires
        pos <= input@.len(),
    ensures
        match r {
            Ok((sp, np)) => run_end(input@, pos as int, CharClass::SegmentNc) > pos && sp.start
                == pos && sp.end as int == run_end(input@, pos as int, CharClass::SegmentNc) && np
                == sp.end && np <= input@.len(),
            Err(e) => run_end(input@, pos as int, CharClass::SegmentNc) == pos && e == (ParseError {
                kind: ErrorKind::CharClass,
                pos,
            }),
        },
{
    let e = scan(input, pos, CharClass::SegmentNc);
    if e == pos {
        return Err(ParseError { kind: ErrorKind::CharClass, pos });
    }
    Ok((Span { start: pos, end: e }, e))
}

/// Where the repetition *( "/" segment ) started at `p` stops: each
/// round consumes the slash and the following (possibly empty) segment
/// run.
pub open spec fn abempty_end(s: Seq<u8>, p: int) -> int
    decreases s.len() - p,
{
    if 0 <= p && p < s.len() && s[p] == SLASH {
        let e = run_end(s, p + 1, CharClass::Segment);
        if p + 1 <= e && e <= s.len() {
            abempty_end(s, e)
        } else {
            p + 1
        }
    } else {
        p
    }
}

/// The repetition stays inside the buffer.
pub proof fn lemma_abempty_end_bounds(s: Seq<u8>, p: int)
    requires
        0 <= p <= s.len(),
    ensures
        p <= abempty_end(s, p) <= s.len(),
    decreases s.len() - p,
{
    if p < s.len() && s[p] == SLASH {
        lemma_run_end_props(s, p + 1, CharClass::Segment);
        lemma_abempty_end_bounds(s, run_end(s, p + 1, CharClass::Segment));
    }
}

/// path-abempty = *( "/" segment )
///
/// Always accepts, possibly with an empty span.
pub fn path_abempty(input: &[u8], pos: usize) -> (r: Result<(Path, usize), ParseError>)
    requires
        pos <= input@.len(),
    ensures
        match r {
            Ok((pa, np)) => pa == (Path::AbEmpty(Span { start: pos, end: np })) && np as int
                == abempty_end(input@, pos as int) && pos <= np <= input@.len(),
            Err(_) => false,
        },
{
    let mut cur: usize = pos;
    loop
        invariant
            pos <= cur <= input@.len(),
            abempty_end(input@, pos as int) == abempty_end(input@, cur as int),
        ensures
            cur as int == abempty_end(input@, pos as int),
        decreases input@.len() - cur,
    {
        if cur == input.len() {
            break;
        }
        if input[cur] != SLASH {
            break;
        }
        let e = scan(input, cur + 1, CharClass::Segment);
        cur = e;
    }
    Ok((Path::AbEmpty(Span { start: pos, end: cur }), cur))
}

/// Where path-absolute at `p` ends: the leading slash alone when no
/// rootless body follows it, else the rootless body's end.
pub open spec fn path_absolute_end(s: Seq<u8>, p: int) -> int {
    if run_end(s, p + 1, CharClass::Segment) == p + 1 {
        p + 1
    } else {
        abempty_end(s, run_end(s, p + 1, CharClass::Segment))
    }
}

/// path-absolute = "/" [ segment-nz *( "/" segment ) ]
pub fn path_absolute(input: &[u8], pos: usize) -> (r: Result<(Path, usize), ParseError>)
    requires
        pos <= input@.len(),
    ensures
        match r {
            Ok((pa, np)) => pos < input@.len() && input@[pos as int] == SLASH && pa == (
            Path::Absolute(Span { start: pos, end: np })) && np as int == path_absolute_end(
                input@,
                pos as int,
            ) && pos < np <= input@.len(),
            Err(e) => (pos == input@.len() || input@[pos as int] != SLASH) && e == (ParseError {
                kind: ErrorKind::CharClass,
                pos,
            }),
        },
{
    if pos == input.len() || input[pos] != SLASH {
        return Err(ParseError { kind: ErrorKind::CharClass, pos });
    }
    let nz = scan(input, pos + 1, CharClass::Segment);
    if nz == pos + 1 {
        return Ok((Path::Absolute(Span { start: pos, end: pos + 1 }), pos + 1));
    }
    let e = match path_abempty(input, nz) {
        Ok((_, np)) => np,
        Err(err) => {
            return Err(err);
        },
    };
    Ok((Path::Absolute(Span { start: pos, end: e }), e))
}

/// Where path-rootless at `p` ends: the non-empty leading segment, then
/// the *( "/" segment ) repetition.
pub open spec fn path_rootless_end(s: Seq<u8>, p: int) -> int {
    abempty_end(s, run_end(s, p, CharClass::Segment))
}

/// path-rootless = segment-nz *( "/" segment )
pub fn path_rootless(input: &[u8], pos: usize) -> (r: Result<(Path, usize), ParseError>)
    requires
        pos <= input@.len(),
    ensures
        match r {
            Ok((pa, np)) => run_end(input@, pos as int, CharClass::Segment) > pos && pa == (
            Path::Rootless(Span { start: pos, end: np })) && np as int == path_rootless_end(
                input@,
                pos as int,
            ) && pos < np <= input@.len(),
            Err(e) => run_end(input@, pos as int, CharClass::Segment) == pos && e == (ParseError {
                kind: ErrorKind::CharClass,
                pos,
            }),
        },
{
    let nz = match segment_nz(input, pos) {
        Ok((_, np)) => np,
        Err(err) => {
            return Err(err);
        },
    };
    let e = match path_abempty(input, nz) {
        Ok((_, np)) => np,
        Err(err) => {
            return Err(err);
        },
    };
    proof {
        lemma_abempty_end_bounds(input@, nz as int);
    }
    Ok((Path::Rootless(Span { start: pos, end: e }), e))
}

/// Where path-noscheme at `p` ends: the non-empty colon-free leading
/// segment, then the *( "/" segment ) repetition.
pub open spec fn path_noscheme_end(s: Seq<u8>, p: int) -> int {
    abempty_end(s, run_end(s, p, CharClass::SegmentNc))
}

/// path-noscheme = segment-nz-nc *( "/" segment )
pub fn path_noscheme(input: &[u8], pos: usize) -> (r: Result<(Path, usize), ParseError>)
    requires
        pos <= input@.len(),
    ensures
        match r {
            Ok((pa, np)) => run_end(input@, pos as int, CharClass::SegmentNc) > pos && pa == (
            Path::NoScheme(Span { start: pos, end: np })) && np as int == path_noscheme_end(
                input@,
                pos as int,
            ) && pos < np <= input@.len(),
            Err(e) => run_end(input@, pos as int, CharClass::SegmentNc) == pos && e == (ParseError {
                kind: ErrorKind::CharClass,
                pos,
            }),
        },
{
    let nz = match segment_nz_nc(input, pos) {
        Ok((_, np)) => np,
        Err(err) => {
            return Err(err);
        },
    };
    let e = match path_abempty(input, nz) {
        Ok((_, np)) => np,
        Err(err) => {
            return Err(err);
        },
    };
    proof {
        lemma_abempty_end_bounds(input@, nz as int);
    }
    Ok((Path::NoScheme(Span { start: pos, end: e }), e))
}

/// path-empty = 0<pchar>
///
/// Accepts, consuming nothing, exactly when no pchar token starts at
/// `pos`.
pub fn path_empty(input: &[u8], pos: usize) -> (r: Result<(Path, usize), ParseError>)
    requires
        pos <= input@.len(),
    ensures
        match r {
            Ok((pa, np)) => !token_at(input@, pos as int, CharClass::Segment) && pa == Path::Empty
                && np == pos,
            Err(e) => token_at(input@, pos as int, CharClass::Segment) && e == (ParseError {
                kind: ErrorKind::CharClass,
                pos,
            }),
        },
{
    if pos < input.len() {
        let c: u8 = input[pos];
        if in_class_exec(CharClass::Segment, c) || is_pct_triple(input, pos) {
            return Err(ParseError { kind: ErrorKind::CharClass, pos });
        }
    }
    Ok((Path::Empty, pos))
}

/// path = path-abempty / path-absolute / path-noscheme / path-rootless / path-empty
///
/// The alternatives are tried in this order; the first, path-abempty,
/// never fails, so it is always the one taken.
pub fn path(input: &[u8], pos: usize) -> (r: Result<(Path, usize), ParseError>)
    requires
        pos <= input@.len(),
    ensures
        match r {
            Ok((pa, np)) => pa == (Path::AbEmpty(Span { start: pos, end: np })) && np as int
                == abempty_end(input@, pos as int) && pos <= np <= input@.len(),
            Err(_) => false,
        },
{
    path_abempty(input, pos)
}

} // verus!
