//! scheme, query and fragment. Query and fragment share one character
//! set and one parser; they differ only in the tag the caller assigns.

use vstd::prelude::*;
use crate::chars::{is_alpha, is_alpha_u8};
use crate::scan::{CharClass, run_end, scan};
use crate::types::{ErrorKind, ParseError, Span, UriPart};

verus! {

/// Whether a scheme starts at `p`: one leading letter is mandatory.
pub open spec fn scheme_ok(s: Seq<u8>, p: int) -> bool {
    0 <= p < s.len() && is_alpha(s[p])
}

/// Where the scheme at `p` ends: the letter, then the run of
/// ALPHA / DIGIT / "+" / "-" / ".".
pub open spec fn scheme_end(s: Seq<u8>, p: int) -> int {
    run_end(s, p + 1, CharClass::SchemeTail)
}

/// scheme = ALPHA *( ALPHA / DIGIT / "+" / "-" / "." )
pub fn scheme(input: &[u8], pos: usize) -> (r: Result<(Span, usize), ParseError>)
    requires
        pos <= input@.len(),
    ensures
        match r {
            Ok((sp, np)) => scheme_ok(input@, pos as int) && sp.start == pos && sp.end as int
                == scheme_end(input@, pos as int) && np == sp.end && pos < np <= input@.len(),
            Err(e) => !scheme_ok(input@, pos as int) && e == (ParseError {
                kind: ErrorKind::CharClass,
                pos,
            }),
        },
{
    if pos == input.len() || !is_alpha_u8(input[pos]) {
        return Err(ParseError { kind: ErrorKind::CharClass, pos });
    }
    let e = scan(input, pos + 1, CharClass::SchemeTail);
    Ok((Span { start: pos, end: e }, e))
}

/// Where the query (or fragment) text at `p` ends: the run of
/// pchar / "/" / "?".
pub open spec fn query_end(s: Seq<u8>, p: int) -> int {
    run_end(s, p, CharClass::Query)
}

/// query = *( pchar / "/" / "?" )
///
/// Always accepts, possibly with an empty span.
pub fn query(input: &[u8], pos: usize) -> (r: Result<(UriPart, usize), ParseError>)
    requires
        pos <= input@.len(),
    ensures
        match r {
            Ok((q, np)) => q == (UriPart::Query(Span { start: pos, end: np })) && np as int
                == query_end(input@, pos as int) && pos <= np <= input@.len(),
            Err(_) => false,
        },
{
    let e = scan(input, pos, CharClass::Query);
    Ok((UriPart::Query(Span { start: pos, end: e }), e))
}

/// fragment = *( pchar / "/" / "?" )
///
/// The same text as a query, re-tagged: it accepts exactly the inputs
/// query accepts and yields the same span.
pub fn fragment(input: &[u8], pos: usize) -> (r: Result<(UriPart, usize), ParseError>)
    requires
        pos <= input@.len(),
    ensures
        match r {
            Ok((f, np)) => f == (UriPart::Fragment(Span { start: pos, end: np })) && np as int
                == query_end(input@, pos as int) && pos <= np <= input@.len(),
            Err(_) => false,
        },
{
    match query(input, pos) {
        Ok((UriPart::Query(sp), np)) => Ok((UriPart::Fragment(sp), np)),
        Ok((UriPart::Fragment(sp), np)) => Ok((UriPart::Fragment(sp), np)),
        Err(e) => Err(e),
    }
}

} // verus!
