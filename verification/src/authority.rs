//! The authority component and its parts: userinfo, host (IP literal /
//! IPv4 dotted-quad / registered name), and port. The numeric
//! productions accept a whole digit run and enforce only the final
//! range check, as the grammar's accepted language allows.

use vstd::prelude::*;
use crate::chars::{AT_SIGN, COLON, DOT, LBRACKET};
use crate::digits::{is_digit_radix, run_val, run_value_capped};
use crate::scan::{CharClass, in_class, run_end, scan, lemma_run_end_chars};
use crate::types::{Authority, ErrorKind, Host, ParseError, Span};

verus! {

/// The end of the decimal digit run at `p`.
pub open spec fn dec_octet_end(s: Seq<u8>, p: int) -> int {
    run_end(s, p, CharClass::Digit)
}

/// dec-octet: a non-empty digit run whose value fits in eight bits.
pub open spec fn dec_octet_ok(s: Seq<u8>, p: int) -> bool {
    dec_octet_end(s, p) > p && run_val(s, p, dec_octet_end(s, p), 10) <= 255
}

/// The error a failed dec-octet at `p` produces: no digit at all is a
/// class mismatch, an oversized value a range violation, both at `p`.
pub open spec fn dec_octet_err(s: Seq<u8>, p: int) -> ParseError {
    if dec_octet_end(s, p) == p {
        ParseError { kind: ErrorKind::CharClass, pos: p as usize }
    } else {
        ParseError { kind: ErrorKind::Range, pos: p as usize }
    }
}

/// Bridge the digit-run facts of the scanner to the form the valuation
/// function asks for.
proof fn lemma_digit_run_is_digits(s: Seq<u8>, p: int, cls: CharClass, radix: int)
    requires
        0 <= p <= s.len(),
        cls == CharClass::Digit || cls == CharClass::HexDigit,
        radix == if cls == CharClass::HexDigit { 16int } else { 10int },
    ensures
        forall|q: int| p <= q < run_end(s, p, cls) ==> is_digit_radix(#[trigger] s[q], radix),
{
    lemma_run_end_chars(s, p, cls);
    assert forall|q: int| p <= q < run_end(s, p, cls) implies is_digit_radix(
        #[trigger] s[q],
        radix,
    ) by {
        assert(in_class(cls, s[q]));
    }
}

/// dec-octet = DIGIT / %x31-39 DIGIT / "1" 2DIGIT / "2" %x30-34 DIGIT / "25" %x30-35
///
/// Consume the digit run at `pos` and accept it when its value is at
/// most 255; the span covers the whole run.
pub fn dec_octet(input: &[u8], pos: usize) -> (r: Result<(Span, usize), ParseError>)
    requires
        pos <= input@.len(),
    ensures
        match r {
            Ok((sp, np)) => dec_octet_ok(input@, pos as int) && sp.start == pos && sp.end as int
                == dec_octet_end(input@, pos as int) && np == sp.end && np <= input@.len(),
            Err(e) => !dec_octet_ok(input@, pos as int) && e == dec_octet_err(input@, pos as int),
        },
{
    let e = scan(input, pos, CharClass::Digit);
    if e == pos {
        return Err(ParseError { kind: ErrorKind::CharClass, pos });
    }
    proof {
        lemma_digit_run_is_digits(input@, pos as int, CharClass::Digit, 10);
    }
    match run_value_capped(input, pos, e, 10, 255) {
        Some(_) => Ok((Span { start: pos, end: e }, e)),
        None => Err(ParseError { kind: ErrorKind::Range, pos }),
    }
}

/// Where the first octet of a dotted quad at `p` ends.
pub open spec fn ipv4_e1(s: Seq<u8>, p: int) -> int {
    dec_octet_end(s, p)
}

/// Where the second octet ends.
pub open spec fn ipv4_e2(s: Seq<u8>, p: int) -> int {
    dec_octet_end(s, ipv4_e1(s, p) + 1)
}

/// Where the third octet ends.
pub open spec fn ipv4_e3(s: Seq<u8>, p: int) -> int {
    dec_octet_end(s, ipv4_e2(s, p) + 1)
}

/// Where the fourth octet, and the whole dotted quad, ends.
pub open spec fn ipv4_end(s: Seq<u8>, p: int) -> int {
    dec_octet_end(s, ipv4_e3(s, p) + 1)
}

/// IPv4address: four dec-octets joined by literal dots.
pub open spec fn ipv4_ok(s: Seq<u8>, p: int) -> bool {
    &&& dec_octet_ok(s, p)
    &&& ipv4_e1(s, p) < s.len() && s[ipv4_e1(s, p)] == DOT
    &&& dec_octet_ok(s, ipv4_e1(s, p) + 1)
    &&& ipv4_e2(s, p) < s.len() && s[ipv4_e2(s, p)] == DOT
    &&& dec_octet_ok(s, ipv4_e2(s, p) + 1)
    &&& ipv4_e3(s, p) < s.len() && s[ipv4_e3(s, p)] == DOT
    &&& dec_octet_ok(s, ipv4_e3(s, p) + 1)
}

/// The error of a failed dotted quad: the first octet or dot that fails,
/// reading left to right, names the kind and the offset.
pub open spec fn ipv4_err(s: Seq<u8>, p: int) -> ParseError {
    if !dec_octet_ok(s, p) {
        dec_octet_err(s, p)
    } else if !(ipv4_e1(s, p) < s.len() && s[ipv4_e1(s, p)] == DOT) {
        ParseError { kind: ErrorKind::CharClass, pos: ipv4_e1(s, p) as usize }
    } else if !dec_octet_ok(s, ipv4_e1(s, p) + 1) {
        dec_octet_err(s, ipv4_e1(s, p) + 1)
    } else if !(ipv4_e2(s, p) < s.len() && s[ipv4_e2(s, p)] == DOT) {
        ParseError { kind: ErrorKind::CharClass, pos: ipv4_e2(s, p) as usize }
    } else if !dec_octet_ok(s, ipv4_e2(s, p) + 1) {
        dec_octet_err(s, ipv4_e2(s, p) + 1)
    } else if !(ipv4_e3(s, p) < s.len() && s[ipv4_e3(s, p)] == DOT) {
        ParseError { kind: ErrorKind::CharClass, pos: ipv4_e3(s, p) as usize }
    } else {
        dec_octet_err(s, ipv4_e3(s, p) + 1)
    }
}

/// IPv4address = dec-octet "." dec-octet "." dec-octet "." dec-octet
pub fn ip_v4_address(input: &[u8], pos: usize) -> (r: Result<(Host, usize), ParseError>)
    requires
        pos <= input@.len(),
    ensures
        match r {
            Ok((h, np)) => ipv4_ok(input@, pos as int) && h == (Host::V4(
                Span { start: pos, end: np },
            )) && np as int == ipv4_end(input@, pos as int),
            Err(e) => !ipv4_ok(input@, pos as int) && e == ipv4_err(input@, pos as int),
        },
{
    let e1 = match dec_octet(input, pos) {
        Ok((_, np)) => np,
        Err(e) => {
            return Err(e);
        },
    };
    if e1 == input.len() || input[e1] != DOT {
        return Err(ParseError { kind: ErrorKind::CharClass, pos: e1 });
    }
    let e2 = match dec_octet(input, e1 + 1) {
        Ok((_, np)) => np,
        Err(e) => {
            return Err(e);
        },
    };
    if e2 == input.len() || input[e2] != DOT {
        return Err(ParseError { kind: ErrorKind::CharClass, pos: e2 });
    }
    let e3 = match dec_octet(input, e2 + 1) {
        Ok((_, np)) => np,
        Err(e) => {
            return Err(e);
        },
    };
    if e3 == input.len() || input[e3] != DOT {
        return Err(ParseError { kind: ErrorKind::CharClass, pos: e3 });
    }
    let e4 = match dec_octet(input, e3 + 1) {
        Ok((_, np)) => np,
        Err(e) => {
            return Err(e);
        },
    };
    Ok((Host::V4(Span { start: pos, end: e4 }), e4))
}

/// port = *DIGIT
///
/// An empty digit run means "no port" and consumes nothing; a non-empty
/// run must fit in sixteen bits, the whole legal port range.
pub fn port(input: &[u8], pos: usize) -> (r: Result<(Option<u16>, usize), ParseError>)
    requires
        pos <= input@.len(),
    ensures
        match r {
            Ok((v, np)) => {
                let e = run_end(input@, pos as int, CharClass::Digit);
                if e == pos {
                    v is None && np == pos
                } else {
                    run_val(input@, pos as int, e, 10) <= 65535 && v == Some(
                        run_val(input@, pos as int, e, 10) as u16,
                    ) && np as int == e
                }
            },
            Err(e) => {
                let de = run_end(input@, pos as int, CharClass::Digit);
                de > pos && run_val(input@, pos as int, de, 10) > 65535 && e == (ParseError {
                    kind: ErrorKind::Range,
                    pos,
                })
            },
        },
{
    let e = scan(input, pos, CharClass::Digit);
    if e == pos {
        return Ok((None, pos));
    }
    proof {
        lemma_digit_run_is_digits(input@, pos as int, CharClass::Digit, 10);
    }
    match run_value_capped(input, pos, e, 10, 65535) {
        Some(v) => Ok((Some(v as u16), e)),
        None => Err(ParseError { kind: ErrorKind::Range, pos }),
    }
}

/// The end of the hexadecimal digit run at `p`.
pub open spec fn h16_end(s: Seq<u8>, p: int) -> int {
    run_end(s, p, CharClass::HexDigit)
}

/// h16: a non-empty hexadecimal run whose value fits in sixteen bits.
pub open spec fn h16_ok(s: Seq<u8>, p: int) -> bool {
    h16_end(s, p) > p && run_val(s, p, h16_end(s, p), 16) <= 65535
}

/// The error of a failed h16 at `p`.
pub open spec fn h16_err(s: Seq<u8>, p: int) -> ParseError {
    if h16_end(s, p) == p {
        ParseError { kind: ErrorKind::CharClass, pos: p as usize }
    } else {
        ParseError { kind: ErrorKind::Range, pos: p as usize }
    }
}

/// h16 = 1*4HEXDIG — sixteen bits of address in hexadecimal. The whole
/// hexadecimal run is consumed and only the final value check applies.
pub fn h16(input: &[u8], pos: usize) -> (r: Result<(Span, usize), ParseError>)
    requires
        pos <= input@.len(),
    ensures
        match r {
            Ok((sp, np)) => h16_ok(input@, pos as int) && sp.start == pos && sp.end as int
                == h16_end(input@, pos as int) && np == sp.end && np <= input@.len(),
            Err(e) => !h16_ok(input@, pos as int) && e == h16_err(input@, pos as int),
        },
{
    let e = scan(input, pos, CharClass::HexDigit);
    if e == pos {
        return Err(ParseError { kind: ErrorKind::CharClass, pos });
    }
    proof {
        lemma_digit_run_is_digits(input@, pos as int, CharClass::HexDigit, 16);
    }
    match run_value_capped(input, pos, e, 16, 65535) {
        Some(_) => Ok((Span { start: pos, end: e }, e)),
        None => Err(ParseError { kind: ErrorKind::Range, pos }),
    }
}

/// ( h16 ":" ) — an h16 followed by a literal colon; the span covers
/// both.
pub fn h16_colon(input: &[u8], pos: usize) -> (r: Result<(Span, usize), ParseError>)
    requires
        pos <= input@.len(),
    ensures
        match r {
            Ok((sp, np)) => {
                let e = h16_end(input@, pos as int);
                h16_ok(input@, pos as int) && e < input@.len() && input@[e] == COLON && sp.start
                    == pos && sp.end as int == e + 1 && np == sp.end
            },
            Err(err) => {
                let e = h16_end(input@, pos as int);
                if !h16_ok(input@, pos as int) {
                    err == h16_err(input@, pos as int)
                } else {
                    !(e < input@.len() && input@[e] == COLON) && err == (ParseError {
                        kind: ErrorKind::CharClass,
                        pos: e as usize,
                    })
                }
            },
        },
{
    let e = match h16(input, pos) {
        Ok((_, np)) => np,
        Err(err) => {
            return Err(err);
        },
    };
    if e == input.len() || input[e] != COLON {
        return Err(ParseError { kind: ErrorKind::CharClass, pos: e });
    }
    Ok((Span { start: pos, end: e + 1 }, e + 1))
}

/// ls32 as two h16 joined by a colon: its start, middle and end offsets.
pub open spec fn ls32_ok(s: Seq<u8>, p: int) -> bool {
    &&& h16_ok(s, p)
    &&& h16_end(s, p) < s.len() && s[h16_end(s, p)] == COLON
    &&& h16_ok(s, h16_end(s, p) + 1)
}

/// Where ls32 at `p` ends.
pub open spec fn ls32_end(s: Seq<u8>, p: int) -> int {
    h16_end(s, h16_end(s, p) + 1)
}

/// The error of a failed ls32 at `p`.
pub open spec fn ls32_err(s: Seq<u8>, p: int) -> ParseError {
    if !h16_ok(s, p) {
        h16_err(s, p)
    } else if !(h16_end(s, p) < s.len() && s[h16_end(s, p)] == COLON) {
        ParseError { kind: ErrorKind::CharClass, pos: h16_end(s, p) as usize }
    } else {
        h16_err(s, h16_end(s, p) + 1)
    }
}

/// ls32 = ( h16 ":" h16 ) — the least-significant 32 bits of an IPv6
/// address. The IPv4 alternative of the grammar is tried separately by
/// `ip_v6_end`.
pub fn ls32(input: &[u8], pos: usize) -> (r: Result<(Span, usize), ParseError>)
    requires
        pos <= input@.len(),
    ensures
        match r {
            Ok((sp, np)) => ls32_ok(input@, pos as int) && sp.start == pos && sp.end as int
                == ls32_end(input@, pos as int) && np == sp.end,
            Err(e) => !ls32_ok(input@, pos as int) && e == ls32_err(input@, pos as int),
        },
{
    let e1 = match h16(input, pos) {
        Ok((_, np)) => np,
        Err(err) => {
            return Err(err);
        },
    };
    if e1 == input.len() || input[e1] != COLON {
        return Err(ParseError { kind: ErrorKind::CharClass, pos: e1 });
    }
    let e2 = match h16(input, e1 + 1) {
        Ok((_, np)) => np,
        Err(err) => {
            return Err(err);
        },
    };
    Ok((Span { start: pos, end: e2 }, e2))
}

/// (ls32 / IPv4address) — the tail of an IPv6 address: a dotted quad
/// where one matches, otherwise ls32.
pub fn ip_v6_end(input: &[u8], pos: usize) -> (r: Result<(Span, usize), ParseError>)
    requires
        pos <= input@.len(),
    ensures
        match r {
            Ok((sp, np)) => if ipv4_ok(input@, pos as int) {
                sp.start == pos && sp.end as int == ipv4_end(input@, pos as int) && np == sp.end
            } else {
                ls32_ok(input@, pos as int) && sp.start == pos && sp.end as int == ls32_end(
                    input@,
                    pos as int,
                ) && np == sp.end
            },
            Err(e) => !ipv4_ok(input@, pos as int) && !ls32_ok(input@, pos as int) && e == ls32_err(
                input@,
                pos as int,
            ),
        },
{
    match ip_v4_address(input, pos) {
        Ok((_, np)) => Ok((Span { start: pos, end: np }, np)),
        Err(_) => ls32(input, pos),
    }
}

/// IPvFuture = "v" 1*HEXDIG "." 1*( unreserved / sub-delims / ":" )
///
/// Unimplemented in this engine: reaching it is reported as a soft
/// "unsupported construct" failure at the position it was tried, so a
/// caller can recover.
pub fn ip_v_future(input: &[u8], pos: usize) -> (r: Result<(Host, usize), ParseError>)
    requires
        pos <= input@.len(),
    ensures
        match r {
            Ok(_) => false,
            Err(e) => e == (ParseError { kind: ErrorKind::Unsupported, pos }),
        },
{
    Err(ParseError { kind: ErrorKind::Unsupported, pos })
}

/// IPv6address — the full grouped-hex grammar.
///
/// Unimplemented in this engine: reaching it is reported as a soft
/// "unsupported construct" failure at the position it was tried, so a
/// caller can recover.
pub fn ip_v6_address(input: &[u8], pos: usize) -> (r: Result<(Host, usize), ParseError>)
    requires
        pos <= input@.len(),
    ensures
        match r {
            Ok(_) => false,
            Err(e) => e == (ParseError { kind: ErrorKind::Unsupported, pos }),
        },
{
    Err(ParseError { kind: ErrorKind::Unsupported, pos })
}

/// The error of the IP-literal production at `p`: without an opening
/// bracket a class mismatch at `p`; with one, the unimplemented interior
/// reports an unsupported construct just past the bracket.
pub open spec fn ip_literal_err(s: Seq<u8>, p: int) -> ParseError {
    if p < s.len() && s[p] == LBRACKET {
        ParseError { kind: ErrorKind::Unsupported, pos: (p + 1) as usize }
    } else {
        ParseError { kind: ErrorKind::CharClass, pos: p as usize }
    }
}

/// IP-literal = "[" ( IPv6address / IPvFuture ) "]"
///
/// Never succeeds, because both interior forms are unimplemented; it
/// fails softly as `ip_literal_err` describes.
pub fn ip_literal(input: &[u8], pos: usize) -> (r: Result<(Host, usize), ParseError>)
    requires
        pos <= input@.len(),
    ensures
        match r {
            Ok(_) => false,
            Err(e) => e == ip_literal_err(input@, pos as int),
        },
{
    if pos < input.len() && input[pos] == LBRACKET {
        let e = match ip_v_future(input, pos + 1) {
            Err(err) => err,
            Ok(_) => ParseError { kind: ErrorKind::Unsupported, pos: pos + 1 },
        };
        match ip_v6_address(input, pos + 1) {
            Err(err) => Err(err),
            Ok(_) => Err(e),
        }
    } else {
        Err(ParseError { kind: ErrorKind::CharClass, pos })
    }
}

/// The end of the registered-name run at `p`.
pub open spec fn reg_name_end(s: Seq<u8>, p: int) -> int {
    run_end(s, p, CharClass::RegName)
}

/// reg-name: a non-empty run of unreserved / pct-encoded / sub-delims.
pub open spec fn reg_name_ok(s: Seq<u8>, p: int) -> bool {
    reg_name_end(s, p) > p
}

/// reg-name = *( unreserved / pct-encoded / sub-delims )
///
/// This engine requires at least one token, as the fold it implements
/// does; the run uses the span-accounting loop, so percent triples
/// count three bytes.
pub fn reg_name(input: &[u8], pos: usize) -> (r: Result<(Host, usize), ParseError>)
    requires
        pos <= input@.len(),
    ensures
        match r {
            Ok((h, np)) => reg_name_ok(input@, pos as int) && h == (Host::RegistryName(
                Span { start: pos, end: np },
            )) && np as int == reg_name_end(input@, pos as int),
            Err(e) => !reg_name_ok(input@, pos as int) && e == (ParseError {
                kind: ErrorKind::CharClass,
                pos,
            }),
        },
{
    let e = scan(input, pos, CharClass::RegName);
    if e == pos {
        return Err(ParseError { kind: ErrorKind::CharClass, pos });
    }
    Ok((Host::RegistryName(Span { start: pos, end: e }), e))
}

/// host accepts at `p` when one of its alternatives does; the bracketed
/// literal never does.
pub open spec fn host_ok(s: Seq<u8>, p: int) -> bool {
    ipv4_ok(s, p) || reg_name_ok(s, p)
}

/// Which host variant accepting input at `p` yields: the dotted quad
/// where it matches, else the registered-name run.
pub open spec fn host_result(s: Seq<u8>, p: int) -> Host
    recommends
        host_ok(s, p),
{
    if ipv4_ok(s, p) {
        Host::V4(Span { start: p as usize, end: ipv4_end(s, p) as usize })
    } else {
        Host::RegistryName(Span { start: p as usize, end: reg_name_end(s, p) as usize })
    }
}

/// Where the accepted host at `p` ends.
pub open spec fn host_end(s: Seq<u8>, p: int) -> int
    recommends
        host_ok(s, p),
{
    if ipv4_ok(s, p) {
        ipv4_end(s, p)
    } else {
        reg_name_end(s, p)
    }
}

/// The deepest failure when no host alternative accepts: behind an
/// opening bracket the unimplemented literal interior, otherwise the
/// class mismatch all the alternatives share.
pub open spec fn host_err(s: Seq<u8>, p: int) -> ParseError {
    if p < s.len() && s[p] == LBRACKET {
        ParseError { kind: ErrorKind::Unsupported, pos: (p + 1) as usize }
    } else {
        ParseError { kind: ErrorKind::CharClass, pos: p as usize }
    }
}

/// host = IP-literal / IPv4address / reg-name
///
/// The alternatives are tried in this order; the registered name is the
/// catch-all and is tried last.
pub fn host(input: &[u8], pos: usize) -> (r: Result<(Host, usize), ParseError>)
    requires
        pos <= input@.len(),
    ensures
        match r {
            Ok((h, np)) => host_ok(input@, pos as int) && h == host_result(input@, pos as int)
                && np as int == host_end(input@, pos as int),
            Err(e) => !host_ok(input@, pos as int) && e == host_err(input@, pos as int),
        },
{
    let lit_err = match ip_literal(input, pos) {
        Ok(v) => {
            return Ok(v);
        },
        Err(e) => e,
    };
    match ip_v4_address(input, pos) {
        Ok(v) => {
            return Ok(v);
        },
        Err(_) => (),
    }
    match reg_name(input, pos) {
        Ok(v) => Ok(v),
        Err(e) => {
            if pos < input.len() && input[pos] == LBRACKET {
                Err(lit_err)
            } else {
                Err(e)
            }
        },
    }
}

/// The end of the userinfo run at `p`.
pub open spec fn userinfo_end(s: Seq<u8>, p: int) -> int {
    run_end(s, p, CharClass::UserInfo)
}

/// userinfo = *( unreserved / pct-encoded / sub-delims / ":" )
///
/// This engine requires at least one token, as the fold it implements
/// does. The production does not consume the `@` that bounds it; the
/// caller does.
pub fn userinfo(input: &[u8], pos: usize) -> (r: Result<(Span, usize), ParseError>)
    requires
        pos <= input@.len(),
    ensures
        match r {
            Ok((sp, np)) => userinfo_end(input@, pos as int) > pos && sp.start == pos && sp.end
                as int == userinfo_end(input@, pos as int) && np == sp.end,
            Err(e) => userinfo_end(input@, pos as int) == pos && e == (ParseError {
                kind: ErrorKind::CharClass,
                pos,
            }),
        },
{
    let e = scan(input, pos, CharClass::UserInfo);
    if e == pos {
        return Err(ParseError { kind: ErrorKind::CharClass, pos });
    }
    Ok((Span { start: pos, end: e }, e))
}

/// An authority at `p` carries a userinfo component exactly when a
/// non-empty userinfo run is terminated by a literal `@`.
pub open spec fn userinfo_present(s: Seq<u8>, p: int) -> bool {
    userinfo_end(s, p) > p && userinfo_end(s, p) < s.len() && s[userinfo_end(s, p)] == AT_SIGN
}

/// Where the host of an authority at `p` starts: past the userinfo and
/// its `@` when present, else at `p` itself.
pub open spec fn auth_host_start(s: Seq<u8>, p: int) -> int {
    if userinfo_present(s, p) {
        userinfo_end(s, p) + 1
    } else {
        p
    }
}

/// authority = [ userinfo "@" ] host [ ":" port ]
///
/// The userinfo and its `@` are consumed when present; then the
/// mandatory host; then, behind a literal colon, the optional port. A
/// colon followed by no digits is consumed with "no port"; a digit run
/// too large for a port is left unconsumed, colon included, as a
/// backtracking alternative would leave it.
pub fn authority(input: &[u8], pos: usize) -> (r: Result<(Authority, usize), ParseError>)
    requires
        pos <= input@.len(),
    ensures
        match r {
            Ok((a, np)) => {
                let hs = auth_host_start(input@, pos as int);
                let he = host_end(input@, hs);
                &&& host_ok(input@, hs)
                &&& a.userinfo == if userinfo_present(input@, pos as int) {
                    Some(Span { start: pos, end: userinfo_end(input@, pos as int) as usize })
                } else {
                    None::<Span>
                }
                &&& a.host == host_result(input@, hs)
                &&& if he < input@.len() && input@[he] == COLON {
                    let pe = run_end(input@, he + 1, CharClass::Digit);
                    if pe == he + 1 {
                        a.port is None && np as int == he + 1
                    } else if run_val(input@, he + 1, pe, 10) <= 65535 {
                        a.port == Some(run_val(input@, he + 1, pe, 10) as u16) && np as int == pe
                    } else {
                        a.port is None && np as int == he
                    }
                } else {
                    a.port is None && np as int == he
                }
            },
            Err(e) => {
                let hs = auth_host_start(input@, pos as int);
                !host_ok(input@, hs) && e == host_err(input@, hs)
            },
        },
{
    let ue = scan(input, pos, CharClass::UserInfo);
    let (ui, hs): (Option<Span>, usize) = if ue > pos && ue < input.len() && input[ue] == AT_SIGN {
        (Some(Span { start: pos, end: ue }), ue + 1)
    } else {
        (None, pos)
    };
    let (h, he) = match host(input, hs) {
        Ok(v) => v,
        Err(e) => {
            return Err(e);
        },
    };
    if he < input.len() && input[he] == COLON {
        match port(input, he + 1) {
            Ok((v, np)) => {
                if np == he + 1 && v.is_none() {
                    Ok((Authority { userinfo: ui, host: h, port: None }, he + 1))
                } else {
                    Ok((Authority { userinfo: ui, host: h, port: v }, np))
                }
            },
            Err(_) => Ok((Authority { userinfo: ui, host: h, port: None }, he)),
        }
    } else {
        Ok((Authority { userinfo: ui, host: h, port: None }, he))
    }
}

} // verus!
