use uri_grammar::authority::{
    authority, dec_octet, h16, h16_colon, host, ip_literal, ip_v4_address, ip_v6_address,
    ip_v6_end, ip_v_future, ls32, port, reg_name, userinfo,
};
use uri_grammar::chars::{
    alpha, alphanumeric, digit, gen_delims, hexdig, is_hex_digit_u8, reserved, sub_delims,
    unreserved,
};
use uri_grammar::parts::{fragment, query, scheme};
use uri_grammar::paths::{
    path, path_abempty, path_absolute, path_empty, path_noscheme, path_rootless, pchar, segment,
    segment_nz, segment_nz_nc,
};
use uri_grammar::pct::pct_encoded;
use uri_grammar::types::{Authority, ErrorKind, Host, ParseError, Path, Span, UriPart};

fn char_class_at(pos: usize) -> ParseError {
    ParseError { kind: ErrorKind::CharClass, pos }
}

#[test]
fn port_test() {
    assert_eq!(port(b"", 0), Ok((None, 0)));
}

#[test]
fn ip_v4_test() {
    assert_eq!(ip_v4_address(b"24.4.34", 0), Err(char_class_at(7)));
    assert_eq!(
        ip_v4_address(b"256.24.4.34", 0),
        Err(ParseError { kind: ErrorKind::Range, pos: 0 })
    );
    let input: &[u8] = b"255.255.255.255.255";
    assert_eq!(
        ip_v4_address(input, 0),
        Ok((Host::V4(Span { start: 0, end: 15 }), 15))
    );
    assert_eq!(&input[15..], b".255");
    assert_eq!(
        ip_v4_address(b"255.255.255.255", 0),
        Ok((Host::V4(Span { start: 0, end: 15 }), 15))
    );
    assert_eq!(
        ip_v4_address(b"0.0.0.0", 0),
        Ok((Host::V4(Span { start: 0, end: 7 }), 7))
    );
}

#[test]
fn path_absolute_test() {
    assert_eq!(path_absolute(b"abc/def//", 0), Err(char_class_at(0)));
    assert_eq!(
        path_absolute(b"/abc/def//", 0),
        Ok((Path::Absolute(Span { start: 0, end: 10 }), 10))
    );
}

#[test]
fn path_rootless_test() {
    assert_eq!(path_rootless(b"/abc/def//", 0), Err(char_class_at(0)));
    assert_eq!(
        path_rootless(b"abc/def//", 0),
        Ok((Path::Rootless(Span { start: 0, end: 9 }), 9))
    );
}

#[test]
fn path_abempty_test() {
    assert_eq!(
        path_abempty(b"/abc/def//", 0),
        Ok((Path::AbEmpty(Span { start: 0, end: 10 }), 10))
    );
    assert_eq!(
        path_abempty(b"abc/def//", 0),
        Ok((Path::AbEmpty(Span { start: 0, end: 0 }), 0))
    );
}

#[test]
fn fragment_test() {
    let pchar_no_pct: &[u8] =
        b"abcdefghijklmnopqrstuvwxyzABCDEFGHIJKLMNOPQRSTUVWXYZ0123456789-._~!$&'()*+,;=:@";
    assert_eq!(
        fragment(pchar_no_pct, 0),
        Ok((
            UriPart::Fragment(Span { start: 0, end: pchar_no_pct.len() }),
            pchar_no_pct.len()
        ))
    );
    let input: &[u8] = b"/?{";
    assert_eq!(
        fragment(input, 0),
        Ok((UriPart::Fragment(Span { start: 0, end: 2 }), 2))
    );
    assert_eq!(&input[2..], b"{");
    let input: &[u8] = b"%30%41#";
    assert_eq!(
        fragment(input, 0),
        Ok((UriPart::Fragment(Span { start: 0, end: 6 }), 6))
    );
    assert_eq!(&input[6..], b"#");
}

#[test]
fn pct_encoded_test() {
    let input: &[u8] = b"%30*";
    assert_eq!(pct_encoded(input, 0), Ok(('0', 3)));
    assert_eq!(&input[3..], b"*");
    let input: &[u8] = b"%41g";
    assert_eq!(pct_encoded(input, 0), Ok(('A', 3)));
    assert_eq!(&input[3..], b"g");
    assert_eq!(pct_encoded(b"41", 0), Err(char_class_at(0)));
    assert_eq!(
        pct_encoded(b"%4", 0),
        Err(ParseError { kind: ErrorKind::Incomplete, pos: 2 })
    );
}

#[test]
fn pct_encoded_more() {
    assert_eq!(
        pct_encoded(b"%", 0),
        Err(ParseError { kind: ErrorKind::Incomplete, pos: 1 })
    );
    assert_eq!(pct_encoded(b"%g1", 0), Err(char_class_at(1)));
    assert_eq!(pct_encoded(b"%1g", 0), Err(char_class_at(2)));
    assert_eq!(pct_encoded(b"%ff*", 0), Ok(('\u{ff}', 3)));
    assert_eq!(pct_encoded(b"%20", 0), Ok((' ', 3)));
}

#[test]
fn port_values() {
    assert_eq!(port(b"65535", 0), Ok((Some(65535), 5)));
    assert_eq!(
        port(b"65536", 0),
        Err(ParseError { kind: ErrorKind::Range, pos: 0 })
    );
    assert_eq!(port(b"0", 0), Ok((Some(0), 1)));
    assert_eq!(port(b"0000080", 0), Ok((Some(80), 7)));
    let input: &[u8] = b"8080/x";
    assert_eq!(port(input, 0), Ok((Some(8080), 4)));
    assert_eq!(&input[4..], b"/x");
    assert_eq!(port(b"x", 0), Ok((None, 0)));
}

#[test]
fn dec_octet_values() {
    assert_eq!(dec_octet(b"007", 0), Ok((Span { start: 0, end: 3 }, 3)));
    assert_eq!(dec_octet(b"12.", 0), Ok((Span { start: 0, end: 2 }, 2)));
    assert_eq!(
        dec_octet(b"2550", 0),
        Err(ParseError { kind: ErrorKind::Range, pos: 0 })
    );
    assert_eq!(dec_octet(b"", 0), Err(char_class_at(0)));
    assert_eq!(dec_octet(b"x", 0), Err(char_class_at(0)));
}

#[test]
fn scheme_test() {
    let input: &[u8] = b"http://example.com";
    assert_eq!(scheme(input, 0), Ok((Span { start: 0, end: 4 }, 4)));
    assert_eq!(&input[..4], b"http");
    assert_eq!(scheme(b"a+b-c.9:", 0), Ok((Span { start: 0, end: 7 }, 7)));
    assert_eq!(scheme(b"1http", 0), Err(char_class_at(0)));
    assert_eq!(scheme(b"", 0), Err(char_class_at(0)));
}

#[test]
fn userinfo_test() {
    let input: &[u8] = b"u:p@rest";
    assert_eq!(userinfo(input, 0), Ok((Span { start: 0, end: 3 }, 3)));
    assert_eq!(&input[3..], b"@rest");
    assert_eq!(userinfo(b"@x", 0), Err(char_class_at(0)));
    assert_eq!(userinfo(b"u%41x@h", 0), Ok((Span { start: 0, end: 5 }, 5)));
}

#[test]
fn reg_name_test() {
    let input: &[u8] = b"example.com/x";
    assert_eq!(
        reg_name(input, 0),
        Ok((Host::RegistryName(Span { start: 0, end: 11 }), 11))
    );
    assert_eq!(&input[11..], b"/x");
    assert_eq!(
        reg_name(b"a%41b", 0),
        Ok((Host::RegistryName(Span { start: 0, end: 5 }), 5))
    );
    assert_eq!(reg_name(b"%zz", 0), Err(char_class_at(0)));
    assert_eq!(reg_name(b"", 0), Err(char_class_at(0)));
}

#[test]
fn host_test() {
    assert_eq!(
        host(b"127.0.0.1:80", 0),
        Ok((Host::V4(Span { start: 0, end: 9 }), 9))
    );
    assert_eq!(
        host(b"256.1.1.1", 0),
        Ok((Host::RegistryName(Span { start: 0, end: 9 }), 9))
    );
    assert_eq!(
        host(b"example.com", 0),
        Ok((Host::RegistryName(Span { start: 0, end: 11 }), 11))
    );
    assert_eq!(host(b"", 0), Err(char_class_at(0)));
    assert_eq!(
        host(b"[v6]", 0),
        Err(ParseError { kind: ErrorKind::Unsupported, pos: 1 })
    );
}

#[test]
fn ip_literal_test() {
    assert_eq!(
        ip_literal(b"[::1]", 0),
        Err(ParseError { kind: ErrorKind::Unsupported, pos: 1 })
    );
    assert_eq!(ip_literal(b"x", 0), Err(char_class_at(0)));
    assert_eq!(
        ip_v6_address(b"::1", 0),
        Err(ParseError { kind: ErrorKind::Unsupported, pos: 0 })
    );
    assert_eq!(
        ip_v_future(b"v1.x", 0),
        Err(ParseError { kind: ErrorKind::Unsupported, pos: 0 })
    );
}

#[test]
fn h16_test() {
    let input: &[u8] = b"FFFF:";
    assert_eq!(h16(input, 0), Ok((Span { start: 0, end: 4 }, 4)));
    assert_eq!(h16(b"00ffff", 0), Ok((Span { start: 0, end: 6 }, 6)));
    assert_eq!(
        h16(b"fffff", 0),
        Err(ParseError { kind: ErrorKind::Range, pos: 0 })
    );
    assert_eq!(h16(b"g", 0), Err(char_class_at(0)));
}

#[test]
fn h16_colon_test() {
    assert_eq!(h16_colon(b"ab:cd", 0), Ok((Span { start: 0, end: 3 }, 3)));
    assert_eq!(h16_colon(b"ab", 0), Err(char_class_at(2)));
    assert_eq!(h16_colon(b"ab;", 0), Err(char_class_at(2)));
}

#[test]
fn ls32_test() {
    assert_eq!(ls32(b"a:b", 0), Ok((Span { start: 0, end: 3 }, 3)));
    assert_eq!(ls32(b"a::", 0), Err(char_class_at(2)));
    assert_eq!(ls32(b":b", 0), Err(char_class_at(0)));
}

#[test]
fn ip_v6_end_test() {
    assert_eq!(ip_v6_end(b"1.2.3.4", 0), Ok((Span { start: 0, end: 7 }, 7)));
    assert_eq!(ip_v6_end(b"aa:bb", 0), Ok((Span { start: 0, end: 5 }, 5)));
    assert_eq!(ip_v6_end(b"::", 0), Err(char_class_at(0)));
}

#[test]
fn authority_test() {
    let input: &[u8] = b"user:pw@example.com:8080/x";
    assert_eq!(
        authority(input, 0),
        Ok((
            Authority {
                userinfo: Some(Span { start: 0, end: 7 }),
                host: Host::RegistryName(Span { start: 8, end: 19 }),
                port: Some(8080),
            },
            24
        ))
    );
    assert_eq!(&input[24..], b"/x");
    assert_eq!(
        authority(b"example.com", 0),
        Ok((
            Authority {
                userinfo: None,
                host: Host::RegistryName(Span { start: 0, end: 11 }),
                port: None,
            },
            11
        ))
    );
    assert_eq!(
        authority(b"127.0.0.1:80", 0),
        Ok((
            Authority {
                userinfo: None,
                host: Host::V4(Span { start: 0, end: 9 }),
                port: Some(80),
            },
            12
        ))
    );
    assert_eq!(
        authority(b"[::1]", 0),
        Err(ParseError { kind: ErrorKind::Unsupported, pos: 1 })
    );
}

#[test]
fn authority_port_edges() {
    // A colon with no digits is consumed; the port is absent.
    assert_eq!(
        authority(b"host:", 0),
        Ok((
            Authority {
                userinfo: None,
                host: Host::RegistryName(Span { start: 0, end: 4 }),
                port: None,
            },
            5
        ))
    );
    // An over-range digit run is not a port; the colon stays unconsumed.
    assert_eq!(
        authority(b"host:99999", 0),
        Ok((
            Authority {
                userinfo: None,
                host: Host::RegistryName(Span { start: 0, end: 4 }),
                port: None,
            },
            4
        ))
    );
}

#[test]
fn authority_pct_userinfo() {
    // The percent triple counts three bytes toward the userinfo span.
    assert_eq!(
        authority(b"a%41@h", 0),
        Ok((
            Authority {
                userinfo: Some(Span { start: 0, end: 4 }),
                host: Host::RegistryName(Span { start: 5, end: 6 }),
                port: None,
            },
            6
        ))
    );
}

#[test]
fn path_noscheme_test() {
    let input: &[u8] = b"a:b";
    assert_eq!(
        path_noscheme(input, 0),
        Ok((Path::NoScheme(Span { start: 0, end: 1 }), 1))
    );
    assert_eq!(&input[1..], b":b");
    assert_eq!(
        path_noscheme(b"ab/cd", 0),
        Ok((Path::NoScheme(Span { start: 0, end: 5 }), 5))
    );
    assert_eq!(path_noscheme(b":x", 0), Err(char_class_at(0)));
}

#[test]
fn path_empty_test() {
    assert_eq!(path_empty(b"", 0), Ok((Path::Empty, 0)));
    assert_eq!(path_empty(b"?q", 0), Ok((Path::Empty, 0)));
    assert_eq!(path_empty(b"a", 0), Err(char_class_at(0)));
    assert_eq!(path_empty(b"%41", 0), Err(char_class_at(0)));
}

#[test]
fn path_test() {
    assert_eq!(path(b"abc", 0), Ok((Path::AbEmpty(Span { start: 0, end: 0 }), 0)));
    assert_eq!(path(b"/a", 0), Ok((Path::AbEmpty(Span { start: 0, end: 2 }), 2)));
}

#[test]
fn segment_tests() {
    assert_eq!(segment(b"", 0), Ok((Span { start: 0, end: 0 }, 0)));
    assert_eq!(segment(b"a%41b/", 0), Ok((Span { start: 0, end: 5 }, 5)));
    assert_eq!(segment_nz(b"", 0), Err(char_class_at(0)));
    assert_eq!(segment_nz(b"a:b/", 0), Ok((Span { start: 0, end: 3 }, 3)));
    assert_eq!(segment_nz_nc(b"a:b", 0), Ok((Span { start: 0, end: 1 }, 1)));
    assert_eq!(segment_nz_nc(b":b", 0), Err(char_class_at(0)));
}

#[test]
fn pchar_test() {
    assert_eq!(pchar(b"a", 0), Ok(('a', 1)));
    assert_eq!(pchar(b":", 0), Ok((':', 1)));
    assert_eq!(pchar(b"%41", 0), Ok(('A', 3)));
    assert_eq!(pchar(b"/", 0), Err(char_class_at(0)));
    assert_eq!(pchar(b"%4g", 0), Err(char_class_at(2)));
}

#[test]
fn query_test() {
    let input: &[u8] = b"a=b&c=d#frag";
    assert_eq!(
        query(input, 0),
        Ok((UriPart::Query(Span { start: 0, end: 7 }), 7))
    );
    assert_eq!(&input[7..], b"#frag");
    assert_eq!(query(b"", 0), Ok((UriPart::Query(Span { start: 0, end: 0 }), 0)));
    // Slashes and question marks are query text; a space is not.
    let input: &[u8] = b"/a?b/ c";
    assert_eq!(
        query(input, 0),
        Ok((UriPart::Query(Span { start: 0, end: 5 }), 5))
    );
    assert_eq!(&input[5..], b" c");
}

#[test]
fn char_class_parsers() {
    assert_eq!(alpha(b"ab", 0), Ok(('a', 1)));
    assert_eq!(alpha(b"1", 0), Err(char_class_at(0)));
    assert_eq!(digit(b"7x", 0), Ok(('7', 1)));
    assert_eq!(digit(b"x", 0), Err(char_class_at(0)));
    assert_eq!(hexdig(b"f", 0), Ok(('f', 1)));
    assert_eq!(hexdig(b"g", 0), Err(char_class_at(0)));
    assert_eq!(alphanumeric(b"9", 0), Ok(('9', 1)));
    assert_eq!(alphanumeric(b"-", 0), Err(char_class_at(0)));
    assert_eq!(unreserved(b"~", 0), Ok(('~', 1)));
    assert_eq!(unreserved(b"!", 0), Err(char_class_at(0)));
    assert_eq!(sub_delims(b"!", 0), Ok(('!', 1)));
    assert_eq!(sub_delims(b"~", 0), Err(char_class_at(0)));
    assert_eq!(gen_delims(b"#", 0), Ok(('#', 1)));
    assert_eq!(gen_delims(b"!", 0), Err(char_class_at(0)));
    assert_eq!(reserved(b"#", 0), Ok(('#', 1)));
    assert_eq!(reserved(b"!", 0), Ok(('!', 1)));
    assert_eq!(reserved(b"a", 0), Err(char_class_at(0)));
    assert!(is_hex_digit_u8(b'a'));
    assert!(is_hex_digit_u8(b'0'));
    assert!(!is_hex_digit_u8(b'g'));
}
