use uri_grammar::authority::userinfo;
use uri_grammar::parts::{fragment, query, scheme};
use uri_grammar::paths::{path_abempty, segment, segment_nz};
use uri_grammar::types::{Path, Span, UriPart};

fn reconstruct(input: &[u8], sp: Span, np: usize) -> Vec<u8> {
    let mut out = sp.bytes(input).to_vec();
    out.extend_from_slice(&input[np..]);
    out
}

#[test]
fn span_plus_remainder_reconstructs_input() {
    let input: &[u8] = b"u%41:x@h";
    let (sp, np) = userinfo(input, 0).unwrap();
    assert_eq!(reconstruct(input, sp, np), input.to_vec());

    let input: &[u8] = b"http://a";
    let (sp, np) = scheme(input, 0).unwrap();
    assert_eq!(reconstruct(input, sp, np), input.to_vec());

    let input: &[u8] = b"a=%20b#f";
    let (part, np) = query(input, 0).unwrap();
    let UriPart::Query(sp) = part else { panic!() };
    assert_eq!(reconstruct(input, sp, np), input.to_vec());
}

#[test]
fn percent_triples_stay_whole() {
    // A truncated triple is left out of the run entirely, never split.
    let input: &[u8] = b"a%4";
    assert_eq!(segment(input, 0), Ok((Span { start: 0, end: 1 }, 1)));
    // A whole triple contributes all three of its bytes.
    let input: &[u8] = b"a%41";
    assert_eq!(segment(input, 0), Ok((Span { start: 0, end: 4 }, 4)));
    let input: &[u8] = b"%41%4";
    assert_eq!(segment_nz(input, 0), Ok((Span { start: 0, end: 3 }, 3)));
}

#[test]
fn fragment_agrees_with_query() {
    let cases: [&[u8]; 6] = [b"", b"a=b&c=d", b"/?/?", b"%30%41", b"ab{rest", b"a%4"];
    for input in cases {
        let q = query(input, 0).unwrap();
        let f = fragment(input, 0).unwrap();
        let UriPart::Query(qs) = q.0 else { panic!() };
        let UriPart::Fragment(fs) = f.0 else { panic!() };
        assert_eq!(qs, fs);
        assert_eq!(q.1, f.1);
    }
}

#[test]
fn scheme_then_abempty_chains() {
    let scheme_text: &[u8] = b"http";
    let path_text: &[u8] = b"/a/%41b//";

    // Each text parsed in isolation.
    let (s_alone, s_np) = scheme(scheme_text, 0).unwrap();
    assert_eq!(s_np, scheme_text.len());
    let (p_alone, p_np) = path_abempty(path_text, 0).unwrap();
    assert_eq!(p_np, path_text.len());
    let Path::AbEmpty(p_alone) = p_alone else { panic!() };

    // The concatenation parsed with scheme, then path-abempty on the
    // remainder, yields the same two spans.
    let mut cat = scheme_text.to_vec();
    cat.extend_from_slice(path_text);
    let (s_cat, mid) = scheme(&cat, 0).unwrap();
    assert_eq!(s_cat.bytes(&cat), s_alone.bytes(scheme_text));
    let (p_cat, end) = path_abempty(&cat, mid).unwrap();
    let Path::AbEmpty(p_cat) = p_cat else { panic!() };
    assert_eq!(p_cat.bytes(&cat), p_alone.bytes(path_text));
    assert_eq!(end, cat.len());

    // The same holds for an empty path text.
    let (s_cat, mid) = scheme(scheme_text, 0).unwrap();
    assert_eq!(s_cat.bytes(scheme_text), s_alone.bytes(scheme_text));
    let (p_empty, end) = path_abempty(scheme_text, mid).unwrap();
    assert_eq!(p_empty, Path::AbEmpty(Span { start: mid, end: mid }));
    assert_eq!(end, mid);
}
