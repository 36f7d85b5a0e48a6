//! The general laws of the engine, stated over the same spec functions
//! the productions' contracts use and proved once for all inputs.

use vstd::prelude::*;
use crate::chars::SLASH;
use crate::pct::pct_triple_at;
use crate::scan::{CharClass, class_allows_pct, in_class, run_end, lemma_run_end_props};
use crate::paths::{abempty_end, lemma_abempty_end_bounds};
use crate::parts::{scheme_ok, scheme_end, query_end};
use crate::types::Span;

verus! {

/// Span exactness: for any accepted production, concatenating the
/// returned span's bytes with the remainder's bytes reconstructs the
/// input from the production's start exactly — no byte lost, duplicated
/// or reordered. Every span-producing contract gives `sp.start == pos`
/// and `sp.end == np` with the remainder beginning at `np`.
pub proof fn lemma_span_exactness(s: Seq<u8>, sp: Span, np: usize)
    requires
        sp.wf(s),
        np == sp.end,
    ensures
        sp.bytes_of(s) + s.subrange(np as int, s.len() as int) == s.subrange(
            sp.start as int,
            s.len() as int,
        ),
        sp.start == 0 ==> sp.bytes_of(s) + s.subrange(np as int, s.len() as int) == s,
{
    assert(sp.bytes_of(s) + s.subrange(np as int, s.len() as int) =~= s.subrange(
        sp.start as int,
        s.len() as int,
    ));
    if sp.start == 0 {
        assert(s.subrange(0, s.len() as int) =~= s);
    }
}

/// Whether `q` is a token boundary of the run of `cls` that starts at
/// `p`: the offset reached after whole tokens only, each a percent
/// triple of three bytes or a single class byte.
pub open spec fn run_boundary(s: Seq<u8>, p: int, q: int, cls: CharClass) -> bool
    decreases s.len() - p,
{
    if q == p {
        true
    } else if 0 <= p && p < s.len() {
        if class_allows_pct(cls) && pct_triple_at(s, p) {
            run_boundary(s, p + 3, q, cls)
        } else if in_class(cls, s[p]) {
            run_boundary(s, p + 1, q, cls)
        } else {
            false
        }
    } else {
        false
    }
}

/// The offset where a run stops is reached after whole tokens only, so
/// the atomicity law below applies to every accepted span's end.
pub proof fn lemma_run_end_is_boundary(s: Seq<u8>, p: int, cls: CharClass)
    requires
        0 <= p <= s.len(),
    ensures
        run_boundary(s, p, run_end(s, p, cls), cls),
    decreases s.len() - p,
{
    if p < s.len() {
        if class_allows_pct(cls) && pct_triple_at(s, p) {
            lemma_run_end_is_boundary(s, p + 3, cls);
        } else if in_class(cls, s[p]) {
            lemma_run_end_is_boundary(s, p + 1, cls);
        }
    }
}

/// Percent-triple atomicity: a span-producing run never stops in the
/// middle of a percent triple. If a well-formed triple starts at a token
/// boundary strictly inside the accepted run, all three of its bytes lie
/// inside the run.
pub proof fn lemma_pct_triple_atomicity(s: Seq<u8>, p: int, q: int, cls: CharClass)
    requires
        0 <= p <= s.len(),
        class_allows_pct(cls),
        run_boundary(s, p, q, cls),
        q < run_end(s, p, cls),
        pct_triple_at(s, q),
    ensures
        q + 3 <= run_end(s, p, cls),
    decreases s.len() - p,
{
    if q == p {
        lemma_run_end_props(s, p + 3, cls);
    } else {
        if class_allows_pct(cls) && pct_triple_at(s, p) {
            lemma_pct_triple_atomicity(s, p + 3, q, cls);
        } else if p < s.len() && in_class(cls, s[p]) {
            lemma_pct_triple_atomicity(s, p + 1, q, cls);
        }
    }
}

/// Fragment/query equivalence: the two productions share one character
/// set, so fragment accepts exactly the inputs query accepts — both, in
/// fact, accept every input — and the span fragment returns ends where
/// query's does: at `query_end`, which both contracts name, and which
/// always lies inside the buffer.
pub proof fn lemma_fragment_query_equivalence(s: Seq<u8>, p: int)
    requires
        0 <= p <= s.len(),
    ensures
        p <= query_end(s, p) <= s.len(),
{
    lemma_run_end_props(s, p, CharClass::Query);
}

/// Appending bytes after a run leaves the run's steps unchanged: the
/// token repetition beginning inside the second part of a concatenation
/// stops where it would stop in that part alone.
pub proof fn lemma_run_end_shift(s1: Seq<u8>, s2: Seq<u8>, p: int, cls: CharClass)
    requires
        0 <= p <= s2.len(),
    ensures
        run_end(s1 + s2, s1.len() + p, cls) == s1.len() + run_end(s2, p, cls),
    decreases s2.len() - p,
{
    let t = s1 + s2;
    let lp = s1.len() + p;
    if p < s2.len() {
        assert(t[lp] == s2[p]);
        if class_allows_pct(cls) && pct_triple_at(s2, p) {
            assert(t[lp + 1] == s2[p + 1]);
            assert(t[lp + 2] == s2[p + 2]);
            assert(pct_triple_at(t, lp));
            lemma_run_end_shift(s1, s2, p + 3, cls);
        } else if in_class(cls, s2[p]) {
            if class_allows_pct(cls) && pct_triple_at(t, lp) {
                assert(s2[p + 1] == t[lp + 1]);
                assert(s2[p + 2] == t[lp + 2]);
                assert(pct_triple_at(s2, p));
            }
            lemma_run_end_shift(s1, s2, p + 1, cls);
        } else {
            if class_allows_pct(cls) && pct_triple_at(t, lp) {
                assert(s2[p + 1] == t[lp + 1]);
                assert(s2[p + 2] == t[lp + 2]);
                assert(pct_triple_at(s2, p));
            }
        }
    }
}

/// The *( "/" segment ) repetition beginning inside the second part of
/// a concatenation stops where it would stop in that part alone.
pub proof fn lemma_abempty_shift(s1: Seq<u8>, s2: Seq<u8>, p: int)
    requires
        0 <= p <= s2.len(),
    ensures
        abempty_end(s1 + s2, s1.len() + p) == s1.len() + abempty_end(s2, p),
    decreases s2.len() - p,
{
    let t = s1 + s2;
    let lp = s1.len() + p;
    if p < s2.len() && s2[p] == SLASH {
        assert(t[lp] == s2[p]);
        lemma_run_end_shift(s1, s2, p + 1, CharClass::Segment);
        lemma_run_end_props(s2, p + 1, CharClass::Segment);
        lemma_abempty_shift(s1, s2, run_end(s2, p + 1, CharClass::Segment));
    } else if p < s2.len() {
        assert(t[lp] == s2[p]);
    }
}

/// A scheme-tail run that consumes its whole buffer still stops at that
/// buffer's end after more bytes are appended, provided the appended
/// text is empty or starts with a slash.
proof fn lemma_scheme_run_extends(s1: Seq<u8>, s2: Seq<u8>, p: int)
    requires
        0 <= p <= s1.len(),
        run_end(s1, p, CharClass::SchemeTail) == s1.len(),
        s2.len() == 0 || s2[0] == SLASH,
    ensures
        run_end(s1 + s2, p, CharClass::SchemeTail) == s1.len(),
    decreases s1.len() - p,
{
    let t = s1 + s2;
    if p < s1.len() {
        lemma_run_end_props(s1, p + 1, CharClass::SchemeTail);
        assert(in_class(CharClass::SchemeTail, s1[p]));
        assert(t[p] == s1[p]);
        lemma_scheme_run_extends(s1, s2, p + 1);
    } else {
        if s2.len() > 0 {
            assert(t[p] == s2[0]);
            assert(!in_class(CharClass::SchemeTail, SLASH));
        }
    }
}

/// Idempotent remainder chaining: take a scheme text — an input that
/// the scheme production accepts in full — and a path text that the
/// path-abempty production accepts, beginning with a slash or empty.
/// Parsing their concatenation with scheme and then path-abempty yields
/// the same two spans as parsing each text in isolation: the scheme span
/// is exactly the scheme text, and the path span covers the same bytes
/// as the span path-abempty returns on the path text alone.
pub proof fn lemma_scheme_abempty_chaining(s1: Seq<u8>, s2: Seq<u8>)
    requires
        scheme_ok(s1, 0),
        scheme_end(s1, 0) == s1.len(),
        s2.len() == 0 || s2[0] == SLASH,
    ensures
        scheme_ok(s1 + s2, 0),
        scheme_end(s1 + s2, 0) == s1.len(),
        (s1 + s2).subrange(0, s1.len() as int) == s1,
        abempty_end(s1 + s2, s1.len() as int) == s1.len() + abempty_end(s2, 0),
        (s1 + s2).subrange(s1.len() as int, s1.len() + abempty_end(s2, 0)) == s2.subrange(
            0,
            abempty_end(s2, 0),
        ),
{
    let t = s1 + s2;
    assert(t[0] == s1[0]);
    lemma_scheme_run_extends(s1, s2, 1);
    assert(t.subrange(0, s1.len() as int) =~= s1);
    lemma_abempty_shift(s1, s2, 0);
    lemma_abempty_end_bounds(s2, 0);
    assert(t.subrange(s1.len() as int, s1.len() + abempty_end(s2, 0)) =~= s2.subrange(
        0,
        abempty_end(s2, 0),
    ));
}

} // verus!
