//! The values that the productions return: spans into the input buffer,
//! the tagged host / path / query-or-fragment variants, the authority
//! record, and the error report of a failed production.

use vstd::prelude::*;

verus! {

/// A contiguous region of the caller's input buffer, identified by its
/// byte offsets. The parsers never copy character data: a production
/// that yields text yields the half-open index range `[start, end)` of
/// the raw bytes it consumed.
#[derive(Clone, Copy, PartialEq, Eq, Structural, Debug)]
pub struct Span {
    pub start: usize,
    pub end: usize,
}

impl Span {
    /// A span is well formed for a buffer when its offsets are ordered
    /// and lie inside the buffer.
    pub open spec fn wf(self, s: Seq<u8>) -> bool {
        self.start <= self.end <= s.len()
    }

    /// The bytes of the buffer that the span designates.
    pub open spec fn bytes_of(self, s: Seq<u8>) -> Seq<u8> {
        s.subrange(self.start as int, self.end as int)
    }

    /// Slice the designated bytes out of the buffer the span was made for.
    pub fn bytes<'a>(&self, input: &'a [u8]) -> (r: &'a [u8])
        requires
            self.wf(input@),
        ensures
            r@ == self.bytes_of(input@),
    {
        vstd::slice::slice_subrange(input, self.start, self.end)
    }
}

/// The kind of a parse failure, as the error taxonomy has it.
#[derive(Clone, Copy, PartialEq, Eq, Structural, Debug)]
pub enum ErrorKind {
    /// The character class or literal the grammar expects is absent.
    CharClass,
    /// A multi-byte token (a percent-encoded triple) is cut off by the
    /// end of the buffer; more input might complete it.
    Incomplete,
    /// A digit run parses but its value exceeds the legal range of the
    /// target integer (a port or an IPv4 octet).
    Range,
    /// The grammar reaches a construct this engine does not implement
    /// (the interior of a bracketed IP literal).
    Unsupported,
}

/// A soft parse failure: its kind together with the byte offset at which
/// it was detected. The caller may try a sibling alternative against the
/// same unconsumed input.
#[derive(Clone, Copy, PartialEq, Eq, Structural, Debug)]
pub struct ParseError {
    pub kind: ErrorKind,
    pub pos: usize,
}

/// The tagged host variants: dotted-quad IPv4, bracketed IP literal
/// (never produced, since the literal interior is unimplemented), and
/// the registered-name catch-all.
#[derive(Clone, Copy, PartialEq, Eq, Structural, Debug)]
pub enum Host {
    V4(Span),
    V6(Span),
    RegistryName(Span),
}

/// The five mutually exclusive path forms of the grammar.
#[derive(Clone, Copy, PartialEq, Eq, Structural, Debug)]
pub enum Path {
    AbEmpty(Span),
    Absolute(Span),
    NoScheme(Span),
    Rootless(Span),
    Empty,
}

/// A query or a fragment: the same character set, differing only in the
/// tag the caller assigns.
#[derive(Clone, Copy, PartialEq, Eq, Structural, Debug)]
pub enum UriPart {
    Query(Span),
    Fragment(Span),
}

/// The authority component: an optional userinfo span (present only when
/// an `@` separator was matched), the mandatory host, and an optional
/// port value. An empty port span counts as "absent", distinct from a
/// present zero.
#[derive(Clone, Copy, PartialEq, Eq, Debug)]
pub struct Authority {
    pub userinfo: Option<Span>,
    pub host: Host,
    pub port: Option<u16>,
}

} // verus!
