//! Lexical primitives: byte classes, runs, whitespace and keywords.

use vstd::prelude::*;
use vstd::string::StringSliceAdditionalSpecFns;

use crate::buffer::ByteView;
use crate::foreign::{all_ascii, ascii_chars, string_from_utf8};

verus! {

/// The classes of bytes that the grammar scans runs of.
#[derive(Clone, Copy, Debug, PartialEq, Eq)]
pub enum ByteClass {
    /// Space, tab, carriage return and line feed.
    Whitespace,
    /// The ASCII decimal digits.
    Digit,
    /// ASCII letters, digits and the underscore.
    IdentChar,
    /// Every byte but the single quote.
    NonQuote,
}

pub open spec fn is_space(b: u8) -> bool {
    b == (' ' as u8) || b == ('\t' as u8) || b == ('\r' as u8) || b == ('\n' as u8)
}

pub open spec fn is_digit(b: u8) -> bool {
    ('0' as u8) <= b <= ('9' as u8)
}

pub open spec fn is_ident_char(b: u8) -> bool {
    ('a' as u8) <= b <= ('z' as u8) || ('A' as u8) <= b <= ('Z' as u8) || is_digit(b) || b == ('_' as u8)
}

impl ByteClass {
    pub open spec fn holds(self, b: u8) -> bool {
        match self {
            ByteClass::Whitespace => is_space(b),
            ByteClass::Digit => is_digit(b),
            ByteClass::IdentChar => is_ident_char(b),
            ByteClass::NonQuote => b != ('\'' as u8),
        }
    }

    /// Whether `b` belongs to the class.
    pub fn contains(&self, b: u8) -> (r: bool)
        ensures
            r == self.holds(b),
    {
        match self {
            ByteClass::Whitespace => b == (' ' as u8) || b == ('\t' as u8) || b == ('\r' as u8) || b == ('\n' as u8),
            ByteClass::Digit => ('0' as u8) <= b && b <= ('9' as u8),
            ByteClass::IdentChar => (('a' as u8) <= b && b <= ('z' as u8)) || (('A' as u8) <= b && b <= ('Z' as u8)) || (
            ('0' as u8) <= b && b <= ('9' as u8)) || b == ('_' as u8),
            ByteClass::NonQuote => b != ('\'' as u8),
        }
    }
}

/// Where the run of bytes of `class` that begins at `i` ends.
pub open spec fn run_end(s: Seq<u8>, class: ByteClass, i: nat) -> nat
    decreases s.len() - i,
{
    if i < s.len() && class.holds(s[i as int]) {
        run_end(s, class, i + 1)
    } else {
        i
    }
}

/// The length of the longest prefix of `s` made of bytes of `class`.
pub open spec fn span_len(s: Seq<u8>, class: ByteClass) -> nat {
    run_end(s, class, 0)
}


/// `o` is what is left of `i` after a prefix was consumed.
pub open spec fn advances(i: ByteView, o: ByteView) -> bool {
    o.source() == i.source() && o.end_pos() == i.end_pos()
}

/// An exec result that holds what remains of `i`, as `spec` gives it.
pub open spec fn rest_is(r: Option<ByteView>, i: ByteView, spec: Option<Seq<u8>>) -> bool {
    match spec {
        Some(t) => r matches Some(o) && o@ == t && advances(i, o),
        None => r is None,
    }
}

/// An exec result that holds what remains of `i` and a value, as `spec`
/// gives them.
pub open spec fn yields<T: View>(
    r: Option<(ByteView, T)>,
    i: ByteView,
    spec: Option<(T::V, Seq<u8>)>,
) -> bool {
    match spec {
        Some((m, t)) => r matches Some((o, v)) && o@ == t && advances(i, o) && v@ == m,
        None => r is None,
    }
}

/// An exec result that always holds what remains of `i` and a value, as
/// `spec` gives them.
pub open spec fn always_yields<T: View>(r: (ByteView, T), i: ByteView, spec: (T::V, Seq<u8>)) -> bool {
    r.0@ == spec.1 && advances(i, r.0) && r.1@ == spec.0
}

/// The ASCII lower case of a byte.
pub open spec fn lower(b: u8) -> u8 {
    if ('A' as u8) <= b <= ('Z' as u8) {
        (b + 32) as u8
    } else {
        b
    }
}

/// Zero or more whitespace bytes: what follows the longest run.
pub open spec fn space0_spec(s: Seq<u8>) -> Seq<u8> {
    s.skip(span_len(s, ByteClass::Whitespace) as int)
}

/// One or more whitespace bytes: what follows the longest run, which must
/// not be empty.
pub open spec fn space1_spec(s: Seq<u8>) -> Option<Seq<u8>> {
    let n = span_len(s, ByteClass::Whitespace);
    if n > 0 {
        Some(s.skip(n as int))
    } else {
        None
    }
}

/// `s` starts with exactly the bytes of `w`: what follows them.
pub open spec fn tag_spec(s: Seq<u8>, w: Seq<u8>) -> Option<Seq<u8>> {
    if w.len() <= s.len() && forall|j: int| 0 <= j < w.len() ==> s[j] == w[j] {
        Some(s.skip(w.len() as int))
    } else {
        None
    }
}

/// `s` starts with the bytes of `w`, ASCII letters compared without regard
/// to case: what follows them.
pub open spec fn tag_no_case_spec(s: Seq<u8>, w: Seq<u8>) -> Option<Seq<u8>> {
    if w.len() <= s.len() && forall|j: int| 0 <= j < w.len() ==> lower(s[j]) == lower(w[j]) {
        Some(s.skip(w.len() as int))
    } else {
        None
    }
}

/// An identifier: the longest non-empty run of ASCII letters, digits and
/// underscores, with its case kept.
pub open spec fn identifier_spec(s: Seq<u8>) -> Option<(Seq<char>, Seq<u8>)> {
    let n = span_len(s, ByteClass::IdentChar);
    if n > 0 {
        Some((ascii_chars(s.take(n as int)), s.skip(n as int)))
    } else {
        None
    }
}

pub proof fn lemma_run_end(s: Seq<u8>, class: ByteClass, i: nat)
    ensures
        i <= run_end(s, class, i),
        i <= s.len() ==> run_end(s, class, i) <= s.len(),
        forall|k: int| i <= k < run_end(s, class, i) ==> class.holds(#[trigger] s[k]),
        run_end(s, class, i) < s.len() ==> !class.holds(s[run_end(s, class, i) as int]),
    decreases s.len() - i,
{
    if i < s.len() && class.holds(s[i as int]) {
        lemma_run_end(s, class, i + 1);
    }
}

/// The ASCII lower case of a byte.
pub fn to_lower(b: u8) -> (r: u8)
    ensures
        r == lower(b),
{
    if ('A' as u8) <= b && b <= ('Z' as u8) {
        b + 32
    } else {
        b
    }
}

/// Skips a run of zero or more whitespace bytes.
pub fn space0(i: &ByteView) -> (r: ByteView)
    ensures
        r@ == space0_spec(i@),
        advances(*i, r),
{
    let n = i.span(ByteClass::Whitespace);
    proof {
        lemma_run_end(i@, ByteClass::Whitespace, 0);
    }
    i.take_split(n).0
}

/// Skips a run of one or more whitespace bytes.
pub fn space1(i: &ByteView) -> (r: Option<ByteView>)
    ensures
        rest_is(r, *i, space1_spec(i@)),
{
    let n = i.span(ByteClass::Whitespace);
    proof {
        lemma_run_end(i@, ByteClass::Whitespace, 0);
    }
    if n == 0 {
        None
    } else {
        Some(i.take_split(n).0)
    }
}

/// Matches the bytes of `word` exactly.
pub fn tag(i: &ByteView, word: &str) -> (r: Option<ByteView>)
    ensures
        rest_is(r, *i, tag_spec(i@, word.spec_bytes())),
{
    let w = word.as_bytes();
    let n = w.len();
    if n > i.input_len() {
        return None;
    }
    let mut j: usize = 0;
    while j < n
        invariant
            n == w@.len(),
            w@ == word.spec_bytes(),
            n <= i@.len(),
            j <= n,
            forall|k: int| 0 <= k < j ==> i@[k] == w@[k],
        decreases n - j,
    {
        if i.byte(j) != w[j] {
            return None;
        }
        j = j + 1;
    }
    Some(i.take_split(n).0)
}

/// Matches the bytes of `word`, ASCII letters compared without regard to
/// case.
pub fn tag_no_case(i: &ByteView, word: &str) -> (r: Option<ByteView>)
    ensures
        rest_is(r, *i, tag_no_case_spec(i@, word.spec_bytes())),
{
    let w = word.as_bytes();
    let n = w.len();
    if n > i.input_len() {
        return None;
    }
    let mut j: usize = 0;
    while j < n
        invariant
            n == w@.len(),
            w@ == word.spec_bytes(),
            n <= i@.len(),
            j <= n,
            forall|k: int| 0 <= k < j ==> lower(i@[k]) == lower(w@[k]),
        decreases n - j,
    {
        if to_lower(i.byte(j)) != to_lower(w[j]) {
            return None;
        }
        j = j + 1;
    }
    Some(i.take_split(n).0)
}

/// An identifier: the longest non-empty run of ASCII letters, digits and
/// underscores.
pub fn identifier(i: &ByteView) -> (r: Option<(ByteView, String)>)
    ensures
        yields(r, *i, identifier_spec(i@)),
{
    let n = i.span(ByteClass::IdentChar);
    proof {
        lemma_run_end(i@, ByteClass::IdentChar, 0);
    }
    if n == 0 {
        return None;
    }
    let (rest, name) = i.take_split(n);
    let raw = name.to_vec();
    assert(all_ascii(raw@));
    match string_from_utf8(raw) {
        Some(s) => Some((rest, s)),
        None => None,
    }
}

} // verus!
