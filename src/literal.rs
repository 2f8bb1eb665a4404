//! Scanners for integer, string and boolean literals.

use vstd::prelude::*;
use vstd::string::StringSliceAdditionalSpecFns;

use crate::buffer::ByteView;
use crate::foreign::{string_from_utf8, utf8_decode};
use crate::lexical::{
    advances, lemma_run_end, span_len, tag, tag_no_case, tag_no_case_spec, tag_spec, yields,
    ByteClass,
};

verus! {

/// The value of a sequence of ASCII decimal digits.
pub open spec fn digits_value(d: Seq<u8>) -> nat
    decreases d.len(),
{
    if d.len() == 0 {
        0
    } else {
        digits_value(d.drop_last()) * 10 + (d.last() - ('0' as u8)) as nat
    }
}

/// The byte that opens and closes a string literal.
pub open spec fn quote() -> u8 {
    '\'' as u8
}

/// An integer literal: an optional `-`, then one or more decimal digits,
/// whose value must fit in an `i64`.
pub open spec fn integer_spec(s: Seq<u8>) -> Option<(i64, Seq<u8>)> {
    let neg = s.len() > 0 && s[0] == '-' as u8;
    let t = if neg {
        s.skip(1)
    } else {
        s
    };
    let n = span_len(t, ByteClass::Digit);
    let v: int = if neg {
        -digits_value(t.take(n as int))
    } else {
        digits_value(t.take(n as int)) as int
    };
    if n > 0 && i64::MIN <= v <= i64::MAX {
        Some((v as i64, t.skip(n as int)))
    } else {
        None
    }
}

/// An unsigned integer: one or more decimal digits whose value must fit in
/// a `u64`.
pub open spec fn unsigned_spec(s: Seq<u8>) -> Option<(u64, Seq<u8>)> {
    let n = span_len(s, ByteClass::Digit);
    let v = digits_value(s.take(n as int));
    if n > 0 && v <= u64::MAX {
        Some((v as u64, s.skip(n as int)))
    } else {
        None
    }
}

/// The body of a string literal, up to its closing quote: each byte that
/// is not a quote stands for itself and two quotes stand for one. Gives the
/// bytes meant and what follows the body.
pub open spec fn quoted_body(s: Seq<u8>) -> (Seq<u8>, Seq<u8>)
    decreases s.len(),
{
    if s.len() > 0 && s[0] != quote() {
        let (b, r) = quoted_body(s.skip(1));
        (seq![s[0]] + b, r)
    } else if s.len() > 1 && s[0] == quote() && s[1] == quote() {
        let (b, r) = quoted_body(s.skip(2));
        (seq![quote()] + b, r)
    } else {
        (seq![], s)
    }
}

/// A string literal between single quotes, as the bytes it means and what
/// follows the closing quote.
pub open spec fn raw_string_spec(s: Seq<u8>) -> Option<(Seq<u8>, Seq<u8>)> {
    if s.len() > 0 && s[0] == quote() {
        let (b, r) = quoted_body(s.skip(1));
        if r.len() > 0 && r[0] == quote() {
            Some((b, r.skip(1)))
        } else {
            None
        }
    } else {
        None
    }
}

/// A string literal whose bytes are valid UTF-8, as its text.
pub open spec fn string_spec(s: Seq<u8>) -> Option<(Seq<char>, Seq<u8>)> {
    match raw_string_spec(s) {
        Some((b, r)) => match utf8_decode(b) {
            Some(text) => Some((text, r)),
            None => None,
        },
        None => None,
    }
}

/// `true` or `false`, without regard to case.
pub open spec fn bool_spec(s: Seq<u8>) -> Option<(bool, Seq<u8>)> {
    match tag_no_case_spec(s, "true".spec_bytes()) {
        Some(r) => Some((true, r)),
        None => match tag_no_case_spec(s, "false".spec_bytes()) {
            Some(r) => Some((false, r)),
            None => None,
        },
    }
}

proof fn lemma_digits_prefix(d: Seq<u8>, j: int)
    requires
        0 <= j <= d.len(),
    ensures
        digits_value(d.take(j)) <= digits_value(d),
    decreases d.len() - j,
{
    if j < d.len() {
        lemma_digits_prefix(d, j + 1);
        assert(d.take(j + 1).drop_last() =~= d.take(j));
    } else {
        assert(d.take(j) =~= d);
    }
}

/// The value of a run of decimal digits, or `None` where it does not fit in
/// a `u64`.
fn decimal_value(d: &ByteView) -> (r: Option<u64>)
    requires
        forall|k: int| 0 <= k < d@.len() ==> ('0' as u8) <= #[trigger] d@[k] <= ('9' as u8),
    ensures
        match r {
            Some(v) => v == digits_value(d@),
            None => digits_value(d@) > u64::MAX,
        },
{
    let n = d.input_len();
    let mut acc: u64 = 0;
    let mut k: usize = 0;
    while k < n
        invariant
            n == d@.len(),
            k <= n,
            acc == digits_value(d@.take(k as int)),
            forall|j: int| 0 <= j < d@.len() ==> ('0' as u8) <= #[trigger] d@[j] <= ('9' as u8),
        decreases n - k,
    {
        let digit = d.byte(k) - ('0' as u8);
        assert(d@.take(k + 1).drop_last() =~= d@.take(k as int));
        let next = match acc.checked_mul(10) {
            Some(m) => m.checked_add(digit as u64),
            None => None,
        };
        match next {
            Some(v) => {
                acc = v;
                k = k + 1;
            },
            None => {
                proof {
                    lemma_digits_prefix(d@, k + 1);
                }
                return None;
            },
        }
    }
    assert(d@.take(n as int) =~= d@);
    Some(acc)
}

/// An integer literal: an optional `-`, then decimal digits, whose value
/// must fit in an `i64`.
pub fn integer_constant(i: &ByteView) -> (r: Option<(ByteView, i64)>)
    ensures
        yields(r, *i, integer_spec(i@)),
{
    let neg = i.input_len() > 0 && i.byte(0) == '-' as u8;
    let t = if neg {
        i.take_split(1).0
    } else {
        i.share()
    };
    let n = t.span(ByteClass::Digit);
    proof {
        lemma_run_end(t@, ByteClass::Digit, 0);
    }
    if n == 0 {
        return None;
    }
    let (rest, digits) = t.take_split(n);
    match decimal_value(&digits) {
        None => None,
        Some(v) => {
            if neg {
                if v <= 9223372036854775807 {
                    Some((rest, -(v as i64)))
                } else if v == 9223372036854775808 {
                    Some((rest, i64::MIN))
                } else {
                    None
                }
            } else if v <= 9223372036854775807 {
                Some((rest, v as i64))
            } else {
                None
            }
        },
    }
}

/// An unsigned integer: decimal digits whose value must fit in a `u64`.
pub fn unsigned_number(i: &ByteView) -> (r: Option<(ByteView, u64)>)
    ensures
        yields(r, *i, unsigned_spec(i@)),
{
    let n = i.span(ByteClass::Digit);
    proof {
        lemma_run_end(i@, ByteClass::Digit, 0);
    }
    if n == 0 {
        return None;
    }
    let (rest, digits) = i.take_split(n);
    match decimal_value(&digits) {
        None => None,
        Some(v) => Some((rest, v)),
    }
}

/// A string literal between single quotes, with each doubled quote inside
/// it read as one quote.
pub fn raw_string_quoted(i: &ByteView) -> (r: Option<(ByteView, Vec<u8>)>)
    ensures
        yields(r, *i, raw_string_spec(i@)),
{
    let q = '\'' as u8;
    if i.input_len() == 0 || i.byte(0) != q {
        return None;
    }
    let body = i.take_split(1).0;
    let n = body.input_len();
    let mut acc: Vec<u8> = Vec::new();
    let mut k: usize = 0;
    assert(body@.skip(0) =~= body@);
    assert(acc@ + quoted_body(body@).0 =~= quoted_body(body@).0);
    loop
        invariant
            n == body@.len(),
            k <= n,
            q == quote(),
            acc@ + quoted_body(body@.skip(k as int)).0 == quoted_body(body@).0,
            quoted_body(body@.skip(k as int)).1 == quoted_body(body@).1,
        ensures
            k <= n,
            acc@ == quoted_body(body@).0,
            body@.skip(k as int) == quoted_body(body@).1,
        decreases n - k,
    {
        let ghost s = body@.skip(k as int);
        if k < n && body.byte(k) != q {
            let b = body.byte(k);
            assert(s.skip(1) =~= body@.skip(k + 1));
            assert(acc@.push(b) + quoted_body(s.skip(1)).0 =~= acc@ + (seq![b] + quoted_body(
                s.skip(1),
            ).0));
            acc.push(b);
            k = k + 1;
        } else if n - k >= 2 && body.byte(k) == q && body.byte(k + 1) == q {
            assert(s.skip(2) =~= body@.skip(k + 2));
            assert(acc@.push(q) + quoted_body(s.skip(2)).0 =~= acc@ + (seq![q] + quoted_body(
                s.skip(2),
            ).0));
            acc.push(q);
            k = k + 2;
        } else {
            assert(k < n ==> s[0] == body@[k as int]);
            assert(n - k >= 2 ==> s[1] == body@[k + 1]);
            assert(quoted_body(s) == (Seq::<u8>::empty(), s));
            assert(acc@ + Seq::<u8>::empty() =~= acc@);
            break ;
        }
    }
    let tail = body.take_split(k).0;
    if k < n && tail.byte(0) == q {
        Some((tail.take_split(1).0, acc))
    } else {
        None
    }
}

/// A string literal whose bytes, once the quotes are resolved, are valid
/// UTF-8.
pub fn string_constant(i: &ByteView) -> (r: Option<(ByteView, String)>)
    ensures
        yields(r, *i, string_spec(i@)),
{
    match raw_string_quoted(i) {
        None => None,
        Some((rest, raw)) => match string_from_utf8(raw) {
            Some(text) => Some((rest, text)),
            None => None,
        },
    }
}

/// `true` or `false`, without regard to case.
pub fn bool_constant(i: &ByteView) -> (r: Option<(ByteView, bool)>)
    ensures
        yields(r, *i, bool_spec(i@)),
{
    match tag_no_case(i, "true") {
        Some(rest) => Some((rest, true)),
        None => match tag_no_case(i, "false") {
            Some(rest) => Some((rest, false)),
            None => None,
        },
    }
}

} // verus!
