//! The calls this library makes into the `bytes` crate and into `std`
//! that vstd gives no specification for.

use vstd::prelude::*;

verus! {

/// The shared, reference-counted byte buffer of the `bytes` crate.
#[verifier::external_type_specification]
#[verifier::external_body]
pub struct ExBytes(bytes::Bytes);

/// The bytes a `Bytes` value holds, in order.
pub uninterp spec fn bytes_view(b: bytes::Bytes) -> Seq<u8>;

/// The characters that `String::from_utf8` decodes from a byte sequence,
/// or `None` where the bytes are not valid UTF-8.
pub uninterp spec fn utf8_decode(b: Seq<u8>) -> Option<Seq<char>>;

/// A byte sequence made of ASCII bytes only.
pub open spec fn all_ascii(b: Seq<u8>) -> bool {
    forall|i: int| 0 <= i < b.len() ==> b[i] < 128
}

/// The characters that stand for a sequence of ASCII bytes, one for each.
pub open spec fn ascii_chars(b: Seq<u8>) -> Seq<char> {
    b.map_values(|x: u8| x as char)
}

/// Relies on `Bytes::len`: the number of bytes held.
pub assume_specification[ bytes::Bytes::len ](b: &bytes::Bytes) -> (r: usize)
    ensures
        r == bytes_view(*b).len(),
;

/// Relies on `Clone for Bytes`: a new handle on the same bytes, made by
/// raising the reference count, never by copying.
pub assume_specification[ <bytes::Bytes as Clone>::clone ](b: &bytes::Bytes) -> (r: bytes::Bytes)
    ensures
        bytes_view(r) == bytes_view(*b),
;

/// Relies on `Deref for Bytes` and slice indexing: the byte at position `i`.
#[verifier::external_body]
pub(crate) fn byte_at(b: &bytes::Bytes, i: usize) -> (r: u8)
    requires
        i < bytes_view(*b).len(),
    ensures
        r == bytes_view(*b)[i as int],
{
    b[i]
}

/// Relies on `Bytes::slice`: a handle on the bytes from `start` up to `end`,
/// sharing the same storage. It panics unless `start <= end <= len`.
#[verifier::external_body]
pub(crate) fn bytes_slice(b: &bytes::Bytes, start: usize, end: usize) -> (r: bytes::Bytes)
    requires
        start <= end <= bytes_view(*b).len(),
    ensures
        bytes_view(r) == bytes_view(*b).subrange(start as int, end as int),
{
    b.slice(start..end)
}

/// Relies on `String::from_utf8`: the string decoded from `b`, or `None`
/// where `b` is not valid UTF-8. ASCII bytes are valid UTF-8 and decode to
/// the characters of the same codes.
#[verifier::external_body]
pub(crate) fn string_from_utf8(b: Vec<u8>) -> (r: Option<String>)
    ensures
        r is None ==> utf8_decode(b@) is None,
        r matches Some(s) ==> utf8_decode(b@) == Some(s@),
        all_ascii(b@) ==> r is Some,
        r matches Some(s) ==> (all_ascii(b@) ==> s@ == ascii_chars(b@)),
{
    String::from_utf8(b).ok()
}

} // verus!
