//! A cheap, immutable view over a shared byte buffer.
//!
//! A `ByteView` is a window `[start, end)` over a reference-counted
//! `bytes::Bytes`. Taking a prefix or a suffix only moves the two indices
//! and shares the storage, so backtracking over alternatives never copies
//! input bytes.

use vstd::prelude::*;

use crate::foreign::{byte_at, bytes_slice, bytes_view};
use crate::lexical::{run_end, span_len, ByteClass};

verus! {

/// A window over a shared, immutable byte buffer.
#[derive(Debug)]
pub struct ByteView {
    buf: bytes::Bytes,
    start: usize,
    end: usize,
}

impl View for ByteView {
    type V = Seq<u8>;

    /// The bytes inside the window.
    closed spec fn view(&self) -> Seq<u8> {
        bytes_view(self.buf).subrange(self.start as int, self.end as int)
    }
}

impl ByteView {
    /// The whole backing buffer that the window looks into.
    pub closed spec fn source(&self) -> Seq<u8> {
        bytes_view(self.buf)
    }

    /// Where the window starts in its backing buffer.
    pub closed spec fn pos(&self) -> nat {
        self.start as nat
    }

    /// Where the window ends in its backing buffer.
    pub open spec fn end_pos(&self) -> nat {
        self.pos() + self@.len()
    }

    #[verifier::type_invariant]
    closed spec fn inv(&self) -> bool {
        self.start <= self.end <= bytes_view(self.buf).len()
    }

    /// A view over the whole of `buf`.
    pub fn new(buf: bytes::Bytes) -> (r: ByteView)
        ensures
            r@ == bytes_view(buf),
            r.source() == bytes_view(buf),
            r.pos() == 0,
    {
        let end = buf.len();
        let r = ByteView { buf, start: 0, end };
        assert(r@ =~= bytes_view(r.buf));
        r
    }

    /// The bytes of the window as a `Bytes` handle on the same storage.
    pub fn into_bytes(self) -> (r: bytes::Bytes)
        ensures
            bytes_view(r) == self@,
    {
        proof {
            use_type_invariant(&self);
        }
        bytes_slice(&self.buf, self.start, self.end)
    }

    /// The number of bytes in the window.
    pub fn input_len(&self) -> (r: usize)
        ensures
            r == self@.len(),
    {
        proof {
            use_type_invariant(self);
        }
        self.end - self.start
    }

    /// The byte at position `i` of the window.
    pub fn byte(&self, i: usize) -> (r: u8)
        requires
            i < self@.len(),
        ensures
            r == self@[i as int],
    {
        proof {
            use_type_invariant(self);
        }
        byte_at(&self.buf, self.start + i)
    }

    /// Another handle on the same window; no byte is copied.
    pub fn share(&self) -> (r: ByteView)
        ensures
            r@ == self@,
            r.source() == self.source(),
            r.pos() == self.pos(),
    {
        proof {
            use_type_invariant(self);
        }
        ByteView { buf: self.buf.clone(), start: self.start, end: self.end }
    }

    /// The first `count` bytes of the window.
    pub fn take(&self, count: usize) -> (r: ByteView)
        requires
            count <= self@.len(),
        ensures
            r@ == self@.take(count as int),
            r.source() == self.source(),
            r.pos() == self.pos(),
    {
        proof {
            use_type_invariant(self);
        }
        let r = ByteView { buf: self.buf.clone(), start: self.start, end: self.start + count };
        assert(r@ =~= self@.take(count as int));
        r
    }

    /// Splits the window at `count`: the part after it, then the first
    /// `count` bytes.
    pub fn take_split(&self, count: usize) -> (r: (ByteView, ByteView))
        requires
            count <= self@.len(),
        ensures
            r.0@ == self@.skip(count as int),
            r.1@ == self@.take(count as int),
            r.0.source() == self.source(),
            r.1.source() == self.source(),
            r.0.pos() == self.pos() + count,
            r.1.pos() == self.pos(),
            r.0.end_pos() == self.end_pos(),
    {
        proof {
            use_type_invariant(self);
        }
        let mid = self.start + count;
        let suffix = ByteView { buf: self.buf.clone(), start: mid, end: self.end };
        let prefix = ByteView { buf: self.buf.clone(), start: self.start, end: mid };
        assert(suffix@ =~= self@.skip(count as int));
        assert(prefix@ =~= self@.take(count as int));
        (suffix, prefix)
    }

    /// How far `second` starts after `self`, for two views over the same
    /// buffer.
    pub fn offset(&self, second: &ByteView) -> (r: usize)
        requires
            self.source() == second.source(),
            self.pos() <= second.pos(),
        ensures
            r == second.pos() - self.pos(),
    {
        second.start - self.start
    }

    /// The length of the longest prefix of the window whose bytes all
    /// belong to `class`; this is also the position of the first byte
    /// outside it, or the length of the window where there is none.
    pub fn span(&self, class: ByteClass) -> (r: usize)
        ensures
            r == span_len(self@, class),
    {
        let n = self.input_len();
        let mut i: usize = 0;
        while i < n && class.contains(self.byte(i))
            invariant
                n == self@.len(),
                i <= n,
                run_end(self@, class, i as nat) == span_len(self@, class),
            decreases n - i,
        {
            i = i + 1;
        }
        i
    }

    /// A copy of the bytes of the window.
    pub fn to_vec(&self) -> (r: Vec<u8>)
        ensures
            r@ == self@,
    {
        let n = self.input_len();
        let mut out: Vec<u8> = Vec::with_capacity(n);
        let mut i: usize = 0;
        while i < n
            invariant
                n == self@.len(),
                i <= n,
                out@ == self@.take(i as int),
            decreases n - i,
        {
            out.push(self.byte(i));
            i = i + 1;
            assert(out@ =~= self@.take(i as int));
        }
        assert(self@.take(n as int) =~= self@);
        out
    }

    /// The first position at which `needle` occurs in the window.
    pub fn find_substring(&self, needle: &[u8]) -> (r: Option<usize>)
        ensures
            match r {
                Some(k) => occurs_at(self@, needle@, k as int) && forall|j: int|
                    0 <= j < k ==> !occurs_at(self@, needle@, j),
                None => forall|j: int| 0 <= j <= self@.len() ==> !occurs_at(self@, needle@, j),
            },
    {
        let n = self.input_len();
        let m = needle.len();
        if m > n {
            return None;
        }
        let mut k: usize = 0;
        while k <= n - m
            invariant
                n == self@.len(),
                m == needle@.len(),
                m <= n,
                k <= n - m + 1,
                forall|j: int| 0 <= j < k ==> !occurs_at(self@, needle@, j),
            decreases n - m + 1 - k,
        {
            let mut t: usize = 0;
            while t < m && self.byte(k + t) == needle[t]
                invariant
                    n == self@.len(),
                    m == needle@.len(),
                    k + m <= n,
                    t <= m,
                    forall|u: int| 0 <= u < t ==> self@[k + u] == needle@[u],
                decreases m - t,
            {
                t = t + 1;
            }
            if t == m {
                return Some(k);
            }
            k = k + 1;
        }
        None
    }
}

/// Two views are equal when they hold the same bytes, wherever these are
/// stored.
impl PartialEq for ByteView {
    fn eq(&self, o: &ByteView) -> (r: bool) {
        let n = self.input_len();
        if n != o.input_len() {
            return false;
        }
        let mut k: usize = 0;
        while k < n
            invariant
                n == self@.len(),
                n == o@.len(),
                k <= n,
                forall|j: int| 0 <= j < k ==> self@[j] == o@[j],
            decreases n - k,
        {
            if self.byte(k) != o.byte(k) {
                return false;
            }
            k = k + 1;
        }
        assert(self@ =~= o@);
        true
    }
}

impl vstd::std_specs::cmp::PartialEqSpecImpl for ByteView {
    open spec fn obeys_eq_spec() -> bool {
        true
    }

    open spec fn eq_spec(&self, o: &ByteView) -> bool {
        self@ == o@
    }
}

/// `needle` stands in `s` from position `k` on.
pub open spec fn occurs_at(s: Seq<u8>, needle: Seq<u8>, k: int) -> bool {
    &&& 0 <= k
    &&& k + needle.len() <= s.len()
    &&& forall|u: int| 0 <= u < needle.len() ==> s[k + u] == needle[u]
}

} // verus!
