//! Wire primitives: C-style strings, borrowed byte views that may be absent, and a growable
//! sink.
//!
//! Everything that crosses the plugin boundary is built from these. None of them keeps state
//! between two calls: a [`Slice`] borrows the caller's bytes for one call, and a [`Writer`] is
//! handed to the plugin for one call and read back afterwards.

use vstd::prelude::*;
use vstd::slice::{slice_subrange, slice_to_vec};
use vstd::utf8::{decode_utf8, valid_utf8};

verus! {

/// The length of the C string that `bytes` starts with: the number of bytes before the first
/// NUL byte, or the length of `bytes` if it holds none.
pub open spec fn spec_c_str_len(bytes: Seq<u8>) -> nat
    decreases bytes.len(),
{
    if bytes.len() == 0 || bytes[0] == 0 {
        0
    } else {
        1 + spec_c_str_len(bytes.skip(1))
    }
}

/// The text of the C string that `bytes` starts with, without its terminator.
pub open spec fn c_str_text(bytes: Seq<u8>) -> Seq<u8> {
    bytes.take(spec_c_str_len(bytes) as int)
}

/// `spec_c_str_len` is the index of the first NUL byte, or the length where there is none.
pub proof fn lemma_c_str_len(bytes: Seq<u8>)
    ensures
        spec_c_str_len(bytes) <= bytes.len(),
        forall|i: int| 0 <= i < spec_c_str_len(bytes) ==> bytes[i] != 0,
        spec_c_str_len(bytes) < bytes.len() ==> bytes[spec_c_str_len(bytes) as int] == 0,
    decreases bytes.len(),
{
    if bytes.len() == 0 || bytes[0] == 0 {
    } else {
        let rest = bytes.skip(1);
        lemma_c_str_len(rest);
        assert forall|i: int| 0 <= i < spec_c_str_len(bytes) implies bytes[i] != 0 by {
            if i > 0 {
                assert(rest[i - 1] == bytes[i]);
            }
        }
        if spec_c_str_len(bytes) < bytes.len() {
            assert(rest[spec_c_str_len(rest) as int] == bytes[spec_c_str_len(bytes) as int]);
        }
    }
}

/// A prefix without a NUL byte that ends at a NUL byte, or at the end, is the C string.
pub proof fn lemma_c_str_len_unique(bytes: Seq<u8>, n: int)
    requires
        0 <= n <= bytes.len(),
        forall|i: int| 0 <= i < n ==> bytes[i] != 0,
        n < bytes.len() ==> bytes[n] == 0,
    ensures
        spec_c_str_len(bytes) == n,
{
    lemma_c_str_len(bytes);
    let m: int = spec_c_str_len(bytes) as int;
    if m < n {
        assert(bytes[m] != 0);
    } else if n < m {
        assert(bytes[n] != 0);
    }
}

/// The C string at the start of well-formed UTF-8 is well-formed UTF-8: a NUL byte never
/// lies inside the encoding of a character.
pub proof fn lemma_c_str_text_is_utf8(bytes: Seq<u8>)
    requires
        valid_utf8(bytes),
    ensures
        valid_utf8(c_str_text(bytes)),
{
    lemma_c_str_len(bytes);
    let n: int = spec_c_str_len(bytes) as int;
    if n < bytes.len() {
        vstd::utf8::is_char_boundary_iff_not_is_continuation_byte(bytes, n);
        vstd::utf8::valid_utf8_split(bytes, n);
        assert(bytes.take(n) =~= bytes.subrange(0, n));
    } else {
        assert(bytes.take(n) =~= bytes);
    }
}

/// Bytes that follow the first NUL byte do not change the C string.
pub proof fn lemma_c_str_text_of_prefix(bytes: Seq<u8>, longer: Seq<u8>)
    requires
        bytes.len() <= longer.len(),
        longer.take(bytes.len() as int) == bytes,
        bytes.len() < longer.len() ==> longer[bytes.len() as int] == 0,
    ensures
        c_str_text(longer) == c_str_text(bytes),
{
    lemma_c_str_len(bytes);
    let n: int = spec_c_str_len(bytes) as int;
    assert forall|i: int| 0 <= i < n implies longer[i] != 0 by {
        assert(longer[i] == longer.take(bytes.len() as int)[i]);
    }
    if n < bytes.len() {
        assert(longer[n] == longer.take(bytes.len() as int)[n]);
    }
    lemma_c_str_len_unique(longer, n);
    assert(longer.take(n) =~= bytes.take(n));
}

/// The number of bytes before the first NUL byte of `c_str`, or its length if it holds none.
pub fn c_str_len(c_str: &[u8]) -> (n: usize)
    ensures
        n == spec_c_str_len(c_str@),
{
    let mut i: usize = 0;
    while i < c_str.len() && c_str[i] != 0
        invariant
            i <= c_str@.len(),
            forall|j: int| 0 <= j < i ==> c_str@[j] != 0,
        decreases c_str@.len() - i,
    {
        i += 1;
    }
    proof {
        lemma_c_str_len_unique(c_str@, i as int);
    }
    i
}

/// `String::from_utf8` of std: the string that `bytes` encode, if they are well-formed UTF-8,
/// and nothing if they are not.
#[verifier::external_body]
pub(crate) fn string_from_utf8(bytes: Vec<u8>) -> (text: Option<String>)
    ensures
        text is Some <==> valid_utf8(bytes@),
        text matches Some(s) ==> s@ == decode_utf8(bytes@),
{
    String::from_utf8(bytes).ok()
}

/// The text of the C string that `c_str` starts with, or nothing if that text is not
/// well-formed UTF-8.
pub fn c_str_to_string(c_str: &[u8]) -> (text: Option<String>)
    ensures
        text is Some <==> valid_utf8(c_str_text(c_str@)),
        text matches Some(s) ==> s@ == decode_utf8(c_str_text(c_str@)),
{
    let len: usize = c_str_len(c_str);
    proof {
        lemma_c_str_len(c_str@);
    }
    let bytes = slice_to_vec(slice_subrange(c_str, 0, len));
    assert(bytes@ == c_str_text(c_str@));
    string_from_utf8(bytes)
}

/// Values that can be read from a C string.
pub trait FromCStr: Sized {
    /// Whether `self` is the value that the text `text` stands for. Unless a type says
    /// otherwise, nothing is known of the value that is read.
    open spec fn holds_text(&self, text: Seq<u8>) -> bool {
        true
    }

    /// Reads a value from `c_str`; where `c_str` holds no NUL byte, all of it is the text.
    fn from_c_str(c_str: &[u8]) -> (value: Self)
        requires
            valid_utf8(c_str_text(c_str@)),
        ensures
            value.holds_text(c_str_text(c_str@)),
    ;
}

impl FromCStr for String {
    open spec fn holds_text(&self, text: Seq<u8>) -> bool {
        self@ == decode_utf8(text)
    }

    fn from_c_str(c_str: &[u8]) -> (value: String) {
        c_str_to_string(c_str).unwrap()
    }
}

/// Whether the two slices hold the same bytes.
pub fn bytes_eq(a: &[u8], b: &[u8]) -> (same: bool)
    ensures
        same == (a@ == b@),
{
    if a.len() != b.len() {
        return false;
    }
    let mut i: usize = 0;
    while i < a.len()
        invariant
            i <= a@.len(),
            a@.len() == b@.len(),
            forall|j: int| 0 <= j < i ==> a@[j] == b@[j],
        decreases a@.len() - i,
    {
        if a[i] != b[i] {
            return false;
        }
        i += 1;
    }
    assert(a@ =~= b@);
    true
}

/// The sequence behind `bytes`, if there are bytes.
pub open spec fn spec_seq_of(bytes: Option<&[u8]>) -> Option<Seq<u8>> {
    match bytes {
        Some(b) => Some(b@),
        None => None,
    }
}

/// A read-only view of bytes that the caller owns, or the sign that an argument was left
/// out. An absent view and a present view of no bytes are different values.
#[derive(Clone, Copy, Debug)]
pub struct Slice<'a> {
    bytes: Option<&'a [u8]>,
}

impl<'a> View for Slice<'a> {
    type V = Option<Seq<u8>>;

    closed spec fn view(&self) -> Option<Seq<u8>> {
        match self.bytes {
            Some(b) => Some(b@),
            None => None,
        }
    }
}

impl<'a> Slice<'a> {
    /// A view of `bytes`.
    pub fn new(bytes: &'a [u8]) -> (slice: Slice<'a>)
        ensures
            slice@ == Some(bytes@),
    {
        Slice { bytes: Some(bytes) }
    }

    /// The view that stands for an argument which was not supplied.
    pub fn absent() -> (slice: Slice<'a>)
        ensures
            slice@ is None,
    {
        Slice { bytes: None }
    }

    /// A view of `bytes` where there are any, the absent view where there are none.
    pub fn from_option(bytes: Option<&'a [u8]>) -> (slice: Slice<'a>)
        ensures
            slice@ == spec_seq_of(bytes),
    {
        Slice { bytes }
    }

    /// The bytes behind the view, or `None` if the view is absent.
    pub fn slice_t(&self) -> (bytes: Option<&'a [u8]>)
        ensures
            self@ == spec_seq_of(bytes),
    {
        self.bytes
    }
}

/// A write-only sink whose storage the caller owns. It grows on demand, up to its limit if it
/// has one, and the caller reads the bytes back after the call.
#[derive(Debug)]
pub struct Writer {
    data: Vec<u8>,
    limit: Option<usize>,
}

impl View for Writer {
    type V = Seq<u8>;

    /// The bytes written so far.
    closed spec fn view(&self) -> Seq<u8> {
        self.data@
    }
}

impl Writer {
    /// The number of bytes that the sink can hold at most.
    pub closed spec fn capacity(&self) -> nat {
        match self.limit {
            Some(limit) => limit as nat,
            None => usize::MAX as nat,
        }
    }

    /// An empty sink that grows as far as memory allows.
    pub fn new() -> (writer: Writer)
        ensures
            writer@ == Seq::<u8>::empty(),
            writer.capacity() == usize::MAX,
    {
        Writer { data: Vec::new(), limit: None }
    }

    /// An empty sink that refuses to grow beyond `limit` bytes.
    pub fn with_limit(limit: usize) -> (writer: Writer)
        ensures
            writer@ == Seq::<u8>::empty(),
            writer.capacity() == limit,
    {
        Writer { data: Vec::new(), limit: Some(limit) }
    }

    /// The number of bytes written so far.
    pub fn len(&self) -> (n: usize)
        ensures
            n == self@.len(),
    {
        self.data.len()
    }

    /// The number of bytes that can still be written.
    pub fn remaining(&self) -> (n: usize)
        ensures
            n == if self@.len() <= self.capacity() {
                self.capacity() - self@.len()
            } else {
                0
            },
    {
        let limit: usize = match self.limit {
            Some(limit) => limit,
            None => usize::MAX,
        };
        if self.data.len() <= limit {
            limit - self.data.len()
        } else {
            0
        }
    }

    /// Extends the sink by `n` zero bytes and hands out a view of exactly those bytes to
    /// write to. A request that does not fit under the capacity changes nothing and hands out
    /// no view.
    pub fn request(&mut self, n: usize) -> (view: Option<&mut [u8]>)
        ensures
            final(self).capacity() == old(self).capacity(),
            match view {
                Some(v) => {
                    &&& old(self)@.len() + n <= old(self).capacity()
                    &&& v@ == Seq::new(n as nat, |i: int| 0u8)
                    &&& final(self)@ == old(self)@ + final(v)@
                },
                None => {
                    &&& old(self)@.len() + n > old(self).capacity()
                    &&& final(self)@ == old(self)@
                },
            },
    {
        let limit: usize = match self.limit {
            Some(limit) => limit,
            None => usize::MAX,
        };
        let start: usize = self.data.len();
        if start > limit || n > limit - start {
            return None;
        }
        self.data.resize(start + n, 0u8);
        assert(self.data@.subrange(0, start as int) == old(self)@);
        let (_, tail) = self.data.as_mut_slice().split_at_mut(start);
        assert(tail@ =~= Seq::new(n as nat, |i: int| 0u8));
        Some(tail)
    }

    /// Appends `bytes` to the sink, or changes nothing and reports the failure if they do not
    /// fit under the capacity.
    pub fn write(&mut self, bytes: &[u8]) -> (written: bool)
        ensures
            final(self).capacity() == old(self).capacity(),
            written == (old(self)@.len() + bytes@.len() <= old(self).capacity()),
            written ==> final(self)@ == old(self)@ + bytes@,
            !written ==> final(self)@ == old(self)@,
    {
        match self.request(bytes.len()) {
            Some(view) => {
                let mut i: usize = 0;
                while i < bytes.len()
                    invariant
                        i <= bytes@.len(),
                        view@.len() == bytes@.len(),
                        forall|j: int| 0 <= j < i ==> view@[j] == bytes@[j],
                    decreases bytes@.len() - i,
                {
                    view[i] = bytes[i];
                    i += 1;
                }
                assert(view@ =~= bytes@);
                true
            },
            None => false,
        }
    }

    /// Empties the sink; its capacity stays.
    pub fn clear(&mut self)
        ensures
            final(self)@ == Seq::<u8>::empty(),
            final(self).capacity() == old(self).capacity(),
    {
        self.data.clear();
    }

    /// The bytes written so far.
    pub fn as_slice(&self) -> (bytes: &[u8])
        ensures
            bytes@ == self@,
    {
        self.data.as_slice()
    }

    /// Ends the sink's life and hands its bytes to the caller.
    pub fn into_vec(self) -> (bytes: Vec<u8>)
        ensures
            bytes@ == self@,
    {
        self.data
    }
}

} // verus!
