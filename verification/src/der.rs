//! The tag-length-value objects that a capsule is made of, and the calls into `asn1_der` that
//! write and read them.
//!
//! An object is one tag byte, a length field and the value. A length below 128 is a single
//! byte; a larger one is the byte `0x80 + k` followed by the `k` digits of the length in base
//! 256, most significant first. The writer always produces the shortest length field. The
//! reader is more lenient: it takes the number of digits from the low four bits of the first
//! length byte and accepts leading zero digits.

use asn1_der::DerObject;
use vstd::arithmetic::power::pow;
use vstd::layout::size_of;
use vstd::prelude::*;

verus! {

/// The tag of a sequence of objects.
pub const TAG_SEQUENCE: u8 = 0x30;

/// The tag of a UTF-8 string.
pub const TAG_UTF8_STRING: u8 = 0x0c;

/// The tag of a string of octets.
pub const TAG_OCTET_STRING: u8 = 0x04;

/// The digits of `n` in base 256, most significant first, without leading zeros.
pub open spec fn spec_be_digits(n: nat) -> Seq<u8>
    decreases n,
{
    if n == 0 {
        Seq::empty()
    } else {
        spec_be_digits(n / 256).push((n % 256) as u8)
    }
}

/// The number that the base-256 digits `digits` spell, most significant first.
pub open spec fn spec_be_value(digits: Seq<u8>) -> nat
    decreases digits.len(),
{
    if digits.len() == 0 {
        0
    } else {
        spec_be_value(digits.drop_last()) * 256 + digits.last() as nat
    }
}

/// The length field for a value of `len` bytes.
pub open spec fn spec_length_field(len: nat) -> Seq<u8> {
    if len < 128 {
        seq![len as u8]
    } else {
        seq![(128 + spec_be_digits(len).len()) as u8] + spec_be_digits(len)
    }
}

/// The object with the tag `tag` and the value `value`.
pub open spec fn spec_object(tag: u8, value: Seq<u8>) -> Seq<u8> {
    seq![tag] + spec_length_field(value.len()) + value
}

/// The length of an object whose value has `len` bytes.
pub open spec fn spec_object_len(len: nat) -> nat {
    1 + spec_length_field(len).len() + len
}

/// The length that a reader takes from a length field at the start of `bytes`, and the width
/// of that field; `None` where the reader fails.
pub open spec fn spec_read_length(bytes: Seq<u8>) -> Option<(nat, nat)> {
    if bytes.len() == 0 {
        None
    } else if bytes[0] < 128 {
        Some((bytes[0] as nat, 1))
    } else {
        let k: nat = (bytes[0] % 16) as nat;
        if k > size_of::<usize>() || bytes.len() < 1 + k {
            None
        } else {
            let len: nat = spec_be_value(bytes.subrange(1, 1 + k as int));
            if len < 128 {
                None
            } else {
                Some((len, 1 + k))
            }
        }
    }
}

/// The object that a reader takes from the start of `bytes`: its tag, its value, and the
/// bytes that follow it; `None` where the reader fails.
pub open spec fn spec_read_object(bytes: Seq<u8>) -> Option<(u8, Seq<u8>, Seq<u8>)> {
    if bytes.len() == 0 {
        None
    } else {
        match spec_read_length(bytes.skip(1)) {
            None => None,
            Some((len, width)) => {
                let body = bytes.skip(1 + width as int);
                if body.len() < len {
                    None
                } else {
                    Some((bytes[0], body.take(len as int), body.skip(len as int)))
                }
            },
        }
    }
}

/// The objects that a reader takes from `bytes` one after the other until no byte is left,
/// each with its tag and its value; `None` where the reader fails on one of them.
pub open spec fn spec_read_objects(bytes: Seq<u8>) -> Option<Seq<(u8, Seq<u8>)>>
    decreases bytes.len(),
{
    if bytes.len() == 0 {
        Some(Seq::empty())
    } else {
        match spec_read_object(bytes) {
            None => None,
            Some((tag, value, rest)) => {
                proof {
                    lemma_read_object_shrinks(bytes);
                }
                match spec_read_objects(rest) {
                    None => None,
                    Some(others) => Some(seq![(tag, value)] + others),
                }
            },
        }
    }
}

/// The tags and the values of `objects`, each value as a sequence.
pub open spec fn spec_objects(objects: Seq<(u8, Vec<u8>)>) -> Seq<(u8, Seq<u8>)> {
    objects.map_values(|object: (u8, Vec<u8>)| (object.0, object.1@))
}

/// `DerObject::compute_serialized_len` of `asn1_der`: the length of an object whose value has
/// `payload_len` bytes, which is one tag byte, the shortest length field, and the value.
#[verifier::external_body]
pub(crate) fn object_len(payload_len: usize) -> (len: usize)
    requires
        spec_object_len(payload_len as nat) <= usize::MAX,
    ensures
        len == spec_object_len(payload_len as nat),
{
    DerObject::compute_serialized_len(payload_len)
}

/// `DerObject::serialize` of `asn1_der`, on the object made of `tag` and `value`: it writes
/// the object to the start of `buf` and returns its length. Where `buf` is too short for the
/// object it fails, and may have overwritten `buf`.
#[verifier::external_body]
pub(crate) fn write_object(tag: u8, value: &[u8], buf: &mut [u8]) -> (written: Option<usize>)
    requires
        spec_object_len(value@.len()) <= usize::MAX,
    ensures
        final(buf)@.len() == old(buf)@.len(),
        written is Some <==> spec_object_len(value@.len()) <= old(buf)@.len(),
        written matches Some(n) ==> {
            &&& n == spec_object_len(value@.len())
            &&& final(buf)@ == spec_object(tag, value@) + old(buf)@.skip(n as int)
        },
{
    DerObject::from_raw(tag, value.to_vec()).serialize(buf.iter_mut()).ok()
}

/// `DerObject::deserialize` of `asn1_der`, on an iterator over `source`: it reads one object
/// from the start of `source` and returns the object's tag, its value and the bytes of
/// `source` that it has not read, or nothing where it fails.
#[verifier::external_body]
pub(crate) fn read_object<'a>(source: &'a [u8]) -> (object: Option<(u8, Vec<u8>, &'a [u8])>)
    ensures
        match object {
            Some((tag, value, rest)) => spec_read_object(source@) == Some((tag, value@, rest@)),
            None => spec_read_object(source@) is None,
        },
{
    let mut bytes = source.iter();
    match DerObject::deserialize(&mut bytes) {
        Ok(object) => Some((object.tag.into(), object.value.data, bytes.as_slice())),
        Err(_) => None,
    }
}

/// An object takes at least two bytes, so what a reader leaves is shorter than what it was
/// given.
pub proof fn lemma_read_object_shrinks(bytes: Seq<u8>)
    ensures
        spec_read_object(bytes) matches Some((_, value, rest)) ==> 2 + value.len() + rest.len()
            <= bytes.len(),
{
}

/// The object with the tag `tag` and the value `value`, in a buffer of its own.
pub(crate) fn object_bytes(tag: u8, value: &[u8]) -> (bytes: Vec<u8>)
    requires
        spec_object_len(value@.len()) <= usize::MAX,
    ensures
        bytes@ == spec_object(tag, value@),
{
    let len: usize = object_len(value.len());
    let mut bytes: Vec<u8> = Vec::new();
    bytes.resize(len, 0u8);
    let written: Option<usize> = write_object(tag, value, bytes.as_mut_slice());
    assert(written == Some(len));
    assert(bytes@ =~= spec_object(tag, value@));
    bytes
}

/// Reads objects from `bytes` one after the other until no byte is left.
pub(crate) fn read_objects(bytes: &[u8]) -> (objects: Option<Vec<(u8, Vec<u8>)>>)
    ensures
        match objects {
            Some(found) => spec_read_objects(bytes@) == Some(spec_objects(found@)),
            None => spec_read_objects(bytes@) is None,
        },
{
    let mut found: Vec<(u8, Vec<u8>)> = Vec::new();
    let mut rest: &[u8] = bytes;
    while rest.len() > 0
        invariant
            spec_read_objects(bytes@) == match spec_read_objects(rest@) {
                Some(others) => Some(spec_objects(found@) + others),
                None => None,
            },
        decreases rest@.len(),
    {
        proof {
            lemma_read_object_shrinks(rest@);
        }
        match read_object(rest) {
            None => {
                return None;
            },
            Some((tag, value, after)) => {
                let ghost before = spec_objects(found@);
                let ghost others = spec_read_objects(after@);
                found.push((tag, value));
                assert(spec_objects(found@) =~= before + seq![(tag, value@)]);
                assert(others matches Some(o) ==> before + (seq![(tag, value@)] + o)
                    =~= spec_objects(found@) + o);
                rest = after;
            },
        }
    }
    assert(spec_objects(found@) + Seq::<(u8, Seq<u8>)>::empty() =~= spec_objects(found@));
    Some(found)
}

/// A number below `256^k` has at most `k` digits.
pub proof fn lemma_be_digits_len(n: nat, k: nat)
    requires
        n < pow(256, k),
    ensures
        spec_be_digits(n).len() <= k,
    decreases n,
{
    reveal(pow);
    if n != 0 {
        assert(k != 0);
        assert(pow(256, k) == 256 * pow(256, (k - 1) as nat));
        lemma_be_digits_len(n / 256, (k - 1) as nat);
    }
}

/// The digits of a number spell that number.
pub proof fn lemma_be_digits_value(n: nat)
    ensures
        spec_be_value(spec_be_digits(n)) == n,
    decreases n,
{
    if n != 0 {
        let digits = spec_be_digits(n);
        lemma_be_digits_value(n / 256);
        assert(digits.drop_last() =~= spec_be_digits(n / 256));
    }
}

/// A number of at least 128 has at least one digit.
pub proof fn lemma_be_digits_nonempty(n: nat)
    requires
        n > 0,
    ensures
        spec_be_digits(n).len() > 0,
{
}

/// The length field of a length that fits in `usize` has at most 9 bytes.
pub proof fn lemma_length_field_len(len: nat)
    requires
        len <= usize::MAX,
    ensures
        1 <= spec_length_field(len).len() <= 1 + size_of::<usize>() <= 9,
        spec_object_len(len) <= len + 10,
{
    vstd::layout::unsigned_int_max_values();
    broadcast use vstd::layout::layout_of_primitives;

    lemma_be_digits_len(len, size_of::<usize>());
}

/// A reader that meets the length field of a length that fits in `usize` takes exactly that
/// length from it.
pub proof fn lemma_read_length_field(len: nat, rest: Seq<u8>)
    requires
        len <= usize::MAX,
    ensures
        spec_read_length(spec_length_field(len) + rest) == Some(
            (len, spec_length_field(len).len()),
        ),
{
    let field = spec_length_field(len);
    let bytes = field + rest;
    if len < 128 {
        assert(bytes[0] == len as u8);
    } else {
        let digits = spec_be_digits(len);
        let k: nat = digits.len();
        lemma_length_field_len(len);
        lemma_be_digits_value(len);
        assert(k >= 1) by {
            lemma_be_digits_nonempty(len);
        }
        assert(bytes[0] == (128 + k) as u8);
        assert((bytes[0] % 16) as nat == k);
        assert(bytes.subrange(1, 1 + k as int) =~= digits);
    }
}

/// A reader that meets an object whose value fits in `usize` takes its tag and its value from
/// it, and leaves what follows the object.
pub proof fn lemma_read_written_object(tag: u8, value: Seq<u8>, rest: Seq<u8>)
    requires
        value.len() <= usize::MAX,
    ensures
        spec_read_object(spec_object(tag, value) + rest) == Some((tag, value, rest)),
{
    let field = spec_length_field(value.len());
    let bytes = spec_object(tag, value) + rest;
    lemma_read_length_field(value.len(), value + rest);
    assert(bytes.skip(1) =~= field + (value + rest));
    let body = bytes.skip(1 + field.len() as int);
    assert(body =~= value + rest);
    assert(body.take(value.len() as int) =~= value);
    assert(body.skip(value.len() as int) =~= rest);
}

/// A reader that meets an object in front of other objects takes it first, and then the
/// others.
pub proof fn lemma_read_objects_prepend(tag: u8, value: Seq<u8>, tail: Seq<u8>)
    requires
        value.len() <= usize::MAX,
    ensures
        spec_read_objects(spec_object(tag, value) + tail) == match spec_read_objects(tail) {
            Some(others) => Some(seq![(tag, value)] + others),
            None => None,
        },
{
    lemma_read_written_object(tag, value, tail);
    assert((spec_object(tag, value) + tail).len() > tail.len());
}

/// The length of the length field for a value of `len` bytes.
pub(crate) fn length_field_len(len: usize) -> (width: usize)
    ensures
        width == spec_length_field(len as nat).len(),
        1 <= width <= 9,
{
    proof {
        lemma_length_field_len(len as nat);
    }
    if len < 128 {
        return 1;
    }
    let mut digits: usize = 0;
    let mut left: usize = len;
    while left > 0
        invariant
            spec_be_digits(len as nat).len() == digits + spec_be_digits(left as nat).len(),
            spec_be_digits(len as nat).len() <= 8,
        decreases left,
    {
        left = left / 256;
        digits = digits + 1;
    }
    1 + digits
}

/// The length of an object whose value has `payload_len` bytes, or `None` if that length does
/// not fit in `usize`.
pub(crate) fn checked_object_len(payload_len: usize) -> (len: Option<usize>)
    ensures
        len is Some <==> spec_object_len(payload_len as nat) <= usize::MAX,
        len matches Some(n) ==> n == spec_object_len(payload_len as nat),
{
    let header: usize = 1 + length_field_len(payload_len);
    if payload_len > usize::MAX - header {
        None
    } else {
        Some(object_len(payload_len))
    }
}

/// The total length of the objects that have the tags and values `objects`.
pub open spec fn spec_objects_len(objects: Seq<(u8, Seq<u8>)>) -> nat
    decreases objects.len(),
{
    if objects.len() == 0 {
        0
    } else {
        spec_object_len(objects[0].1.len()) + spec_objects_len(objects.drop_first())
    }
}

/// The number that `k` digits spell is below `256^k`.
pub proof fn lemma_be_value_bound(digits: Seq<u8>)
    ensures
        spec_be_value(digits) < pow(256, digits.len()),
    decreases digits.len(),
{
    reveal(pow);
    if digits.len() != 0 {
        lemma_be_value_bound(digits.drop_last());
        assert(pow(256, digits.len()) == 256 * pow(256, (digits.len() - 1) as nat));
    }
}

/// A larger number has no fewer digits.
pub proof fn lemma_be_digits_monotonic(a: nat, b: nat)
    requires
        a <= b,
    ensures
        spec_be_digits(a).len() <= spec_be_digits(b).len(),
    decreases b,
{
    if a != 0 {
        lemma_be_digits_monotonic(a / 256, b / 256);
    }
}

/// A longer value makes no shorter object.
pub proof fn lemma_object_len_monotonic(a: nat, b: nat)
    requires
        a <= b,
    ensures
        spec_object_len(a) <= spec_object_len(b),
{
    lemma_be_digits_monotonic(a, b);
}

/// No length field that a reader accepts is shorter than the one that a writer produces for
/// the same length, and the length that a reader takes fits in `usize`.
pub proof fn lemma_read_length_shortest(bytes: Seq<u8>)
    ensures
        spec_read_length(bytes) matches Some((len, width)) ==> {
            &&& len <= usize::MAX
            &&& spec_length_field(len).len() <= width <= bytes.len()
        },
{
    if let Some((len, width)) = spec_read_length(bytes) {
        if bytes[0] >= 128 {
            let k: nat = (bytes[0] % 16) as nat;
            let digits = bytes.subrange(1, 1 + k as int);
            lemma_be_value_bound(digits);
            lemma_be_digits_len(len, k);
            vstd::layout::unsigned_int_max_values();
            if k < size_of::<usize>() {
                vstd::arithmetic::power::lemma_pow_increases(256, k, size_of::<usize>());
            }
        }
    }
}

/// An object that a reader accepts is no shorter than the object that a writer produces
/// from the same tag and value.
pub proof fn lemma_read_object_shortest(bytes: Seq<u8>)
    ensures
        spec_read_object(bytes) matches Some((_, value, rest)) ==> spec_object_len(value.len())
            + rest.len() <= bytes.len(),
{
    if bytes.len() > 0 {
        lemma_read_length_shortest(bytes.skip(1));
    }
}

/// The objects that a reader accepts are together no shorter than the objects that a writer
/// produces from the same tags and values.
pub proof fn lemma_read_objects_shortest(bytes: Seq<u8>)
    ensures
        spec_read_objects(bytes) matches Some(objects) ==> spec_objects_len(objects)
            <= bytes.len(),
    decreases bytes.len(),
{
    if bytes.len() != 0 {
        if let Some((tag, value, rest)) = spec_read_object(bytes) {
            lemma_read_object_shortest(bytes);
            if rest.len() < bytes.len() {
                lemma_read_objects_shortest(rest);
                if let Some(others) = spec_read_objects(rest) {
                    assert((seq![(tag, value)] + others).drop_first() =~= others);
                }
            }
        }
    }
}

} // verus!
