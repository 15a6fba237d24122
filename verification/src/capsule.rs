//! The capsule: the envelope in which a sealed key is stored.
//!
//! A capsule is a sequence of three objects: the version of the envelope as a UTF-8 string,
//! the UID of the capsule format as a UTF-8 string, and the payload of the plugin that
//! implements the format. The payload is carried as it is, tag and bytes; only the plugin
//! knows what it means.

use crate::der::{
    checked_object_len, lemma_object_len_monotonic, lemma_read_object_shortest,
    lemma_read_objects_prepend, lemma_read_objects_shortest, lemma_read_written_object,
    object_bytes, object_len, read_object, read_objects, spec_object, spec_object_len,
    spec_objects, spec_objects_len, spec_read_object, spec_read_objects, write_object,
    TAG_SEQUENCE, TAG_UTF8_STRING,
};
use crate::error::{KyncError, KyncErrorKind};
use crate::ffi::string_from_utf8;
use vstd::prelude::*;
use vstd::utf8::{decode_utf8, encode_utf8, valid_utf8};

verus! {

/// The version of the envelope that this library writes and reads.
pub const CAPSULE_V1: &'static str = "de.KizzyCode.Kync.CapsuleV1";

/// What a plugin has made of a key: a tag and bytes, both opaque to everyone but the plugin.
#[derive(Clone, Debug, PartialEq, Eq)]
pub struct Payload {
    pub tag: u8,
    pub data: Vec<u8>,
}

/// A capsule as a mathematical value.
pub struct CapsuleView {
    pub version: Seq<char>,
    pub capsule_format_uid: Seq<char>,
    pub payload_tag: u8,
    pub payload: Seq<u8>,
}

impl CapsuleView {
    /// A capsule is well-formed if it has the supported version and its bytes can be counted
    /// in `usize`.
    pub open spec fn wf(self) -> bool {
        &&& self.version == CAPSULE_V1@
        &&& spec_serialize(self).len() <= usize::MAX
    }
}

/// A key capsule.
#[derive(Clone, Debug, PartialEq, Eq)]
pub struct Capsule {
    version: String,
    capsule_format_uid: String,
    plugin_payload: Payload,
}

impl View for Capsule {
    type V = CapsuleView;

    closed spec fn view(&self) -> CapsuleView {
        CapsuleView {
            version: self.version@,
            capsule_format_uid: self.capsule_format_uid@,
            payload_tag: self.plugin_payload.tag,
            payload: self.plugin_payload.data@,
        }
    }
}

/// The three objects of the capsule `c`, one after the other.
pub open spec fn spec_fields(c: CapsuleView) -> Seq<u8> {
    spec_object(TAG_UTF8_STRING, encode_utf8(c.version)) + spec_object(
        TAG_UTF8_STRING,
        encode_utf8(c.capsule_format_uid),
    ) + spec_object(c.payload_tag, c.payload)
}

/// The bytes of the capsule `c`: the sequence of its three objects.
pub open spec fn spec_serialize(c: CapsuleView) -> Seq<u8> {
    spec_object(TAG_SEQUENCE, spec_fields(c))
}

/// The length of a capsule of this version whose format UID takes `format_uid_len` bytes and
/// whose payload has `payload_len` bytes.
pub open spec fn spec_capsule_len(format_uid_len: nat, payload_len: nat) -> nat {
    spec_object_len(
        spec_object_len(encode_utf8(CAPSULE_V1@).len()) + spec_object_len(format_uid_len)
            + spec_object_len(payload_len),
    )
}

/// The text that the object `object` holds, if it is a UTF-8 string.
pub open spec fn spec_text(object: (u8, Seq<u8>)) -> Option<Seq<char>> {
    if object.0 == TAG_UTF8_STRING && valid_utf8(object.1) {
        Some(decode_utf8(object.1))
    } else {
        None
    }
}

/// The capsule that the objects `objects` make, or the reason why they make none.
pub open spec fn spec_capsule_of(objects: Seq<(u8, Seq<u8>)>) -> Result<
    CapsuleView,
    KyncErrorKind,
> {
    if objects.len() == 0 {
        Err(KyncErrorKind::IoError)
    } else {
        match spec_text(objects[0]) {
            None => Err(KyncErrorKind::IoError),
            Some(version) => {
                if version != CAPSULE_V1@ {
                    Err(KyncErrorKind::Unsupported)
                } else if objects.len() != 3 {
                    Err(KyncErrorKind::IoError)
                } else {
                    match spec_text(objects[1]) {
                        None => Err(KyncErrorKind::IoError),
                        Some(capsule_format_uid) => Ok(
                            CapsuleView {
                                version,
                                capsule_format_uid,
                                payload_tag: objects[2].0,
                                payload: objects[2].1,
                            },
                        ),
                    }
                }
            },
        }
    }
}

/// The capsule that the bytes `data` start with, or the reason why they start with none:
/// `Unsupported` where the first object of the sequence is a string other than the supported
/// version, `IoError` where the bytes are not a sequence of three objects of which the first
/// two are strings.
pub open spec fn spec_parse(data: Seq<u8>) -> Result<CapsuleView, KyncErrorKind> {
    match spec_read_object(data) {
        None => Err(KyncErrorKind::IoError),
        Some((tag, fields, _)) => {
            if tag != TAG_SEQUENCE {
                Err(KyncErrorKind::IoError)
            } else {
                match spec_read_objects(fields) {
                    None => Err(KyncErrorKind::IoError),
                    Some(objects) => spec_capsule_of(objects),
                }
            }
        },
    }
}

/// The text that an object with the tag `tag` and the value `value` holds, if it is a UTF-8
/// string.
fn text_of(tag: u8, value: Vec<u8>) -> (text: Option<String>)
    ensures
        match text {
            Some(s) => spec_text((tag, value@)) == Some(s@),
            None => spec_text((tag, value@)) is None,
        },
{
    if tag != TAG_UTF8_STRING {
        None
    } else {
        string_from_utf8(value)
    }
}

impl Capsule {
    /// A capsule has the supported version, and its bytes can be counted in `usize`.
    pub open spec fn wf(&self) -> bool {
        self@.wf()
    }

    /// The UID of the capsule format.
    pub fn capsule_format_uid(&self) -> (uid: &String)
        ensures
            uid@ == self@.capsule_format_uid,
    {
        &self.capsule_format_uid
    }

    /// The payload of the plugin.
    pub fn plugin_payload(&self) -> (payload: &Payload)
        ensures
            payload.tag == self@.payload_tag,
            payload.data@ == self@.payload,
    {
        &self.plugin_payload
    }

    /// The version of the envelope.
    pub fn version(&self) -> (version: &String)
        ensures
            version@ == self@.version,
    {
        &self.version
    }

    /// The length of a capsule for the format `capsule_format_uid` whose payload has
    /// `plugin_payload_len` bytes, or `None` if that length does not fit in `usize`.
    pub fn compute_serialized_len(capsule_format_uid: &str, plugin_payload_len: usize) -> (len:
        Option<usize>)
        ensures
            len is Some <==> spec_capsule_len(
                encode_utf8(capsule_format_uid@).len(),
                plugin_payload_len as nat,
            ) <= usize::MAX,
            len matches Some(n) ==> n == spec_capsule_len(
                encode_utf8(capsule_format_uid@).len(),
                plugin_payload_len as nat,
            ),
    {
        let version: usize = match checked_object_len(CAPSULE_V1.as_bytes().len()) {
            Some(n) => n,
            None => {
                return None;
            },
        };
        let uid: usize = match checked_object_len(capsule_format_uid.as_bytes().len()) {
            Some(n) => n,
            None => {
                return None;
            },
        };
        let payload: usize = match checked_object_len(plugin_payload_len) {
            Some(n) => n,
            None => {
                return None;
            },
        };
        let strings: usize = match version.checked_add(uid) {
            Some(n) => n,
            None => {
                return None;
            },
        };
        match strings.checked_add(payload) {
            Some(fields) => checked_object_len(fields),
            None => None,
        }
    }

    /// A capsule of the supported version for the format `capsule_format_uid` with the
    /// payload `plugin_payload`.
    pub fn new(capsule_format_uid: String, plugin_payload: Payload) -> (capsule: Capsule)
        requires
            spec_capsule_len(
                encode_utf8(capsule_format_uid@).len(),
                plugin_payload.data@.len(),
            ) <= usize::MAX,
        ensures
            capsule.wf(),
            capsule@.capsule_format_uid == capsule_format_uid@,
            capsule@.payload_tag == plugin_payload.tag,
            capsule@.payload == plugin_payload.data@,
    {
        Capsule { version: CAPSULE_V1.to_owned(), capsule_format_uid, plugin_payload }
    }

    /// The number of bytes that `serialize` writes.
    pub fn serialized_len(&self) -> (len: usize)
        requires
            self.wf(),
        ensures
            len == spec_serialize(self@).len(),
    {
        let version: usize = object_len(self.version.as_str().as_bytes().len());
        let uid: usize = object_len(self.capsule_format_uid.as_str().as_bytes().len());
        let payload: usize = object_len(self.plugin_payload.data.len());
        object_len(version + uid + payload)
    }

    /// Writes the capsule to the start of `buf` and returns the number of bytes written.
    /// Where `buf` is too short for the capsule, nothing is written.
    pub fn serialize(self, buf: &mut [u8]) -> (r: Result<usize, KyncError>)
        requires
            self.wf(),
        ensures
            match r {
                Ok(n) => {
                    &&& n == spec_serialize(self@).len()
                    &&& n <= old(buf)@.len()
                    &&& final(buf)@ == spec_serialize(self@) + old(buf)@.skip(n as int)
                },
                Err(e) => {
                    &&& e.is_local(KyncErrorKind::IoError)
                    &&& old(buf)@.len() < spec_serialize(self@).len()
                    &&& final(buf)@ == old(buf)@
                },
            },
    {
        if buf.len() < self.serialized_len() {
            return Err(KyncError::new(KyncErrorKind::IoError));
        }
        let mut fields: Vec<u8> = object_bytes(TAG_UTF8_STRING, self.version.as_str().as_bytes());
        let uid: Vec<u8> = object_bytes(
            TAG_UTF8_STRING,
            self.capsule_format_uid.as_str().as_bytes(),
        );
        let payload: Vec<u8> = object_bytes(
            self.plugin_payload.tag,
            self.plugin_payload.data.as_slice(),
        );
        fields.extend_from_slice(uid.as_slice());
        fields.extend_from_slice(payload.as_slice());
        assert(fields@ =~= spec_fields(self@));
        match write_object(TAG_SEQUENCE, fields.as_slice(), buf) {
            Some(n) => Ok(n),
            None => Err(KyncError::new(KyncErrorKind::IoError)),
        }
    }

    /// Reads the capsule that `data` starts with. Bytes that follow the capsule are ignored.
    pub fn parse(data: &[u8]) -> (r: Result<Capsule, KyncError>)
        ensures
            match r {
                Ok(capsule) => capsule.wf() && spec_parse(data@) == Ok::<
                    CapsuleView,
                    KyncErrorKind,
                >(capsule@),
                Err(e) => e.description is None && spec_parse(data@) == Err::<
                    CapsuleView,
                    KyncErrorKind,
                >(e.kind),
            },
    {
        let (tag, fields, _) = match read_object(data) {
            Some(object) => object,
            None => {
                return Err(KyncError::new(KyncErrorKind::IoError));
            },
        };
        if tag != TAG_SEQUENCE {
            return Err(KyncError::new(KyncErrorKind::IoError));
        }
        let mut objects = match read_objects(fields.as_slice()) {
            Some(objects) => objects,
            None => {
                return Err(KyncError::new(KyncErrorKind::IoError));
            },
        };
        let ghost found = spec_objects(objects@);
        if objects.len() == 0 {
            return Err(KyncError::new(KyncErrorKind::IoError));
        }
        let (version_tag, version_value) = objects.remove(0);
        let version = match text_of(version_tag, version_value) {
            Some(version) => version,
            None => {
                return Err(KyncError::new(KyncErrorKind::IoError));
            },
        };
        if version != CAPSULE_V1.to_owned() {
            return Err(KyncError::new(KyncErrorKind::Unsupported));
        }
        if objects.len() != 2 {
            return Err(KyncError::new(KyncErrorKind::IoError));
        }
        let (uid_tag, uid_value) = objects.remove(0);
        let (payload_tag, payload_value) = objects.remove(0);
        assert(found[1] == (uid_tag, uid_value@));
        assert(found[2] == (payload_tag, payload_value@));
        let capsule_format_uid = match text_of(uid_tag, uid_value) {
            Some(uid) => uid,
            None => {
                return Err(KyncError::new(KyncErrorKind::IoError));
            },
        };
        proof {
            vstd::slice::axiom_spec_len(data);
            lemma_parsed_is_wf(data@);
        }
        Ok(
            Capsule {
                version,
                capsule_format_uid,
                plugin_payload: Payload { tag: payload_tag, data: payload_value },
            },
        )
    }
}

/// The objects of a capsule, as a reader finds them in the capsule's bytes.
pub open spec fn spec_objects_of(c: CapsuleView) -> Seq<(u8, Seq<u8>)> {
    seq![
        (TAG_UTF8_STRING, encode_utf8(c.version)),
        (TAG_UTF8_STRING, encode_utf8(c.capsule_format_uid)),
        (c.payload_tag, c.payload),
    ]
}

/// A reader finds in the bytes of a capsule a sequence of the capsule's three objects, and
/// leaves what follows the capsule.
pub proof fn lemma_read_serialized(c: CapsuleView, rest: Seq<u8>)
    requires
        spec_serialize(c).len() <= usize::MAX,
    ensures
        spec_read_object(spec_serialize(c) + rest) == Some((TAG_SEQUENCE, spec_fields(c), rest)),
        spec_read_objects(spec_fields(c)) == Some(spec_objects_of(c)),
{
    let version = encode_utf8(c.version);
    let uid = encode_utf8(c.capsule_format_uid);
    let nothing = Seq::<u8>::empty();
    let last = spec_object(c.payload_tag, c.payload) + nothing;
    let middle = spec_object(TAG_UTF8_STRING, uid) + last;
    lemma_read_written_object(TAG_SEQUENCE, spec_fields(c), rest);
    lemma_read_objects_prepend(c.payload_tag, c.payload, nothing);
    lemma_read_objects_prepend(TAG_UTF8_STRING, uid, last);
    lemma_read_objects_prepend(TAG_UTF8_STRING, version, middle);
    assert(spec_fields(c) =~= spec_object(TAG_UTF8_STRING, version) + middle);
    assert(spec_objects_of(c) =~= seq![(TAG_UTF8_STRING, version)] + (seq![
        (TAG_UTF8_STRING, uid),
    ] + (seq![(c.payload_tag, c.payload)] + Seq::<(u8, Seq<u8>)>::empty())));
}

/// Reading what was written gives the capsule back: the bytes of a well-formed capsule,
/// whatever follows them, parse to that capsule.
pub proof fn lemma_parse_serialized(c: CapsuleView, rest: Seq<u8>)
    requires
        c.wf(),
    ensures
        spec_parse(spec_serialize(c) + rest) == Ok::<CapsuleView, KyncErrorKind>(c),
{
    lemma_read_serialized(c, rest);
    vstd::utf8::encode_utf8_valid_utf8(c.version);
    vstd::utf8::encode_utf8_decode_utf8(c.version);
    vstd::utf8::encode_utf8_valid_utf8(c.capsule_format_uid);
    vstd::utf8::encode_utf8_decode_utf8(c.capsule_format_uid);
}

/// The version guard: the bytes of a capsule of any other version than the supported one are
/// refused as `Unsupported`, whatever its format and its payload are.
pub proof fn lemma_version_guard(c: CapsuleView, rest: Seq<u8>)
    requires
        c.version != CAPSULE_V1@,
        spec_serialize(c).len() <= usize::MAX,
    ensures
        spec_parse(spec_serialize(c) + rest) == Err::<CapsuleView, KyncErrorKind>(
            KyncErrorKind::Unsupported,
        ),
{
    lemma_read_serialized(c, rest);
    vstd::utf8::encode_utf8_valid_utf8(c.version);
    vstd::utf8::encode_utf8_decode_utf8(c.version);
}

/// Every capsule that is read from bytes is well-formed: writing it again takes no more
/// bytes than it was read from.
pub proof fn lemma_parsed_is_wf(data: Seq<u8>)
    requires
        data.len() <= usize::MAX,
    ensures
        spec_parse(data) matches Ok(c) ==> c.wf() && spec_serialize(c).len() <= data.len(),
{
    if let Ok(c) = spec_parse(data) {
        let (tag, fields, rest) = spec_read_object(data).unwrap();
        let objects = spec_read_objects(fields).unwrap();
        lemma_read_object_shortest(data);
        lemma_read_objects_shortest(fields);
        vstd::utf8::decode_utf8_encode_utf8(objects[0].1);
        vstd::utf8::decode_utf8_encode_utf8(objects[1].1);
        let second = objects.drop_first();
        let third = second.drop_first();
        assert(second[0] == objects[1]);
        assert(third[0] == objects[2]);
        assert(third.drop_first().len() == 0);
        assert(spec_objects_len(objects) == spec_object_len(objects[0].1.len())
            + spec_object_len(objects[1].1.len()) + spec_object_len(objects[2].1.len())) by {
            reveal_with_fuel(spec_objects_len, 4);
        }
        assert(spec_fields(c).len() == spec_objects_len(objects));
        lemma_object_len_monotonic(spec_fields(c).len(), fields.len());
    }
}

} // verus!
