//! The closed error taxonomy, and the fixed-width record in which a plugin reports a failure.
//!
//! A plugin never allocates to signal an error: it fills a [`CError`] with a 16-byte tag, a
//! numeric `info` whose meaning depends on the tag, and a bounded description. The host turns
//! the record into a [`KyncError`] before it reaches a caller.

use crate::ffi::{
    c_str_len, c_str_text, c_str_to_string, lemma_c_str_len, lemma_c_str_len_unique,
    lemma_c_str_text_is_utf8, lemma_c_str_text_of_prefix,
};
use vstd::prelude::*;
use vstd::utf8::{decode_utf8, encode_utf8, valid_utf8};

verus! {

/// The width of the description buffer of an error record.
pub const DESCRIPTION_LEN: usize = 1024;

/// The tag of the record that reports success.
pub const ENONE: [u8; 16] = [69, 78, 79, 78, 69, 0, 0, 0, 0, 0, 0, 0, 0, 0, 0, 0];

/// The tag of a failed initialisation.
pub const EINIT: [u8; 16] = [69, 73, 78, 73, 84, 0, 0, 0, 0, 0, 0, 0, 0, 0, 0, 0];

/// The tag of a sink that is too small; `info` holds the size that is needed.
pub const ENOBUF: [u8; 16] = [69, 78, 79, 66, 85, 70, 0, 0, 0, 0, 0, 0, 0, 0, 0, 0];

/// The tag of a refused operation; `info` is non-zero if authentication would help.
pub const EPERM: [u8; 16] = [69, 80, 69, 82, 77, 0, 0, 0, 0, 0, 0, 0, 0, 0, 0, 0];

/// The tag of a failed authentication; `info` holds the retries that are left.
pub const EACCESS: [u8; 16] = [69, 65, 67, 67, 69, 83, 83, 0, 0, 0, 0, 0, 0, 0, 0, 0];

/// The tag of an input/output failure inside the plugin.
pub const EIO: [u8; 16] = [69, 73, 79, 0, 0, 0, 0, 0, 0, 0, 0, 0, 0, 0, 0, 0];

/// The tag of malformed data.
pub const EILSEQ: [u8; 16] = [69, 73, 76, 83, 69, 81, 0, 0, 0, 0, 0, 0, 0, 0, 0, 0];

/// The tag of an item that the plugin does not hold.
pub const ENOKEY: [u8; 16] = [69, 78, 79, 75, 69, 89, 0, 0, 0, 0, 0, 0, 0, 0, 0, 0];

/// The tag of a cancelled operation.
pub const ECANCELED: [u8; 16] = [69, 67, 65, 78, 67, 69, 76, 69, 68, 0, 0, 0, 0, 0, 0, 0];

/// The tag of an operation that timed out.
pub const ETIMEDOUT: [u8; 16] = [69, 84, 73, 77, 69, 68, 79, 85, 84, 0, 0, 0, 0, 0, 0, 0];

/// The tag of an invalid argument; `info` holds the argument's index.
pub const EINVAL: [u8; 16] = [69, 73, 78, 86, 65, 76, 0, 0, 0, 0, 0, 0, 0, 0, 0, 0];

/// The tag of any other plugin failure; `info` holds the plugin's own code.
pub const EOTHER: [u8; 16] = [69, 79, 84, 72, 69, 82, 0, 0, 0, 0, 0, 0, 0, 0, 0, 0];

/// What went wrong, as a caller sees it.
#[derive(Clone, Copy, Debug, PartialEq, Eq)]
pub enum KyncErrorKind {
    /// The operation is not permitted; if `requires_authentication` is set, it may succeed
    /// when it is repeated with authentication material.
    PermissionDenied { requires_authentication: bool },
    /// The authentication material was wrong; `retries_left` is `None` where no limit on
    /// retries is enforced.
    AccessDenied { retries_left: Option<u64> },
    /// The sink was too small for the `required_size` bytes of the result.
    BufferError { required_size: u64 },
    /// An input/output failure, or a capsule that is not well-formed.
    IoError,
    /// The plugin found its input malformed.
    InvalidData,
    /// The plugin does not hold the item that was asked for.
    ItemNotFound,
    /// The argument at `index` is invalid.
    InvalidParameter { index: u64 },
    /// The operation was cancelled.
    OperationCancelled,
    /// The operation timed out.
    OperationTimedOut,
    /// A failure that only the plugin can explain, with its own `code`.
    OtherPluginError { code: u64 },
    /// The version of a plugin or of a capsule is not the one that this library speaks.
    Unsupported,
    /// The plugin could not be initialised.
    InitializationError,
    /// The library was used wrongly: a format that is already loaded, or one that is not.
    ApiMisuse,
}

/// An error: its kind, and the description that the plugin attached, if it attached one.
#[derive(Clone, Debug, PartialEq, Eq)]
pub struct KyncError {
    pub kind: KyncErrorKind,
    pub description: Option<String>,
}

/// An error as a mathematical value: its kind, and its description if it has one.
pub type Failure = (KyncErrorKind, Option<Seq<char>>);

/// The error of kind `kind` that the host itself raises, which carries no description.
pub open spec fn local(kind: KyncErrorKind) -> Failure {
    (kind, None)
}

impl View for KyncError {
    type V = Failure;

    open spec fn view(&self) -> Failure {
        (self.kind, self.text())
    }
}

impl KyncError {
    /// The description as text.
    pub open spec fn text(&self) -> Option<Seq<char>> {
        match self.description {
            Some(d) => Some(d@),
            None => None,
        }
    }

    /// Whether this is the error of kind `kind` that the host itself raises, which carries no
    /// description.
    pub open spec fn is_local(&self, kind: KyncErrorKind) -> bool {
        self@ == local(kind)
    }

    /// An error of kind `kind` without a description.
    pub fn new(kind: KyncErrorKind) -> (e: KyncError)
        ensures
            e.is_local(kind),
    {
        KyncError { kind, description: None }
    }
}

/// The tags that an error record can carry.
#[derive(Debug, Copy, Clone, Eq, PartialEq)]
pub enum ErrorType {
    ENone,
    EInit,
    ENoBuf,
    EPerm,
    EAccess,
    EIO,
    EIlSeq,
    ENoKey,
    ECanceled,
    ETimedout,
    EInval,
    EOther,
}

/// The tag that the 16 bytes `raw` spell, if they spell one.
pub open spec fn spec_from_raw(raw: Seq<u8>) -> Option<ErrorType> {
    if raw == ENONE@ {
        Some(ErrorType::ENone)
    } else if raw == EINIT@ {
        Some(ErrorType::EInit)
    } else if raw == ENOBUF@ {
        Some(ErrorType::ENoBuf)
    } else if raw == EPERM@ {
        Some(ErrorType::EPerm)
    } else if raw == EACCESS@ {
        Some(ErrorType::EAccess)
    } else if raw == EIO@ {
        Some(ErrorType::EIO)
    } else if raw == EILSEQ@ {
        Some(ErrorType::EIlSeq)
    } else if raw == ENOKEY@ {
        Some(ErrorType::ENoKey)
    } else if raw == ECANCELED@ {
        Some(ErrorType::ECanceled)
    } else if raw == ETIMEDOUT@ {
        Some(ErrorType::ETimedout)
    } else if raw == EINVAL@ {
        Some(ErrorType::EInval)
    } else if raw == EOTHER@ {
        Some(ErrorType::EOther)
    } else {
        None
    }
}

/// The failure that a record with tag `tag` and auxiliary value `info` reports; the tag of
/// success reports none.
pub open spec fn spec_kind(tag: ErrorType, info: u64) -> Option<KyncErrorKind> {
    match tag {
        ErrorType::ENone => None,
        ErrorType::EInit => Some(KyncErrorKind::InitializationError),
        ErrorType::ENoBuf => Some(KyncErrorKind::BufferError { required_size: info }),
        ErrorType::EPerm => Some(
            KyncErrorKind::PermissionDenied { requires_authentication: info != 0 },
        ),
        ErrorType::EAccess => Some(
            KyncErrorKind::AccessDenied {
                retries_left: if info == u64::MAX {
                    None
                } else {
                    Some(info)
                },
            },
        ),
        ErrorType::EIO => Some(KyncErrorKind::IoError),
        ErrorType::EIlSeq => Some(KyncErrorKind::InvalidData),
        ErrorType::ENoKey => Some(KyncErrorKind::ItemNotFound),
        ErrorType::ECanceled => Some(KyncErrorKind::OperationCancelled),
        ErrorType::ETimedout => Some(KyncErrorKind::OperationTimedOut),
        ErrorType::EInval => Some(KyncErrorKind::InvalidParameter { index: info }),
        ErrorType::EOther => Some(KyncErrorKind::OtherPluginError { code: info }),
    }
}

/// Whether the two tags hold the same bytes.
fn tag_eq(a: &[u8; 16], b: &[u8; 16]) -> (same: bool)
    ensures
        same == (a@ == b@),
{
    let mut i: usize = 0;
    while i < 16
        invariant
            i <= 16,
            forall|j: int| 0 <= j < i ==> a@[j] == b@[j],
        decreases 16 - i,
    {
        if a[i] != b[i] {
            return false;
        }
        i += 1;
    }
    assert(a@ =~= b@);
    true
}

impl ErrorType {
    /// The 16 bytes of the tag: its name in ASCII, padded with NUL bytes.
    pub open spec fn spec_raw(self) -> [u8; 16] {
        match self {
            ErrorType::ENone => ENONE,
            ErrorType::EInit => EINIT,
            ErrorType::ENoBuf => ENOBUF,
            ErrorType::EPerm => EPERM,
            ErrorType::EAccess => EACCESS,
            ErrorType::EIO => EIO,
            ErrorType::EIlSeq => EILSEQ,
            ErrorType::ENoKey => ENOKEY,
            ErrorType::ECanceled => ECANCELED,
            ErrorType::ETimedout => ETIMEDOUT,
            ErrorType::EInval => EINVAL,
            ErrorType::EOther => EOTHER,
        }
    }

    /// The 16 bytes of the tag.
    pub fn as_raw(self) -> (raw: [u8; 16])
        ensures
            raw == self.spec_raw(),
    {
        match self {
            ErrorType::ENone => ENONE,
            ErrorType::EInit => EINIT,
            ErrorType::ENoBuf => ENOBUF,
            ErrorType::EPerm => EPERM,
            ErrorType::EAccess => EACCESS,
            ErrorType::EIO => EIO,
            ErrorType::EIlSeq => EILSEQ,
            ErrorType::ENoKey => ENOKEY,
            ErrorType::ECanceled => ECANCELED,
            ErrorType::ETimedout => ETIMEDOUT,
            ErrorType::EInval => EINVAL,
            ErrorType::EOther => EOTHER,
        }
    }

    /// The tag that `raw` spells, or `None` if it spells none.
    pub fn from_raw(raw: &[u8; 16]) -> (tag: Option<ErrorType>)
        ensures
            tag == spec_from_raw(raw@),
    {
        if tag_eq(raw, &ENONE) {
            Some(ErrorType::ENone)
        } else if tag_eq(raw, &EINIT) {
            Some(ErrorType::EInit)
        } else if tag_eq(raw, &ENOBUF) {
            Some(ErrorType::ENoBuf)
        } else if tag_eq(raw, &EPERM) {
            Some(ErrorType::EPerm)
        } else if tag_eq(raw, &EACCESS) {
            Some(ErrorType::EAccess)
        } else if tag_eq(raw, &EIO) {
            Some(ErrorType::EIO)
        } else if tag_eq(raw, &EILSEQ) {
            Some(ErrorType::EIlSeq)
        } else if tag_eq(raw, &ENOKEY) {
            Some(ErrorType::ENoKey)
        } else if tag_eq(raw, &ECANCELED) {
            Some(ErrorType::ECanceled)
        } else if tag_eq(raw, &ETIMEDOUT) {
            Some(ErrorType::ETimedout)
        } else if tag_eq(raw, &EINVAL) {
            Some(ErrorType::EInval)
        } else if tag_eq(raw, &EOTHER) {
            Some(ErrorType::EOther)
        } else {
            None
        }
    }
}

/// `bytes`, followed by NUL bytes up to the length `len`.
pub open spec fn spec_padded(bytes: Seq<u8>, len: nat) -> Seq<u8> {
    Seq::new(len, |i: int| if i < bytes.len() { bytes[i] } else { 0u8 })
}

/// The failure that a record with tag `tag` and auxiliary value `info` reports.
pub fn kind_of(tag: ErrorType, info: u64) -> (kind: Option<KyncErrorKind>)
    ensures
        kind == spec_kind(tag, info),
{
    match tag {
        ErrorType::ENone => None,
        ErrorType::EInit => Some(KyncErrorKind::InitializationError),
        ErrorType::ENoBuf => Some(KyncErrorKind::BufferError { required_size: info }),
        ErrorType::EPerm => Some(
            KyncErrorKind::PermissionDenied { requires_authentication: info != 0 },
        ),
        ErrorType::EAccess => {
            let retries_left = if info == u64::MAX {
                None
            } else {
                Some(info)
            };
            Some(KyncErrorKind::AccessDenied { retries_left })
        },
        ErrorType::EIO => Some(KyncErrorKind::IoError),
        ErrorType::EIlSeq => Some(KyncErrorKind::InvalidData),
        ErrorType::ENoKey => Some(KyncErrorKind::ItemNotFound),
        ErrorType::ECanceled => Some(KyncErrorKind::OperationCancelled),
        ErrorType::ETimedout => Some(KyncErrorKind::OperationTimedOut),
        ErrorType::EInval => Some(KyncErrorKind::InvalidParameter { index: info }),
        ErrorType::EOther => Some(KyncErrorKind::OtherPluginError { code: info }),
    }
}

/// The record in which a plugin reports how a call ended: a tag, a description as a C string
/// in a fixed buffer, and an auxiliary value whose meaning depends on the tag.
#[derive(Clone, Copy, Debug, PartialEq, Eq)]
pub struct CError {
    pub type_id: [u8; 16],
    pub description: [u8; 1024],
    pub info: u64,
}

impl CError {
    /// The tag of the record, if its bytes spell one.
    pub open spec fn error_type(&self) -> Option<ErrorType> {
        spec_from_raw(self.type_id@)
    }

    /// Whether the record reports success.
    pub open spec fn is_ok(&self) -> bool {
        self.type_id@ == ENONE@
    }

    /// The bytes of the description, without terminator and padding.
    pub open spec fn text(&self) -> Seq<u8> {
        c_str_text(self.description@)
    }

    /// A record is well-formed if its tag is one of the agreed tags and, unless it reports
    /// success, its description is UTF-8. A plugin that hands out any other record has
    /// broken the protocol.
    pub open spec fn wf(&self) -> bool {
        &&& self.error_type() is Some
        &&& !self.is_ok() ==> valid_utf8(self.text())
    }

    /// The kind of failure that the record reports, or `None` if it reports success.
    pub open spec fn reported(&self) -> Option<KyncErrorKind> {
        match self.error_type() {
            Some(tag) => spec_kind(tag, self.info),
            None => None,
        }
    }

    /// The description that the record carries, or `None` if its description is empty.
    pub open spec fn spec_description(&self) -> Option<Seq<char>> {
        if self.text().len() == 0 {
            None
        } else {
            Some(decode_utf8(self.text()))
        }
    }

    /// A record with the tag `type_id`, the text `description` and the value `info`.
    pub fn new(type_id: ErrorType, description: &str, info: u64) -> (e: CError)
        requires
            encode_utf8(description@).len() <= DESCRIPTION_LEN,
        ensures
            e.type_id == type_id.spec_raw(),
            e.description@ == spec_padded(encode_utf8(description@), DESCRIPTION_LEN as nat),
            e.info == info,
            e.text() == c_str_text(encode_utf8(description@)),
            e.wf(),
            e.is_ok() == (type_id == ErrorType::ENone),
            e.reported() == spec_kind(type_id, info),
            is_plain_text(description@) ==> e.spec_description() == if description@.len() == 0 {
                None
            } else {
                Some(description@)
            },
    {
        Self::plain(type_id, info).desc(description)
    }

    /// Whether the record is well-formed.
    pub fn is_well_formed(&self) -> (b: bool)
        ensures
            b == self.wf(),
    {
        match ErrorType::from_raw(&self.type_id) {
            None => false,
            Some(ErrorType::ENone) => true,
            Some(_) => {
                proof {
                    lemma_tag_round_trip(ErrorType::ENone);
                }
                c_str_to_string(&self.description).is_some()
            },
        }
    }

    /// Turns the record into the result of the call that it ends: `Ok` if it reports success,
    /// else the error that it reports, with its description.
    pub fn check(self) -> (r: Result<(), KyncError>)
        requires
            self.wf(),
        ensures
            match r {
                Ok(_) => self.is_ok(),
                Err(e) => {
                    &&& !self.is_ok()
                    &&& self.reported() == Some(e.kind)
                    &&& e.text() == self.spec_description()
                },
            },
    {
        let tag = ErrorType::from_raw(&self.type_id).unwrap();
        proof {
            lemma_tag_round_trip(ErrorType::ENone);
        }
        match kind_of(tag, self.info) {
            None => Ok(()),
            Some(kind) => {
                let text = c_str_to_string(&self.description).unwrap();
                proof {
                    lemma_c_str_len(self.description@);
                }
                let description = if c_str_len(&self.description) == 0 {
                    None
                } else {
                    Some(text)
                };
                Err(KyncError { kind, description })
            },
        }
    }

    /// A record with the tag `tag`, the value `info` and an empty description.
    fn plain(tag: ErrorType, info: u64) -> (e: CError)
        ensures
            e.type_id == tag.spec_raw(),
            e.info == info,
            e.wf(),
            e.is_ok() == (tag == ErrorType::ENone),
            e.reported() == spec_kind(tag, info),
            e.spec_description() is None,
    {
        let e = CError { type_id: tag.as_raw(), description: [0u8; 1024], info };
        proof {
            lemma_tag_round_trip(tag);
            lemma_tag_round_trip(ErrorType::ENone);
            assert(e.description@[0] == 0);
            assert(e.text().len() == 0);
        }
        e
    }

    /// The record that reports success.
    pub fn ok() -> (e: CError)
        ensures
            e.wf(),
            e.is_ok(),
            e.info == 0,
            e.reported() is None,
            e.spec_description() is None,
    {
        Self::plain(ErrorType::ENone, 0)
    }

    /// A record that refuses the operation, and says whether authentication would help.
    pub fn eperm(required_authentication: bool) -> (e: CError)
        ensures
            e.wf(),
            !e.is_ok(),
            e.reported() == Some(
                KyncErrorKind::PermissionDenied { requires_authentication: required_authentication },
            ),
            e.spec_description() is None,
    {
        Self::plain(
            ErrorType::EPerm,
            if required_authentication {
                1
            } else {
                0
            },
        )
    }

    /// A record that reports wrong authentication material, with the retries that are left.
    /// No limit is written as the largest value, so a limit of that many retries reads as
    /// no limit.
    pub fn eacces(retries_left: Option<u64>) -> (e: CError)
        ensures
            e.wf(),
            !e.is_ok(),
            e.reported() == Some(
                KyncErrorKind::AccessDenied {
                    retries_left: if retries_left == Some(u64::MAX) {
                        None
                    } else {
                        retries_left
                    },
                },
            ),
            e.spec_description() is None,
    {
        let info: u64 = match retries_left {
            Some(n) => n,
            None => u64::MAX,
        };
        Self::plain(ErrorType::EAccess, info)
    }

    /// A record that reports a sink too small for `required_size` bytes.
    pub fn enobuf(required_size: u64) -> (e: CError)
        ensures
            e.wf(),
            !e.is_ok(),
            e.reported() == Some(KyncErrorKind::BufferError { required_size }),
            e.spec_description() is None,
    {
        Self::plain(ErrorType::ENoBuf, required_size)
    }

    /// A record that reports a failed initialisation.
    pub fn einit() -> (e: CError)
        ensures
            e.wf(),
            !e.is_ok(),
            e.reported() == Some(KyncErrorKind::InitializationError),
            e.spec_description() is None,
    {
        Self::plain(ErrorType::EInit, 0)
    }

    /// A record that reports an input/output failure.
    pub fn eio() -> (e: CError)
        ensures
            e.wf(),
            !e.is_ok(),
            e.reported() == Some(KyncErrorKind::IoError),
            e.spec_description() is None,
    {
        Self::plain(ErrorType::EIO, 0)
    }

    /// A record that reports malformed data.
    pub fn eilseq() -> (e: CError)
        ensures
            e.wf(),
            !e.is_ok(),
            e.reported() == Some(KyncErrorKind::InvalidData),
            e.spec_description() is None,
    {
        Self::plain(ErrorType::EIlSeq, 0)
    }

    /// A record that reports an item which the plugin does not hold.
    pub fn enokey() -> (e: CError)
        ensures
            e.wf(),
            !e.is_ok(),
            e.reported() == Some(KyncErrorKind::ItemNotFound),
            e.spec_description() is None,
    {
        Self::plain(ErrorType::ENoKey, 0)
    }

    /// A record that reports the argument at `index` as invalid.
    pub fn einval(index: u64) -> (e: CError)
        ensures
            e.wf(),
            !e.is_ok(),
            e.reported() == Some(KyncErrorKind::InvalidParameter { index }),
            e.spec_description() is None,
    {
        Self::plain(ErrorType::EInval, index)
    }

    /// A record that reports a cancelled operation.
    pub fn ecanceled() -> (e: CError)
        ensures
            e.wf(),
            !e.is_ok(),
            e.reported() == Some(KyncErrorKind::OperationCancelled),
            e.spec_description() is None,
    {
        Self::plain(ErrorType::ECanceled, 0)
    }

    /// A record that reports an operation which timed out.
    pub fn etimedout() -> (e: CError)
        ensures
            e.wf(),
            !e.is_ok(),
            e.reported() == Some(KyncErrorKind::OperationTimedOut),
            e.spec_description() is None,
    {
        Self::plain(ErrorType::ETimedout, 0)
    }

    /// A record that reports a failure of the plugin's own, with its code `errno`.
    pub fn eother(errno: u64) -> (e: CError)
        ensures
            e.wf(),
            !e.is_ok(),
            e.reported() == Some(KyncErrorKind::OtherPluginError { code: errno }),
            e.spec_description() is None,
    {
        Self::plain(ErrorType::EOther, errno)
    }

    /// The same record with the description `d`.
    pub fn desc(self, d: &str) -> (e: CError)
        requires
            encode_utf8(d@).len() <= DESCRIPTION_LEN,
        ensures
            e.type_id == self.type_id,
            e.info == self.info,
            e.description@ == spec_padded(encode_utf8(d@), DESCRIPTION_LEN as nat),
            e.text() == c_str_text(encode_utf8(d@)),
            self.error_type() is Some ==> e.wf(),
            is_plain_text(d@) ==> e.spec_description() == if d@.len() == 0 {
                None
            } else {
                Some(d@)
            },
    {
        proof {
            lemma_description_is_text(d@);
            if is_plain_text(d@) {
                lemma_plain_text(d@);
                lemma_description_round_trip(d@);
            }
        }
        let bytes = d.as_bytes();
        let mut e = self;
        let mut i: usize = 0;
        while i < 1024
            invariant
                i <= 1024,
                bytes@.len() <= 1024,
                e.type_id == self.type_id,
                e.info == self.info,
                forall|j: int|
                    0 <= j < i ==> e.description@[j] == spec_padded(bytes@, 1024)[j],
            decreases 1024 - i,
        {
            e.description[i] = if i < bytes.len() {
                bytes[i]
            } else {
                0
            };
            i += 1;
        }
        assert(e.description@ =~= spec_padded(encode_utf8(d@), DESCRIPTION_LEN as nat));
        e
    }
}

/// Plain text: ASCII characters other than NUL.
pub open spec fn is_plain_text(text: Seq<char>) -> bool {
    forall|i: int| 0 <= i < text.len() ==> '\u{1}' <= #[trigger] text[i] <= '\u{7f}'
}

/// Plain text takes one byte for each character, and none of them is a NUL byte.
pub proof fn lemma_plain_text(text: Seq<char>)
    requires
        is_plain_text(text),
    ensures
        encode_utf8(text).len() == text.len(),
        forall|i: int| 0 <= i < text.len() ==> encode_utf8(text)[i] != 0,
{
    assert(vstd::utf8::is_ascii_chars(text));
    vstd::utf8::is_ascii_chars_encode_utf8(text);
    assert forall|i: int| 0 <= i < text.len() implies encode_utf8(text)[i] != 0 by {
        assert(text[i] as u8 == encode_utf8(text)[i]);
    }
}

/// A description that fits the buffer is read back up to its first NUL character, and what
/// is read back is UTF-8.
pub proof fn lemma_description_is_text(description: Seq<char>)
    requires
        encode_utf8(description).len() <= DESCRIPTION_LEN,
    ensures
        c_str_text(spec_padded(encode_utf8(description), DESCRIPTION_LEN as nat)) == c_str_text(
            encode_utf8(description),
        ),
        valid_utf8(c_str_text(encode_utf8(description))),
{
    let bytes = encode_utf8(description);
    let padded = spec_padded(bytes, DESCRIPTION_LEN as nat);
    vstd::utf8::encode_utf8_valid_utf8(description);
    lemma_c_str_text_is_utf8(bytes);
    assert(padded.take(bytes.len() as int) =~= bytes);
    lemma_c_str_text_of_prefix(bytes, padded);
}

/// A description without a NUL character that fits the buffer is read back as it was
/// written.
pub proof fn lemma_description_round_trip(description: Seq<char>)
    requires
        encode_utf8(description).len() <= DESCRIPTION_LEN,
        forall|i: int| 0 <= i < encode_utf8(description).len() ==> encode_utf8(description)[i] != 0,
    ensures
        c_str_text(spec_padded(encode_utf8(description), DESCRIPTION_LEN as nat)) == encode_utf8(
            description,
        ),
        valid_utf8(encode_utf8(description)),
        decode_utf8(encode_utf8(description)) == description,
{
    let bytes = encode_utf8(description);
    let padded = spec_padded(bytes, DESCRIPTION_LEN as nat);
    lemma_c_str_len_unique(padded, bytes.len() as int);
    assert(padded.take(bytes.len() as int) =~= bytes);
    vstd::utf8::encode_utf8_valid_utf8(description);
    vstd::utf8::encode_utf8_decode_utf8(description);
}

/// No two tags share their bytes: reading the bytes of a tag gives that tag back.
pub proof fn lemma_tag_round_trip(tag: ErrorType)
    ensures
        spec_from_raw(tag.spec_raw()@) == Some(tag),
{
    assert(ENONE@[1] == 78 && ENONE@[2] == 79 && ENONE@[3] == 78);
    assert(EINIT@[1] == 73 && EINIT@[2] == 78 && EINIT@[3] == 73);
    assert(ENOBUF@[1] == 78 && ENOBUF@[2] == 79 && ENOBUF@[3] == 66);
    assert(EPERM@[1] == 80);
    assert(EACCESS@[1] == 65);
    assert(EIO@[1] == 73 && EIO@[2] == 79);
    assert(EILSEQ@[1] == 73 && EILSEQ@[2] == 76);
    assert(ENOKEY@[1] == 78 && ENOKEY@[2] == 79 && ENOKEY@[3] == 75);
    assert(ECANCELED@[1] == 67);
    assert(ETIMEDOUT@[1] == 84);
    assert(EINVAL@[1] == 73 && EINVAL@[2] == 78 && EINVAL@[3] == 86);
    assert(EOTHER@[1] == 79);
}

} // verus!
