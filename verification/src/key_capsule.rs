//! A second plugin that runs inside the host: it holds three named items and seals a key by
//! writing the name of the item in front of it.
//!
//! This plugin takes the name of the item for the secret as well: a caller authenticates
//! for an item by supplying its name. That is a rule of this plugin alone. To the host the
//! item and the authentication are two arguments that have nothing to do with each other.

use crate::error::{CError, KyncErrorKind};
use crate::ffi::{bytes_eq, Slice, Writer};
use crate::plugin::{is_faithful, Backend, Operation, API_VERSION};
use vstd::prelude::*;
use vstd::slice::slice_subrange;

verus! {

/// The name of the first item, `Key0`.
pub const KEY0: [u8; 4] = [75, 101, 121, 48];

/// The name of the second item, `Key1`.
pub const KEY1: [u8; 4] = [75, 101, 121, 49];

/// The name of the third item, `Key7`.
pub const KEY7: [u8; 4] = [75, 101, 121, 55];

/// The names of the items, each followed by a NUL byte.
pub const KEYS: [u8; 15] = [75, 101, 121, 48, 0, 75, 101, 121, 49, 0, 75, 101, 121, 55, 0];

/// The UID of the capsule format, `TestCapsuleFormat.3A0351A7-FE90-4383-9E68-FCC20033D5F1`.
pub const KEY_CAPSULE_UID: [u8; 54] = [
    84, 101, 115, 116, 67, 97, 112, 115, 117, 108, 101, 70, 111, 114, 109, 97, 116, 46, 51,
    65, 48, 51, 53, 49, 65, 55, 45, 70, 69, 57, 48, 45, 52, 51, 56, 51, 45, 57, 69, 54, 56,
    45, 70, 67, 67, 50, 48, 48, 51, 51, 68, 53, 70, 49,
];

/// The byte between the name of the item and the key, `:`.
pub const SEPARATOR: u8 = 58;

/// The index of the item among the arguments of `seal`.
pub const ITEM_ARGUMENT: u64 = 2;

/// Whether `id` is the name of an item that the plugin holds.
pub open spec fn spec_is_key(id: Seq<u8>) -> bool {
    id == KEY0@ || id == KEY1@ || id == KEY7@
}

/// The answer of the plugin to a request to write `bytes` into a sink that holds `capacity`
/// bytes.
pub open spec fn spec_write(capacity: nat, bytes: Seq<u8>) -> (Option<KyncErrorKind>, Seq<u8>) {
    if bytes.len() > capacity {
        (Some(KyncErrorKind::BufferError { required_size: bytes.len() as u64 }), Seq::empty())
    } else {
        (None, bytes)
    }
}

/// The answer of the plugin to a request to seal `key` for the item `item_id` with the
/// authentication `auth`: the failure that it reports, if any, and the bytes that it writes.
/// An item must be named, and authentication must be supplied. The item must be one that
/// the plugin holds, and the authentication must be the name of the item. The payload is
/// the name of the item, the separator and the key.
pub open spec fn spec_seal_key(
    capacity: nat,
    key: Seq<u8>,
    item_id: Option<Seq<u8>>,
    auth: Option<Seq<u8>>,
) -> (Option<KyncErrorKind>, Seq<u8>) {
    if item_id is None {
        (Some(KyncErrorKind::InvalidParameter { index: ITEM_ARGUMENT }), Seq::empty())
    } else if auth is None {
        (Some(KyncErrorKind::PermissionDenied { requires_authentication: true }), Seq::empty())
    } else if !spec_is_key(item_id->0) {
        (Some(KyncErrorKind::ItemNotFound), Seq::empty())
    } else if auth->0 != item_id->0 {
        (Some(KyncErrorKind::AccessDenied { retries_left: None }), Seq::empty())
    } else {
        spec_write(capacity, item_id->0 + seq![SEPARATOR] + key)
    }
}

/// The answer of the plugin to a request to open `payload` with the authentication `auth`.
/// Authentication must be supplied. The payload must start with the name of an item that
/// the plugin holds, the authentication must be that name, and the separator must follow
/// it. The key is what follows the separator.
pub open spec fn spec_open_capsule(capacity: nat, payload: Seq<u8>, auth: Option<Seq<u8>>) -> (
    Option<KyncErrorKind>,
    Seq<u8>,
) {
    if auth is None {
        (Some(KyncErrorKind::PermissionDenied { requires_authentication: true }), Seq::empty())
    } else if payload.len() < 5 {
        (Some(KyncErrorKind::InvalidData), Seq::empty())
    } else if !spec_is_key(payload.take(4)) {
        (Some(KyncErrorKind::ItemNotFound), Seq::empty())
    } else if auth->0 != payload.take(4) {
        (Some(KyncErrorKind::AccessDenied { retries_left: None }), Seq::empty())
    } else if payload[4] != SEPARATOR {
        (Some(KyncErrorKind::InvalidData), Seq::empty())
    } else {
        spec_write(capacity, payload.skip(5))
    }
}

/// Whether `id` is the name of an item that the plugin holds.
pub fn is_key(id: &[u8]) -> (known: bool)
    ensures
        known == spec_is_key(id@),
{
    bytes_eq(id, KEY0.as_slice()) || bytes_eq(id, KEY1.as_slice()) || bytes_eq(
        id,
        KEY7.as_slice(),
    )
}

/// Writes `bytes`, or reports that the sink is too small for them.
fn write_all(sink: &mut Writer, bytes: &[u8]) -> (status: CError)
    requires
        old(sink)@.len() == 0,
    ensures
        status.wf(),
        final(sink).capacity() == old(sink).capacity(),
        (status.reported(), final(sink)@) == spec_write(old(sink).capacity(), bytes@),
        status.is_ok() == (status.reported() is None),
        status.spec_description() is None,
{
    if sink.write(bytes) {
        CError::ok()
    } else {
        CError::enobuf(bytes.len() as u64)
    }
}

/// The plugin with the items `Key0`, `Key1` and `Key7`.
#[derive(Clone, Copy, Debug, PartialEq, Eq)]
pub struct KeyCapsule {}

impl KeyCapsule {
    /// The plugin.
    pub fn new() -> KeyCapsule {
        KeyCapsule {  }
    }

    /// Seals `key` for the item `capsule_key_id`, where `auth_info` is the name of that
    /// item.
    pub fn seal_key(
        &self,
        der_payload: &mut Writer,
        key: &[u8],
        capsule_key_id: Slice,
        auth_info: Slice,
    ) -> (status: CError)
        requires
            old(der_payload)@.len() == 0,
        ensures
            status.wf(),
            final(der_payload).capacity() == old(der_payload).capacity(),
            (status.reported(), final(der_payload)@) == spec_seal_key(
                old(der_payload).capacity(),
                key@,
                capsule_key_id@,
                auth_info@,
            ),
            status.is_ok() == (status.reported() is None),
            status.spec_description() is None,
    {
        let capsule_key_id = match capsule_key_id.slice_t() {
            Some(id) => id,
            None => {
                return CError::einval(ITEM_ARGUMENT);
            },
        };
        let auth_info = match auth_info.slice_t() {
            Some(auth) => auth,
            None => {
                return CError::eperm(true);
            },
        };
        if !is_key(capsule_key_id) {
            return CError::enokey();
        }
        if !bytes_eq(auth_info, capsule_key_id) {
            return CError::eacces(None);
        }
        let mut payload: Vec<u8> = Vec::new();
        payload.extend_from_slice(capsule_key_id);
        payload.push(SEPARATOR);
        payload.extend_from_slice(key);
        assert(payload@ =~= capsule_key_id@ + seq![SEPARATOR] + key@);
        write_all(der_payload, payload.as_slice())
    }

    /// Opens `der_payload`, where `auth_info` is the name of the item that the payload was
    /// sealed for.
    pub fn open_capsule(&self, key: &mut Writer, der_payload: &[u8], auth_info: Slice) -> (status:
        CError)
        requires
            old(key)@.len() == 0,
        ensures
            status.wf(),
            final(key).capacity() == old(key).capacity(),
            (status.reported(), final(key)@) == spec_open_capsule(
                old(key).capacity(),
                der_payload@,
                auth_info@,
            ),
            status.is_ok() == (status.reported() is None),
            status.spec_description() is None,
    {
        let auth_info = match auth_info.slice_t() {
            Some(auth) => auth,
            None => {
                return CError::eperm(true);
            },
        };
        if der_payload.len() < 5 {
            return CError::eilseq();
        }
        let capsule_key_id = slice_subrange(der_payload, 0, 4);
        let colon: u8 = der_payload[4];
        let key_data = slice_subrange(der_payload, 5, der_payload.len());
        assert(capsule_key_id@ == der_payload@.take(4));
        assert(key_data@ == der_payload@.skip(5));
        if !is_key(capsule_key_id) {
            return CError::enokey();
        }
        if !bytes_eq(auth_info, capsule_key_id) {
            return CError::eacces(None);
        }
        if colon != SEPARATOR {
            return CError::eilseq();
        }
        write_all(key, key_data)
    }
}

impl Backend for KeyCapsule {
    open spec fn init_answer(&self, api_version: u16, log_level: u8, status: CError) -> bool {
        &&& status.is_ok() == (api_version == API_VERSION)
        &&& status.reported() == if api_version == API_VERSION {
            None
        } else {
            Some(KyncErrorKind::InitializationError)
        }
        &&& status.spec_description() is None
    }

    open spec fn format_uid_answer(&self, capacity: nat, status: CError, out: Seq<u8>) -> bool {
        &&& (status.reported(), out) == spec_write(capacity, KEY_CAPSULE_UID@)
        &&& status.is_ok() == (status.reported() is None)
        &&& status.spec_description() is None
    }

    open spec fn item_ids_answer(&self, capacity: nat, status: CError, out: Seq<u8>) -> bool {
        &&& (status.reported(), out) == spec_write(capacity, KEYS@)
        &&& status.is_ok() == (status.reported() is None)
        &&& status.spec_description() is None
    }

    open spec fn seal_answer(
        &self,
        capacity: nat,
        key: Seq<u8>,
        item_id: Option<Seq<u8>>,
        auth: Option<Seq<u8>>,
        status: CError,
        out: Seq<u8>,
    ) -> bool {
        &&& (status.reported(), out) == spec_seal_key(capacity, key, item_id, auth)
        &&& status.is_ok() == (status.reported() is None)
        &&& status.spec_description() is None
    }

    open spec fn open_answer(
        &self,
        capacity: nat,
        payload: Seq<u8>,
        auth: Option<Seq<u8>>,
        status: CError,
        out: Seq<u8>,
    ) -> bool {
        &&& (status.reported(), out) == spec_open_capsule(capacity, payload, auth)
        &&& status.is_ok() == (status.reported() is None)
        &&& status.spec_description() is None
    }

    open spec fn buf_len_max_answer(&self, operation: Operation, input_len: usize, len: usize) -> bool {
        len == match operation {
            Operation::CapsuleKeyIds => 15usize,
            Operation::Seal => if input_len <= usize::MAX - 5 {
                (input_len + 5) as usize
            } else {
                usize::MAX
            },
            Operation::Open => if input_len >= 5 {
                (input_len - 5) as usize
            } else {
                0usize
            },
        }
    }

    fn init(&self, api_version: u16, log_level: u8) -> (status: CError) {
        if api_version == API_VERSION {
            CError::ok()
        } else {
            CError::einit()
        }
    }

    fn format_uid(&self, sink: &mut Writer) -> (status: CError) {
        write_all(sink, KEY_CAPSULE_UID.as_slice())
    }

    fn enumerate_item_ids(&self, sink: &mut Writer) -> (status: CError) {
        write_all(sink, KEYS.as_slice())
    }

    fn seal(&self, sink: &mut Writer, key: Slice, item_id: Slice, auth: Slice) -> (status: CError) {
        match key.slice_t() {
            Some(key) => self.seal_key(sink, key, item_id, auth),
            None => CError::einval(1),
        }
    }

    fn open(&self, sink: &mut Writer, payload: Slice, auth: Slice) -> (status: CError) {
        match payload.slice_t() {
            Some(payload) => self.open_capsule(sink, payload, auth),
            None => CError::einval(1),
        }
    }

    fn buf_len_max(&self, operation: Operation, input_len: usize) -> (len: usize) {
        match operation {
            Operation::CapsuleKeyIds => 15,
            Operation::Seal => input_len.saturating_add(5),
            Operation::Open => input_len.saturating_sub(5),
        }
    }
}

/// The plugin opens what it has sealed.
pub proof fn lemma_key_capsule_is_faithful(plugin: KeyCapsule)
    ensures
        is_faithful(plugin),
{
    assert forall|
        sealed_capacity: nat,
        key: Seq<u8>,
        item_id: Option<Seq<u8>>,
        sealed_auth: Option<Seq<u8>>,
        sealed_status: CError,
        payload: Seq<u8>,
        opened_capacity: nat,
        opened_auth: Option<Seq<u8>>,
        opened_status: CError,
        opened: Seq<u8>,
    |
        #![trigger
            plugin.seal_answer(sealed_capacity, key, item_id, sealed_auth, sealed_status, payload),
            plugin.open_answer(opened_capacity, payload, opened_auth, opened_status, opened),
        ]
        plugin.seal_answer(sealed_capacity, key, item_id, sealed_auth, sealed_status, payload)
            && sealed_status.is_ok() && plugin.open_answer(
            opened_capacity,
            payload,
            opened_auth,
            opened_status,
            opened,
        ) && opened_status.is_ok() implies opened == key by {
        let id = item_id->0;
        assert(payload == id + seq![SEPARATOR] + key);
        assert(payload.skip(5) =~= key);
    }
}

} // verus!
