//! A plugin that runs inside the host, for tests and as a reference for plugin authors.
//!
//! It "seals" a key by reversing its bytes, and asks for a fixed user secret before it seals
//! or opens anything. It protects nothing.

use crate::capsule::{spec_capsule_len, Capsule, CapsuleView};
use crate::error::{is_plain_text, lemma_plain_text, CError, KyncError, KyncErrorKind};
use crate::ffi::{bytes_eq, Slice, Writer};
use crate::plugin::{
    is_faithful, lemma_item_list_push, spec_ids, spec_item_list, Backend, Operation, API_VERSION,
};
use crate::pool::Pool;
use vstd::prelude::*;
use vstd::slice::slice_to_vec;

verus! {

/// The bytes of `data` in reverse order.
pub fn reversed(data: &[u8]) -> (out: Vec<u8>)
    ensures
        out@ == data@.reverse(),
{
    let mut out: Vec<u8> = Vec::new();
    let mut i: usize = data.len();
    while i > 0
        invariant
            i <= data@.len(),
            out@.len() == data@.len() - i,
            forall|j: int| 0 <= j < out@.len() ==> out@[j] == data@[data@.len() - 1 - j],
        decreases i,
    {
        i -= 1;
        out.push(data[i]);
    }
    assert(out@ =~= data@.reverse());
    out
}

/// The reference plugin.
#[derive(Clone, Debug, PartialEq, Eq)]
pub struct TestPlugin {
    pub uid: Vec<u8>,
    pub user_secret: Vec<u8>,
    pub configs: Vec<Vec<u8>>,
}

impl TestPlugin {
    /// Whether `id` is one of the items that the plugin offers.
    pub open spec fn offers(&self, id: Seq<u8>) -> bool {
        exists|i: int| 0 <= i < self.configs@.len() && #[trigger] self.configs@[i]@ == id
    }

    /// Why the plugin refuses to work for the item `item_id` with the authentication `auth`,
    /// if it refuses: an item that it does not offer is not found, absent authentication is
    /// asked for, and wrong authentication is denied without a limit on retries.
    pub open spec fn refusal(&self, item_id: Option<Seq<u8>>, auth: Option<Seq<u8>>) -> Option<
        KyncErrorKind,
    > {
        if item_id is Some && !self.offers(item_id->0) {
            Some(KyncErrorKind::ItemNotFound)
        } else if auth is None {
            Some(KyncErrorKind::PermissionDenied { requires_authentication: true })
        } else if auth->0 != self.user_secret@ {
            Some(KyncErrorKind::AccessDenied { retries_left: None })
        } else {
            None
        }
    }

    /// The answer of the plugin to a request to turn `input` around for the item `item_id`
    /// with the authentication `auth`, into a sink that holds `capacity` bytes: the failure
    /// that it reports, if any, and the bytes that it writes.
    pub open spec fn spec_turn(
        &self,
        capacity: nat,
        input: Seq<u8>,
        item_id: Option<Seq<u8>>,
        auth: Option<Seq<u8>>,
    ) -> (Option<KyncErrorKind>, Seq<u8>) {
        match self.refusal(item_id, auth) {
            Some(kind) => (Some(kind), Seq::empty()),
            None => {
                if input.len() > capacity {
                    (
                        Some(KyncErrorKind::BufferError { required_size: input.len() as u64 }),
                        Seq::empty(),
                    )
                } else {
                    (None, input.reverse())
                }
            },
        }
    }

    /// The list of the items that the plugin offers, each followed by a NUL byte.
    pub open spec fn spec_list(&self) -> Seq<u8> {
        spec_item_list(spec_ids(self.configs@))
    }

    /// The answer of the plugin to a request to write `bytes` into a sink that holds
    /// `capacity` bytes.
    pub open spec fn spec_tell(capacity: nat, bytes: Seq<u8>) -> (Option<KyncErrorKind>, Seq<u8>) {
        if bytes.len() > capacity {
            (Some(KyncErrorKind::BufferError { required_size: bytes.len() as u64 }), Seq::empty())
        } else {
            (None, bytes)
        }
    }

    /// The description that the plugin attaches to a failure.
    pub open spec fn spec_note(failure: Option<KyncErrorKind>) -> Option<Seq<char>> {
        match failure {
            Some(KyncErrorKind::ItemNotFound) => Some("Invalid configuration"@),
            Some(KyncErrorKind::PermissionDenied { .. }) => Some("Authentication is required"@),
            Some(KyncErrorKind::AccessDenied { .. }) => Some("Invalid authentication"@),
            Some(KyncErrorKind::BufferError { .. }) => Some("Invalid buffer size"@),
            Some(KyncErrorKind::InitializationError) => Some("Invalid API version"@),
            _ => None,
        }
    }

    /// The plugin of the format `TestCapsuleFormat`, with the user secret `Testolope` and the
    /// single item `Default`.
    pub fn new() -> (plugin: TestPlugin)
        ensures
            plugin.uid@ == vstd::utf8::encode_utf8(
                "TestCapsuleFormat.3A0351A7-FE90-4383-9E68-FCC20033D5F1"@,
            ),
            plugin.user_secret@ == vstd::utf8::encode_utf8("Testolope"@),
            plugin.configs@.len() == 1,
            plugin.configs@[0]@ == vstd::utf8::encode_utf8("Default"@),
    {
        let mut configs: Vec<Vec<u8>> = Vec::new();
        configs.push(slice_to_vec("Default".as_bytes()));
        TestPlugin {
            uid: slice_to_vec("TestCapsuleFormat.3A0351A7-FE90-4383-9E68-FCC20033D5F1".as_bytes()),
            user_secret: slice_to_vec("Testolope".as_bytes()),
            configs,
        }
    }

    /// A plugin of the format `uid` with the user secret `user_secret` that offers the
    /// items `configs`.
    pub fn with(uid: Vec<u8>, user_secret: Vec<u8>, configs: Vec<Vec<u8>>) -> (plugin: TestPlugin)
        ensures
            plugin.uid == uid,
            plugin.user_secret == user_secret,
            plugin.configs == configs,
    {
        TestPlugin { uid, user_secret, configs }
    }

    /// Whether `id` is one of the items that the plugin offers.
    fn has_config(&self, id: &[u8]) -> (found: bool)
        ensures
            found == self.offers(id@),
    {
        let mut i: usize = 0;
        while i < self.configs.len()
            invariant
                i <= self.configs@.len(),
                forall|j: int| 0 <= j < i ==> self.configs@[j]@ != id@,
            decreases self.configs@.len() - i,
        {
            if bytes_eq(self.configs[i].as_slice(), id) {
                return true;
            }
            i += 1;
        }
        false
    }

    /// The record of the refusal, if the plugin refuses to work for `item_id` with `auth`.
    fn refuse(&self, item_id: Slice, auth: Slice) -> (status: Option<CError>)
        ensures
            match status {
                Some(e) => {
                    &&& e.wf()
                    &&& !e.is_ok()
                    &&& e.reported() == self.refusal(item_id@, auth@)
                    &&& e.spec_description() == Self::spec_note(e.reported())
                },
                None => self.refusal(item_id@, auth@) is None,
            },
    {
        match item_id.slice_t() {
            Some(id) => {
                if !self.has_config(id) {
                    proof {
                        reveal_strlit("Invalid configuration");
                        assert(is_plain_text("Invalid configuration"@));
                        lemma_plain_text("Invalid configuration"@);
                    }
                    return Some(CError::enokey().desc("Invalid configuration"));
                }
            },
            None => {},
        }
        match auth.slice_t() {
            None => {
                proof {
                    reveal_strlit("Authentication is required");
                    assert(is_plain_text("Authentication is required"@));
                        lemma_plain_text("Authentication is required"@);
                }
                Some(CError::eperm(true).desc("Authentication is required"))
            },
            Some(secret) => {
                if bytes_eq(secret, self.user_secret.as_slice()) {
                    None
                } else {
                    proof {
                        reveal_strlit("Invalid authentication");
                        assert(is_plain_text("Invalid authentication"@));
                        lemma_plain_text("Invalid authentication"@);
                    }
                    Some(CError::eacces(None).desc("Invalid authentication"))
                }
            },
        }
    }

    /// Checks `item_id` and `auth`, then writes `input` in reverse order.
    fn turn(&self, sink: &mut Writer, input: &[u8], item_id: Slice, auth: Slice) -> (status: CError)
        requires
            old(sink)@.len() == 0,
        ensures
            status.wf(),
            final(sink).capacity() == old(sink).capacity(),
            (status.reported(), final(sink)@) == self.spec_turn(
                old(sink).capacity(),
                input@,
                item_id@,
                auth@,
            ),
            status.is_ok() == (status.reported() is None),
            status.spec_description() == Self::spec_note(status.reported()),
    {
        match self.refuse(item_id, auth) {
            Some(status) => status,
            None => {
                let turned = reversed(input);
                if sink.write(turned.as_slice()) {
                    CError::ok()
                } else {
                    proof {
                        reveal_strlit("Invalid buffer size");
                        assert(is_plain_text("Invalid buffer size"@));
                        lemma_plain_text("Invalid buffer size"@);
                    }
                    CError::enobuf(input.len() as u64).desc("Invalid buffer size")
                }
            },
        }
    }

    /// Writes `bytes`, or reports that the sink is too small for them.
    fn tell(sink: &mut Writer, bytes: &[u8]) -> (status: CError)
        requires
            old(sink)@.len() == 0,
        ensures
            status.wf(),
            final(sink).capacity() == old(sink).capacity(),
            (status.reported(), final(sink)@) == Self::spec_tell(old(sink).capacity(), bytes@),
            status.is_ok() == (status.reported() is None),
            status.spec_description() == Self::spec_note(status.reported()),
    {
        if sink.write(bytes) {
            CError::ok()
        } else {
            proof {
                reveal_strlit("Invalid buffer size");
                assert(is_plain_text("Invalid buffer size"@));
                lemma_plain_text("Invalid buffer size"@);
            }
            CError::enobuf(bytes.len() as u64).desc("Invalid buffer size")
        }
    }

    /// The list of the items that the plugin offers, each followed by a NUL byte.
    fn list(&self) -> (list: Vec<u8>)
        ensures
            list@ == self.spec_list(),
    {
        let mut list: Vec<u8> = Vec::new();
        let mut i: usize = 0;
        while i < self.configs.len()
            invariant
                i <= self.configs@.len(),
                list@ == spec_item_list(spec_ids(self.configs@.take(i as int))),
            decreases self.configs@.len() - i,
        {
            let ghost before = spec_ids(self.configs@.take(i as int));
            let ghost grown = list@;
            list.extend_from_slice(self.configs[i].as_slice());
            list.push(0u8);
            proof {
                let id = self.configs@[i as int]@;
                lemma_item_list_push(before, id);
                assert(spec_ids(self.configs@.take(i + 1)) =~= before.push(id));
                assert(list@ =~= grown + id + seq![0u8]);
            }
            i += 1;
        }
        assert(self.configs@.take(i as int) =~= self.configs@);
        list
    }
}

impl Backend for TestPlugin {
    open spec fn init_answer(&self, api_version: u16, log_level: u8, status: CError) -> bool {
        &&& status.is_ok() == (api_version == API_VERSION)
        &&& status.reported() == if api_version == API_VERSION {
            None
        } else {
            Some(KyncErrorKind::InitializationError)
        }
        &&& status.spec_description() == Self::spec_note(status.reported())
    }

    open spec fn format_uid_answer(&self, capacity: nat, status: CError, out: Seq<u8>) -> bool {
        &&& (status.reported(), out) == Self::spec_tell(capacity, self.uid@)
        &&& status.is_ok() == (status.reported() is None)
        &&& status.spec_description() == Self::spec_note(status.reported())
    }

    open spec fn item_ids_answer(&self, capacity: nat, status: CError, out: Seq<u8>) -> bool {
        &&& (status.reported(), out) == Self::spec_tell(capacity, self.spec_list())
        &&& status.is_ok() == (status.reported() is None)
        &&& status.spec_description() == Self::spec_note(status.reported())
    }

    open spec fn seal_answer(
        &self,
        capacity: nat,
        key: Seq<u8>,
        item_id: Option<Seq<u8>>,
        auth: Option<Seq<u8>>,
        status: CError,
        out: Seq<u8>,
    ) -> bool {
        &&& (status.reported(), out) == self.spec_turn(capacity, key, item_id, auth)
        &&& status.is_ok() == (status.reported() is None)
        &&& status.spec_description() == Self::spec_note(status.reported())
    }

    open spec fn open_answer(
        &self,
        capacity: nat,
        payload: Seq<u8>,
        auth: Option<Seq<u8>>,
        status: CError,
        out: Seq<u8>,
    ) -> bool {
        &&& (status.reported(), out) == self.spec_turn(capacity, payload, None, auth)
        &&& status.is_ok() == (status.reported() is None)
        &&& status.spec_description() == Self::spec_note(status.reported())
    }

    open spec fn buf_len_max_answer(&self, operation: Operation, input_len: usize, len: usize) -> bool {
        len == match operation {
            Operation::CapsuleKeyIds => self.spec_list().len() as usize,
            Operation::Seal => input_len,
            Operation::Open => input_len,
        }
    }

    fn init(&self, api_version: u16, log_level: u8) -> (status: CError) {
        if api_version == API_VERSION {
            CError::ok()
        } else {
            proof {
                reveal_strlit("Invalid API version");
                assert(is_plain_text("Invalid API version"@));
                lemma_plain_text("Invalid API version"@);
            }
            CError::einit().desc("Invalid API version")
        }
    }

    fn format_uid(&self, sink: &mut Writer) -> (status: CError) {
        Self::tell(sink, self.uid.as_slice())
    }

    fn enumerate_item_ids(&self, sink: &mut Writer) -> (status: CError) {
        let list = self.list();
        Self::tell(sink, list.as_slice())
    }

    fn seal(&self, sink: &mut Writer, key: Slice, item_id: Slice, auth: Slice) -> (status: CError) {
        match key.slice_t() {
            Some(key) => self.turn(sink, key, item_id, auth),
            None => CError::einval(1),
        }
    }

    fn open(&self, sink: &mut Writer, payload: Slice, auth: Slice) -> (status: CError) {
        match payload.slice_t() {
            Some(payload) => self.turn(sink, payload, Slice::absent(), auth),
            None => CError::einval(1),
        }
    }

    fn buf_len_max(&self, operation: Operation, input_len: usize) -> (len: usize) {
        match operation {
            Operation::CapsuleKeyIds => self.list().len(),
            Operation::Seal => input_len,
            Operation::Open => input_len,
        }
    }
}

/// Authentication gating: whatever else a request to the reference plugin holds, the
/// plugin answers a request for an item that it offers, or for none, with
/// `PermissionDenied` and the advice to authenticate if no authentication is supplied, and
/// with `AccessDenied` if the authentication is not its user secret. With its user secret
/// it writes the input in reverse order, if the sink can hold it.
pub proof fn lemma_test_plugin_gates(
    plugin: TestPlugin,
    capacity: nat,
    input: Seq<u8>,
    item_id: Option<Seq<u8>>,
    auth: Option<Seq<u8>>,
) -> (answer: (Option<KyncErrorKind>, Seq<u8>))
    requires
        item_id is Some ==> plugin.offers(item_id->0),
    ensures
        answer == plugin.spec_turn(capacity, input, item_id, auth),
        auth is None ==> answer == (
            Some(KyncErrorKind::PermissionDenied { requires_authentication: true }),
            Seq::<u8>::empty(),
        ),
        auth is Some && auth->0 != plugin.user_secret@ ==> answer == (
            Some(KyncErrorKind::AccessDenied { retries_left: None }),
            Seq::<u8>::empty(),
        ),
        auth == Some(plugin.user_secret@) && input.len() <= capacity ==> answer == (
            None::<KyncErrorKind>,
            input.reverse(),
        ),
{
    plugin.spec_turn(capacity, input, item_id, auth)
}

/// Authentication gating through a pool: a pool of reference plugins refuses to seal
/// without authentication with `PermissionDenied` and the advice to authenticate, and with
/// authentication other than the user secret of the plugin with `AccessDenied`.
pub proof fn lemma_seal_is_gated(
    pool: Pool<TestPlugin>,
    key: Seq<u8>,
    uid: Seq<char>,
    capsule_key_id: Option<Seq<u8>>,
    user_secret: Option<Seq<u8>>,
    r: Result<Capsule, KyncError>,
)
    requires
        pool.contains(uid),
        capsule_key_id is Some ==> pool.plugin_of(uid).backend().offers(capsule_key_id->0),
        user_secret != Some(pool.plugin_of(uid).backend().user_secret@),
        pool.sealed(key, uid, capsule_key_id, user_secret, r),
    ensures
        r matches Err(e) && e.kind == if user_secret is None {
            KyncErrorKind::PermissionDenied { requires_authentication: true }
        } else {
            KyncErrorKind::AccessDenied { retries_left: None }
        },
{
}

/// Authentication gating through a pool: a pool of reference plugins refuses to open
/// without authentication with `PermissionDenied` and the advice to authenticate, and with
/// authentication other than the user secret of the plugin with `AccessDenied`.
pub proof fn lemma_open_is_gated(
    pool: Pool<TestPlugin>,
    capsule: CapsuleView,
    user_secret: Option<Seq<u8>>,
    r: Result<Vec<u8>, KyncError>,
)
    requires
        pool.contains(capsule.capsule_format_uid),
        user_secret != Some(pool.plugin_of(capsule.capsule_format_uid).backend().user_secret@),
        pool.opened(capsule, user_secret, r),
    ensures
        r matches Err(e) && e.kind == if user_secret is None {
            KyncErrorKind::PermissionDenied { requires_authentication: true }
        } else {
            KyncErrorKind::AccessDenied { retries_left: None }
        },
{
}

/// Round trip through a pool of reference plugins: with the user secret of the plugin, a
/// key whose capsule can be counted in `usize` is sealed, and opening the capsule returns
/// the key.
pub proof fn lemma_test_pool_round_trip(
    pool: Pool<TestPlugin>,
    key: Seq<u8>,
    uid: Seq<char>,
    capsule_key_id: Option<Seq<u8>>,
    sealed: Result<Capsule, KyncError>,
    opened: Result<Vec<u8>, KyncError>,
)
    requires
        pool.contains(uid),
        capsule_key_id is Some ==> pool.plugin_of(uid).backend().offers(capsule_key_id->0),
        spec_capsule_len(vstd::utf8::encode_utf8(uid).len(), key.len()) <= usize::MAX,
        pool.sealed(
            key,
            uid,
            capsule_key_id,
            Some(pool.plugin_of(uid).backend().user_secret@),
            sealed,
        ),
        sealed is Ok ==> pool.opened(
            sealed->Ok_0@,
            Some(pool.plugin_of(uid).backend().user_secret@),
            opened,
        ),
    ensures
        sealed matches Ok(capsule) && capsule@.payload == key.reverse(),
        opened matches Ok(recovered) && recovered@ == key,
{
    assert(key.reverse().reverse() =~= key);
    assert(key.reverse().len() == key.len());
}

/// The reference plugin opens what it has sealed.
pub proof fn lemma_test_plugin_is_faithful(plugin: TestPlugin)
    ensures
        is_faithful(plugin),
{
    assert forall|
        sealed_capacity: nat,
        key: Seq<u8>,
        item_id: Option<Seq<u8>>,
        sealed_auth: Option<Seq<u8>>,
        sealed_status: CError,
        payload: Seq<u8>,
        opened_capacity: nat,
        opened_auth: Option<Seq<u8>>,
        opened_status: CError,
        opened: Seq<u8>,
    |
        #![trigger
            plugin.seal_answer(sealed_capacity, key, item_id, sealed_auth, sealed_status, payload),
            plugin.open_answer(opened_capacity, payload, opened_auth, opened_status, opened),
        ]
        plugin.seal_answer(sealed_capacity, key, item_id, sealed_auth, sealed_status, payload)
            && sealed_status.is_ok() && plugin.open_answer(
            opened_capacity,
            payload,
            opened_auth,
            opened_status,
            opened,
        ) && opened_status.is_ok() implies opened == key by {
        assert(key.reverse().reverse() =~= key);
    }
}

} // verus!
