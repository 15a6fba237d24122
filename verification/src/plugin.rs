//! The contract between the host and a capsule plugin, and the binding that turns a plugin's
//! entry points into calls on plain values.
//!
//! A [`Backend`] is the set of entry points that a plugin offers. Each entry point takes its
//! arguments as borrowed views, writes its result through a sink, and reports how it ended in
//! an error record. A [`Plugin`] wraps a backend that has accepted the API version of the
//! host: it builds the views and the sink for each call and turns the record into a typed
//! result.
//!
//! Calls are synchronous. The binding does not serialise calls into a backend: whether two
//! calls may run at once is up to the backend.

use crate::error::{local, CError, Failure, KyncError, KyncErrorKind};
use crate::ffi::{
    c_str_len, lemma_c_str_len, lemma_c_str_len_unique, spec_c_str_len, spec_seq_of, Slice,
    Writer,
};
use vstd::prelude::*;
use vstd::slice::{slice_subrange, slice_to_vec};

verus! {

/// The version of the plugin API that this library speaks.
pub const API_VERSION: u16 = 0x01_00;

/// The log level that the host asks of a plugin.
pub const LOG_LEVEL: u8 = 0;

/// The families of operating systems that name dynamic libraries differently.
#[derive(Clone, Copy, Debug, PartialEq, Eq)]
pub enum Platform {
    Windows,
    MacOs,
    Unix,
}

/// The prefix of the file name of a dynamic library on `platform`.
pub open spec fn spec_default_prefix(platform: Platform) -> Seq<char> {
    match platform {
        Platform::Windows => ""@,
        Platform::MacOs => "lib"@,
        Platform::Unix => "lib"@,
    }
}

/// The extension of the file name of a dynamic library on `platform`.
pub open spec fn spec_default_suffix(platform: Platform) -> Seq<char> {
    match platform {
        Platform::Windows => "dll"@,
        Platform::MacOs => "dylib"@,
        Platform::Unix => "so"@,
    }
}

/// The default prefix of a dynamic library on `platform` (`"lib"` on Linux).
pub fn os_default_prefix(platform: Platform) -> (prefix: &'static str)
    ensures
        prefix@ == spec_default_prefix(platform),
{
    match platform {
        Platform::Windows => "",
        Platform::MacOs => "lib",
        Platform::Unix => "lib",
    }
}

/// The default extension of a dynamic library on `platform` (`"so"` on Linux).
pub fn os_default_suffix(platform: Platform) -> (suffix: &'static str)
    ensures
        suffix@ == spec_default_suffix(platform),
{
    match platform {
        Platform::Windows => "dll",
        Platform::MacOs => "dylib",
        Platform::Unix => "so",
    }
}

/// The operations of a plugin that produce output.
#[derive(Clone, Copy, Debug, PartialEq, Eq)]
pub enum Operation {
    /// Listing the identifiers of the items that the plugin holds.
    CapsuleKeyIds,
    /// Sealing a key.
    Seal,
    /// Opening a payload.
    Open,
}

/// The entry points of a capsule plugin.
///
/// Each spec function says which answers the backend may give to a call: the record it
/// returns and the bytes it leaves in the sink, for the arguments of the call and the
/// capacity of the sink. A backend that answers from hardware or from a user need not give
/// the same answer twice. Every call gets an empty sink, and every record that comes back
/// is well-formed: an adapter for a foreign plugin has to stop on a record that is not.
pub trait Backend {
    /// Whether the backend may answer `init` with `status`.
    open spec fn init_answer(&self, api_version: u16, log_level: u8, status: CError) -> bool {
        true
    }

    /// Whether the backend may answer `format_uid` with `status` and `out`.
    open spec fn format_uid_answer(&self, capacity: nat, status: CError, out: Seq<u8>) -> bool {
        true
    }

    /// Whether the backend may answer `enumerate_item_ids` with `status` and `out`.
    open spec fn item_ids_answer(&self, capacity: nat, status: CError, out: Seq<u8>) -> bool {
        true
    }

    /// Whether the backend may answer `seal` on these arguments with `status` and `out`.
    open spec fn seal_answer(
        &self,
        capacity: nat,
        key: Seq<u8>,
        item_id: Option<Seq<u8>>,
        auth: Option<Seq<u8>>,
        status: CError,
        out: Seq<u8>,
    ) -> bool {
        true
    }

    /// Whether the backend may answer `open` on these arguments with `status` and `out`.
    open spec fn open_answer(
        &self,
        capacity: nat,
        payload: Seq<u8>,
        auth: Option<Seq<u8>>,
        status: CError,
        out: Seq<u8>,
    ) -> bool {
        true
    }

    /// Whether the backend may declare `len` as the largest output of `operation` on
    /// `input_len` bytes.
    open spec fn buf_len_max_answer(&self, operation: Operation, input_len: usize, len: usize) -> bool {
        true
    }

    /// Asks the backend to speak the API version `api_version`.
    fn init(&self, api_version: u16, log_level: u8) -> (status: CError)
        ensures
            status.wf(),
            self.init_answer(api_version, log_level, status),
    ;

    /// Writes the UID of the capsule format that the backend implements.
    fn format_uid(&self, sink: &mut Writer) -> (status: CError)
        requires
            old(sink)@.len() == 0,
        ensures
            status.wf(),
            self.format_uid_answer(old(sink).capacity(), status, final(sink)@),
    ;

    /// Writes the identifiers of the items that the backend holds, each followed by a NUL
    /// byte.
    fn enumerate_item_ids(&self, sink: &mut Writer) -> (status: CError)
        requires
            old(sink)@.len() == 0,
        ensures
            status.wf(),
            self.item_ids_answer(old(sink).capacity(), status, final(sink)@),
    ;

    /// Seals `key` and writes the payload. `item_id` and `auth` may be absent.
    fn seal(&self, sink: &mut Writer, key: Slice, item_id: Slice, auth: Slice) -> (status:
        CError)
        requires
            old(sink)@.len() == 0,
            key@ is Some,
        ensures
            status.wf(),
            self.seal_answer(old(sink).capacity(), key@->0, item_id@, auth@, status, final(sink)@),
    ;

    /// Opens `payload` and writes the key. `auth` may be absent.
    fn open(&self, sink: &mut Writer, payload: Slice, auth: Slice) -> (status: CError)
        requires
            old(sink)@.len() == 0,
            payload@ is Some,
        ensures
            status.wf(),
            self.open_answer(old(sink).capacity(), payload@->0, auth@, status, final(sink)@),
    ;

    /// The largest number of bytes that `operation` can produce from `input_len` bytes.
    fn buf_len_max(&self, operation: Operation, input_len: usize) -> (len: usize)
        ensures
            self.buf_len_max_answer(operation, input_len, len),
    ;
}

/// The result of a call as a mathematical value: the bytes that it produced, or the kind of
/// its failure with the description, if there is one.
pub type Outcome = Result<Seq<u8>, Failure>;

/// A backend is faithful if it opens what it has sealed: whenever it seals a key and later
/// opens the payload that it wrote, both with success, it writes that key.
pub open spec fn is_faithful<B: Backend>(backend: B) -> bool {
    forall|
        sealed_capacity: nat,
        key: Seq<u8>,
        item_id: Option<Seq<u8>>,
        sealed_auth: Option<Seq<u8>>,
        sealed_status: CError,
        payload: Seq<u8>,
        opened_capacity: nat,
        opened_auth: Option<Seq<u8>>,
        opened_status: CError,
        opened: Seq<u8>,
    |
        #![trigger
            backend.seal_answer(sealed_capacity, key, item_id, sealed_auth, sealed_status, payload),
            backend.open_answer(opened_capacity, payload, opened_auth, opened_status, opened),
        ]
        backend.seal_answer(sealed_capacity, key, item_id, sealed_auth, sealed_status, payload)
            && sealed_status.is_ok() && backend.open_answer(
            opened_capacity,
            payload,
            opened_auth,
            opened_status,
            opened,
        ) && opened_status.is_ok() ==> opened == key
}

/// What the binding makes of the answer of a backend: the bytes in the sink if the record
/// reports success, else the error that the record reports.
pub open spec fn spec_outcome(status: CError, out: Seq<u8>) -> Outcome {
    if status.is_ok() {
        Ok(out)
    } else {
        Err((status.reported()->0, status.spec_description()))
    }
}

/// The result `r` as a mathematical value.
pub open spec fn outcome_of(r: Result<Vec<u8>, KyncError>) -> Outcome {
    match r {
        Ok(bytes) => Ok(bytes@),
        Err(e) => Err(e@),
    }
}

/// The identifiers in `list`, where each identifier is followed by a NUL byte; `None` if the
/// last identifier has no terminator.
pub open spec fn spec_item_ids(list: Seq<u8>) -> Option<Seq<Seq<u8>>>
    decreases list.len(),
{
    if list.len() == 0 {
        Some(Seq::empty())
    } else {
        let n: int = spec_c_str_len(list) as int;
        if n >= list.len() {
            None
        } else {
            match spec_item_ids(list.skip(n + 1)) {
                Some(others) => Some(seq![list.take(n)] + others),
                None => None,
            }
        }
    }
}

/// The list of the identifiers `ids`: each followed by a NUL byte.
pub open spec fn spec_item_list(ids: Seq<Seq<u8>>) -> Seq<u8>
    decreases ids.len(),
{
    if ids.len() == 0 {
        Seq::empty()
    } else {
        ids[0] + seq![0u8] + spec_item_list(ids.drop_first())
    }
}

/// The sequences that the vectors `ids` hold.
pub open spec fn spec_ids(ids: Seq<Vec<u8>>) -> Seq<Seq<u8>> {
    ids.map_values(|id: Vec<u8>| id@)
}

/// Splits a list of NUL-terminated identifiers. A list whose last byte is not a NUL byte is
/// rejected.
pub fn parse_item_ids(list: &[u8]) -> (ids: Option<Vec<Vec<u8>>>)
    ensures
        match ids {
            Some(found) => spec_item_ids(list@) == Some(spec_ids(found@)),
            None => spec_item_ids(list@) is None,
        },
{
    let mut found: Vec<Vec<u8>> = Vec::new();
    let mut start: usize = 0;
    proof {
        assert(list@.skip(0) =~= list@);
        if let Some(ids) = spec_item_ids(list@) {
            assert(spec_ids(found@) + ids =~= ids);
        }
    }
    while start < list.len()
        invariant
            start <= list@.len(),
            spec_item_ids(list@) == match spec_item_ids(list@.skip(start as int)) {
                Some(others) => Some(spec_ids(found@) + others),
                None => None,
            },
        decreases list@.len() - start,
    {
        let rest = slice_subrange(list, start, list.len());
        assert(rest@ =~= list@.skip(start as int));
        let n: usize = c_str_len(rest);
        proof {
            lemma_c_str_len(rest@);
        }
        if n >= rest.len() {
            return None;
        }
        let id = slice_to_vec(slice_subrange(rest, 0, n));
        let ghost before = spec_ids(found@);
        let ghost after = list@.skip(start + n + 1);
        found.push(id);
        proof {
            assert(rest@.skip(n + 1) =~= after);
            assert(rest@.take(n as int) == id@);
            assert(spec_ids(found@) =~= before + seq![id@]);
            if let Some(others) = spec_item_ids(after) {
                assert(before + (seq![id@] + others) =~= spec_ids(found@) + others);
            }
        }
        start = start + n + 1;
    }
    assert(list@.skip(start as int).len() == 0);
    assert(spec_ids(found@) + Seq::<Seq<u8>>::empty() =~= spec_ids(found@));
    Some(found)
}

/// The list of identifiers with one more at the end is the list with that identifier and a
/// NUL byte at the end.
pub proof fn lemma_item_list_push(ids: Seq<Seq<u8>>, id: Seq<u8>)
    ensures
        spec_item_list(ids.push(id)) == spec_item_list(ids) + id + seq![0u8],
    decreases ids.len(),
{
    if ids.len() == 0 {
        assert(ids.push(id).drop_first() =~= ids);
        assert(spec_item_list(ids.push(id)) =~= spec_item_list(ids) + id + seq![0u8]);
    } else {
        lemma_item_list_push(ids.drop_first(), id);
        assert(ids.push(id).drop_first() =~= ids.drop_first().push(id));
        assert(spec_item_list(ids.push(id)) =~= spec_item_list(ids) + id + seq![0u8]);
    }
}

/// A list that is written from identifiers without NUL bytes is split into those
/// identifiers.
pub proof fn lemma_item_ids_round_trip(ids: Seq<Seq<u8>>)
    requires
        forall|i: int, j: int| 0 <= i < ids.len() && 0 <= j < ids[i].len() ==> ids[i][j] != 0,
    ensures
        spec_item_ids(spec_item_list(ids)) == Some(ids),
    decreases ids.len(),
{
    if ids.len() != 0 {
        let list = spec_item_list(ids);
        let others = ids.drop_first();
        let n: int = ids[0].len() as int;
        assert forall|i: int, j: int|
            0 <= i < others.len() && 0 <= j < others[i].len() implies others[i][j] != 0 by {
            assert(others[i] == ids[i + 1]);
        }
        lemma_item_ids_round_trip(others);
        assert forall|j: int| 0 <= j < n implies list[j] != 0 by {
            assert(list[j] == ids[0][j]);
        }
        assert(list[n] == 0);
        lemma_c_str_len_unique(list, n);
        assert(list.take(n) =~= ids[0]);
        assert(list.skip(n + 1) =~= spec_item_list(others));
        assert(seq![ids[0]] + others =~= ids);
    }
}

/// A plugin that has accepted the API version of the host.
#[derive(Debug)]
pub struct Plugin<B: Backend> {
    backend: B,
}

impl<B: Backend> Plugin<B> {
    /// The backend behind the binding.
    pub closed spec fn backend(&self) -> B {
        self.backend
    }

    /// Whether the outcome `r` is what the binding makes of an answer that the backend may
    /// give to `format_uid`.
    pub open spec fn id_outcome(&self, r: Outcome) -> bool {
        exists|status: CError, out: Seq<u8>|
            #![trigger self.backend().format_uid_answer(usize::MAX as nat, status, out)]
            self.backend().format_uid_answer(usize::MAX as nat, status, out) && status.wf()
                && r == spec_outcome(status, out)
    }

    /// Whether the outcome `r` is what the binding makes of an answer that the backend may
    /// give to `enumerate_item_ids`.
    pub open spec fn configs_outcome(&self, r: Outcome) -> bool {
        exists|status: CError, out: Seq<u8>|
            #![trigger self.backend().item_ids_answer(usize::MAX as nat, status, out)]
            self.backend().item_ids_answer(usize::MAX as nat, status, out) && status.wf()
                && r == spec_outcome(status, out)
    }

    /// Whether `listed` is what `configs` makes of an answer that the backend may give to
    /// `enumerate_item_ids`: the identifiers in the list, `InvalidData` for a list that is not
    /// terminated, or the failure that the backend reports.
    pub open spec fn configs_result(
        &self,
        listed: Result<Seq<Seq<u8>>, Failure>,
    ) -> bool {
        exists|list: Outcome|
            #![trigger self.configs_outcome(list)]
            self.configs_outcome(list) && listed == match list {
                Ok(bytes) => match spec_item_ids(bytes) {
                    Some(ids) => Ok(ids),
                    None => Err(local(KyncErrorKind::InvalidData)),
                },
                Err(failure) => Err(failure),
            }
    }

    /// Whether the outcome `r` is what the binding makes of an answer that the backend may
    /// give to `seal` on these arguments.
    pub open spec fn protect_outcome(
        &self,
        data: Seq<u8>,
        config: Option<Seq<u8>>,
        auth: Option<Seq<u8>>,
        r: Outcome,
    ) -> bool {
        exists|status: CError, out: Seq<u8>|
            #![trigger self.backend().seal_answer(usize::MAX as nat, data, config, auth, status, out)]
            self.backend().seal_answer(usize::MAX as nat, data, config, auth, status, out)
                && status.wf() && r == spec_outcome(status, out)
    }

    /// Whether the outcome `r` is what the binding makes of an answer that the backend may
    /// give to `open` on these arguments.
    pub open spec fn recover_outcome(&self, data: Seq<u8>, auth: Option<Seq<u8>>, r: Outcome) -> bool {
        exists|status: CError, out: Seq<u8>|
            #![trigger self.backend().open_answer(usize::MAX as nat, data, auth, status, out)]
            self.backend().open_answer(usize::MAX as nat, data, auth, status, out) && status.wf()
                && r == spec_outcome(status, out)
    }

    /// Binds `backend`: asks it to speak the API version of the host, and fails with
    /// `Unsupported` if it refuses.
    pub fn load(backend: B) -> (r: Result<Plugin<B>, KyncError>)
        ensures
            match r {
                Ok(plugin) => {
                    &&& plugin.backend() == backend
                    &&& exists|status: CError|
                        #![trigger backend.init_answer(API_VERSION, LOG_LEVEL, status)]
                        backend.init_answer(API_VERSION, LOG_LEVEL, status) && status.is_ok()
                },
                Err(e) => {
                    &&& e.kind == KyncErrorKind::Unsupported
                    &&& exists|status: CError|
                        #![trigger backend.init_answer(API_VERSION, LOG_LEVEL, status)]
                        backend.init_answer(API_VERSION, LOG_LEVEL, status) && !status.is_ok()
                            && e.text() == status.spec_description()
                },
            },
    {
        let status = backend.init(API_VERSION, LOG_LEVEL);
        match status.check() {
            Ok(_) => Ok(Plugin { backend }),
            Err(e) => Err(KyncError { kind: KyncErrorKind::Unsupported, description: e.description }),
        }
    }

    /// What a call has produced: the bytes in `sink` if `status` reports success, else the
    /// error that `status` reports.
    fn finish(status: CError, sink: Writer) -> (r: Result<Vec<u8>, KyncError>)
        requires
            status.wf(),
        ensures
            outcome_of(r) == spec_outcome(status, sink@),
    {
        match status.check() {
            Ok(_) => Ok(sink.into_vec()),
            Err(e) => Err(e),
        }
    }

    /// The UID of the capsule format that the plugin implements.
    pub fn id(&self) -> (r: Result<Vec<u8>, KyncError>)
        ensures
            self.id_outcome(outcome_of(r)),
    {
        let mut sink = Writer::new();
        let status = self.backend.format_uid(&mut sink);
        assert(self.backend().format_uid_answer(usize::MAX as nat, status, sink@));
        Self::finish(status, sink)
    }

    /// The identifiers of the items that the plugin offers. A list that the plugin has not
    /// terminated is refused as `InvalidData`.
    pub fn configs(&self) -> (r: Result<Vec<Vec<u8>>, KyncError>)
        ensures
            self.configs_result(
                match r {
                    Ok(found) => Ok(spec_ids(found@)),
                    Err(e) => Err(e@),
                },
            ),
    {
        let mut sink = Writer::new();
        let status = self.backend.enumerate_item_ids(&mut sink);
        assert(self.backend().item_ids_answer(usize::MAX as nat, status, sink@));
        let list = Self::finish(status, sink);
        assert(self.configs_outcome(outcome_of(list)));
        match list {
            Ok(bytes) => match parse_item_ids(bytes.as_slice()) {
                Some(ids) => Ok(ids),
                None => Err(KyncError::new(KyncErrorKind::InvalidData)),
            },
            Err(e) => Err(e),
        }
    }

    /// Protects `data`: has the plugin seal it for the item `config`, if one is named, with
    /// the authentication `auth`, if any is supplied.
    pub fn protect(&self, data: &[u8], config: Option<&[u8]>, auth: Option<&[u8]>) -> (r: Result<
        Vec<u8>,
        KyncError,
    >)
        ensures
            self.protect_outcome(data@, spec_seq_of(config), spec_seq_of(auth), outcome_of(r)),
    {
        let mut sink = Writer::new();
        let status = self.backend.seal(
            &mut sink,
            Slice::new(data),
            Slice::from_option(config),
            Slice::from_option(auth),
        );
        assert(self.backend().seal_answer(
            usize::MAX as nat,
            data@,
            spec_seq_of(config),
            spec_seq_of(auth),
            status,
            sink@,
        ));
        Self::finish(status, sink)
    }

    /// Recovers what was protected: has the plugin open the payload `data` with the
    /// authentication `auth`, if any is supplied.
    pub fn recover(&self, data: &[u8], auth: Option<&[u8]>) -> (r: Result<Vec<u8>, KyncError>)
        ensures
            self.recover_outcome(data@, spec_seq_of(auth), outcome_of(r)),
    {
        let mut sink = Writer::new();
        let status = self.backend.open(&mut sink, Slice::new(data), Slice::from_option(auth));
        assert(self.backend().open_answer(
            usize::MAX as nat,
            data@,
            spec_seq_of(auth),
            status,
            sink@,
        ));
        Self::finish(status, sink)
    }

    /// The largest number of bytes that the plugin declares for `operation` on `input_len`
    /// bytes.
    pub fn buf_len_max(&self, operation: Operation, input_len: usize) -> (len: usize)
        ensures
            self.backend().buf_len_max_answer(operation, input_len, len),
    {
        self.backend.buf_len_max(operation, input_len)
    }

    /// Recovering what was protected gives the data back: where a faithful plugin has
    /// protected `data` as `payload` and recovers `recovered` from `payload`, `recovered` is
    /// `data`.
    pub proof fn lemma_round_trip(
        self,
        data: Seq<u8>,
        config: Option<Seq<u8>>,
        protecting_auth: Option<Seq<u8>>,
        payload: Seq<u8>,
        recovering_auth: Option<Seq<u8>>,
        recovered: Seq<u8>,
    )
        requires
            is_faithful(self.backend()),
            self.protect_outcome(data, config, protecting_auth, Ok(payload)),
            self.recover_outcome(payload, recovering_auth, Ok(recovered)),
        ensures
            recovered == data,
    {
    }
}

/// The entry points that a plugin exports.
#[derive(Clone, Copy, Debug, PartialEq, Eq)]
pub enum EntryPoint {
    Init,
    FormatUid,
    EnumerateItemIds,
    Seal,
    Open,
    BufLenMax,
}

impl EntryPoint {
    /// The name of the symbol under which a dynamic library exports the entry point.
    pub open spec fn spec_symbol(self) -> Seq<char> {
        match self {
            EntryPoint::Init => "init"@,
            EntryPoint::FormatUid => "format_uid"@,
            EntryPoint::EnumerateItemIds => "enumerate_item_ids"@,
            EntryPoint::Seal => "seal"@,
            EntryPoint::Open => "open"@,
            EntryPoint::BufLenMax => "buf_len_max"@,
        }
    }

    /// The entry point that the host resolves after this one, if there is another.
    pub open spec fn spec_following(self) -> Option<EntryPoint> {
        match self {
            EntryPoint::Init => Some(EntryPoint::FormatUid),
            EntryPoint::FormatUid => Some(EntryPoint::EnumerateItemIds),
            EntryPoint::EnumerateItemIds => Some(EntryPoint::Seal),
            EntryPoint::Seal => Some(EntryPoint::Open),
            EntryPoint::Open => Some(EntryPoint::BufLenMax),
            EntryPoint::BufLenMax => None,
        }
    }

    /// The name of the symbol under which a dynamic library exports the entry point.
    pub fn symbol(self) -> (name: &'static str)
        ensures
            name@ == self.spec_symbol(),
    {
        match self {
            EntryPoint::Init => "init",
            EntryPoint::FormatUid => "format_uid",
            EntryPoint::EnumerateItemIds => "enumerate_item_ids",
            EntryPoint::Seal => "seal",
            EntryPoint::Open => "open",
            EntryPoint::BufLenMax => "buf_len_max",
        }
    }

    /// The entry point that the host resolves after this one, if there is another.
    pub fn following(self) -> (next: Option<EntryPoint>)
        ensures
            next == self.spec_following(),
    {
        match self {
            EntryPoint::Init => Some(EntryPoint::FormatUid),
            EntryPoint::FormatUid => Some(EntryPoint::EnumerateItemIds),
            EntryPoint::EnumerateItemIds => Some(EntryPoint::Seal),
            EntryPoint::Seal => Some(EntryPoint::Open),
            EntryPoint::Open => Some(EntryPoint::BufLenMax),
            EntryPoint::BufLenMax => None,
        }
    }
}

/// What has happened while a plugin is bound from a dynamic library.
#[derive(Clone, Copy, Debug, PartialEq, Eq)]
pub enum BindingEvent {
    /// The library was opened (`true`), or could not be opened.
    Opened(bool),
    /// The symbol of an entry point was found (`true`), or is missing.
    Resolved(bool),
    /// `init` has returned, and its record reports success (`true`) or a failure.
    Initialised(bool),
}

/// Where the binding of a plugin from a dynamic library stands: what the host has to do
/// next, or how the binding has ended.
///
/// The host opens the library, resolves `init`, calls it with [`API_VERSION`], and then
/// resolves the other entry points. It tells the binding how each step went, and does what
/// the binding says next.
#[derive(Clone, Copy, Debug, PartialEq, Eq)]
pub enum Binding {
    /// The library is to be opened.
    OpenLibrary,
    /// The symbol of this entry point is to be resolved.
    Resolve(EntryPoint),
    /// `init` is to be called with the API version of the host.
    CallInit,
    /// Every entry point is resolved and the plugin speaks the API version of the host.
    Bound,
    /// The binding has failed.
    Failed(KyncErrorKind),
}

impl Binding {
    /// The state that follows the state `self` on the event `event`. A library that cannot
    /// be opened is an `IoError`, a missing symbol an `InitializationError`, and an `init`
    /// that does not report success means that the version is `Unsupported`. An event that
    /// does not answer what the state asks for is `ApiMisuse`. A binding that has ended
    /// stays as it is.
    pub open spec fn spec_advance(self, event: BindingEvent) -> Binding {
        match (self, event) {
            (Binding::Bound, _) => Binding::Bound,
            (Binding::Failed(kind), _) => Binding::Failed(kind),
            (Binding::OpenLibrary, BindingEvent::Opened(true)) => Binding::Resolve(
                EntryPoint::Init,
            ),
            (Binding::OpenLibrary, BindingEvent::Opened(false)) => Binding::Failed(
                KyncErrorKind::IoError,
            ),
            (Binding::Resolve(_), BindingEvent::Resolved(false)) => Binding::Failed(
                KyncErrorKind::InitializationError,
            ),
            (Binding::Resolve(EntryPoint::Init), BindingEvent::Resolved(true)) => Binding::CallInit,
            (Binding::Resolve(entry_point), BindingEvent::Resolved(true)) => {
                match entry_point.spec_following() {
                    Some(next) => Binding::Resolve(next),
                    None => Binding::Bound,
                }
            },
            (Binding::CallInit, BindingEvent::Initialised(true)) => Binding::Resolve(
                EntryPoint::FormatUid,
            ),
            (Binding::CallInit, BindingEvent::Initialised(false)) => Binding::Failed(
                KyncErrorKind::Unsupported,
            ),
            _ => Binding::Failed(KyncErrorKind::ApiMisuse),
        }
    }

    /// The state that the events `events` lead to, one after the other, from the state
    /// `self`.
    pub open spec fn spec_run(self, events: Seq<BindingEvent>) -> Binding
        decreases events.len(),
    {
        if events.len() == 0 {
            self
        } else {
            self.spec_advance(events[0]).spec_run(events.drop_first())
        }
    }

    /// The state in which a binding starts.
    pub fn start() -> (state: Binding)
        ensures
            state == Binding::OpenLibrary,
    {
        Binding::OpenLibrary
    }

    /// The state that follows on `event`.
    pub fn advance(self, event: BindingEvent) -> (state: Binding)
        ensures
            state == self.spec_advance(event),
    {
        match self {
            Binding::Bound => Binding::Bound,
            Binding::Failed(kind) => Binding::Failed(kind),
            Binding::OpenLibrary => match event {
                BindingEvent::Opened(true) => Binding::Resolve(EntryPoint::Init),
                BindingEvent::Opened(false) => Binding::Failed(KyncErrorKind::IoError),
                _ => Binding::Failed(KyncErrorKind::ApiMisuse),
            },
            Binding::Resolve(entry_point) => match event {
                BindingEvent::Resolved(false) => Binding::Failed(
                    KyncErrorKind::InitializationError,
                ),
                BindingEvent::Resolved(true) => match entry_point {
                    EntryPoint::Init => Binding::CallInit,
                    _ => match entry_point.following() {
                        Some(next) => Binding::Resolve(next),
                        None => Binding::Bound,
                    },
                },
                _ => Binding::Failed(KyncErrorKind::ApiMisuse),
            },
            Binding::CallInit => match event {
                BindingEvent::Initialised(true) => Binding::Resolve(EntryPoint::FormatUid),
                BindingEvent::Initialised(false) => Binding::Failed(KyncErrorKind::Unsupported),
                _ => Binding::Failed(KyncErrorKind::ApiMisuse),
            },
        }
    }

    /// Ends the binding: the plugin around `backend` if the binding has reached its end, the
    /// failure if it has failed, and `ApiMisuse` if it is not finished.
    pub fn finish<B: Backend>(self, backend: B) -> (r: Result<Plugin<B>, KyncError>)
        ensures
            match self {
                Binding::Bound => r matches Ok(plugin) && plugin.backend() == backend,
                Binding::Failed(kind) => r matches Err(e) && e.is_local(kind),
                _ => r matches Err(e) && e.is_local(KyncErrorKind::ApiMisuse),
            },
    {
        match self {
            Binding::Bound => Ok(Plugin { backend }),
            Binding::Failed(kind) => Err(KyncError::new(kind)),
            _ => Err(KyncError::new(KyncErrorKind::ApiMisuse)),
        }
    }
}

/// The events of a binding that succeeds.
pub open spec fn spec_binding_events() -> Seq<BindingEvent> {
    seq![
        BindingEvent::Opened(true),
        BindingEvent::Resolved(true),
        BindingEvent::Initialised(true),
        BindingEvent::Resolved(true),
        BindingEvent::Resolved(true),
        BindingEvent::Resolved(true),
        BindingEvent::Resolved(true),
        BindingEvent::Resolved(true),
    ]
}

/// A binding that has ended stays as it is, whatever follows.
pub proof fn lemma_binding_ends(state: Binding, events: Seq<BindingEvent>)
    requires
        state is Bound || state is Failed,
    ensures
        state.spec_run(events) == state,
    decreases events.len(),
{
    if events.len() != 0 {
        lemma_binding_ends(state, events.drop_first());
    }
}

/// A plugin is bound exactly if the library was opened, `init` was found and has accepted
/// the version, and the five other entry points were found, in this order.
pub proof fn lemma_binding_succeeds(events: Seq<BindingEvent>)
    ensures
        Binding::OpenLibrary.spec_run(events) == Binding::Bound <==> events.len() >= 8
            && events.take(8) == spec_binding_events(),
{
    let expected = spec_binding_events();
    let s0 = Binding::OpenLibrary;
    if events.len() >= 8 && events.take(8) == expected {
        lemma_binding_prefix(s0, events, 8);
        assert(s0.spec_run(expected) == Binding::Bound) by {
            lemma_binding_run_expected();
        }
        lemma_binding_ends(Binding::Bound, events.skip(8));
    }
    if s0.spec_run(events) == Binding::Bound {
        lemma_binding_only_way(events);
    }
}

/// A run is the run of the rest after the run of a prefix.
pub proof fn lemma_binding_prefix(state: Binding, events: Seq<BindingEvent>, n: int)
    requires
        0 <= n <= events.len(),
    ensures
        state.spec_run(events) == state.spec_run(events.take(n)).spec_run(events.skip(n)),
    decreases n,
{
    if n == 0 {
        assert(events.skip(0) =~= events);
    } else {
        let rest = events.drop_first();
        lemma_binding_prefix(state.spec_advance(events[0]), rest, n - 1);
        assert(events.take(n).drop_first() =~= rest.take(n - 1));
        assert(events.skip(n) =~= rest.skip(n - 1));
    }
}

/// The events of a binding that succeeds lead to a bound plugin.
proof fn lemma_binding_run_expected()
    ensures
        Binding::OpenLibrary.spec_run(spec_binding_events()) == Binding::Bound,
{
    let e0 = spec_binding_events();
    let e1 = e0.drop_first();
    let e2 = e1.drop_first();
    let e3 = e2.drop_first();
    let e4 = e3.drop_first();
    let e5 = e4.drop_first();
    let e6 = e5.drop_first();
    let e7 = e6.drop_first();
    let e8 = e7.drop_first();
    assert(e8.len() == 0);
    assert(Binding::Bound.spec_run(e8) == Binding::Bound);
    assert(Binding::Resolve(EntryPoint::BufLenMax).spec_run(e7) == Binding::Bound);
    assert(Binding::Resolve(EntryPoint::Open).spec_run(e6) == Binding::Bound);
    assert(Binding::Resolve(EntryPoint::Seal).spec_run(e5) == Binding::Bound);
    assert(Binding::Resolve(EntryPoint::EnumerateItemIds).spec_run(e4) == Binding::Bound);
    assert(Binding::Resolve(EntryPoint::FormatUid).spec_run(e3) == Binding::Bound);
    assert(Binding::CallInit.spec_run(e2) == Binding::Bound);
    assert(Binding::Resolve(EntryPoint::Init).spec_run(e1) == Binding::Bound);
}

/// The state after `n` of the events, for a run that binds the plugin.
spec fn spec_binding_stage(n: int) -> Binding {
    if n == 0 {
        Binding::OpenLibrary
    } else if n == 1 {
        Binding::Resolve(EntryPoint::Init)
    } else if n == 2 {
        Binding::CallInit
    } else if n == 3 {
        Binding::Resolve(EntryPoint::FormatUid)
    } else if n == 4 {
        Binding::Resolve(EntryPoint::EnumerateItemIds)
    } else if n == 5 {
        Binding::Resolve(EntryPoint::Seal)
    } else if n == 6 {
        Binding::Resolve(EntryPoint::Open)
    } else if n == 7 {
        Binding::Resolve(EntryPoint::BufLenMax)
    } else {
        Binding::Bound
    }
}

/// From the stage `n`, only the events of a binding that succeeds lead to a bound plugin.
proof fn lemma_binding_stage(n: int, events: Seq<BindingEvent>)
    requires
        0 <= n <= 8,
        spec_binding_stage(n).spec_run(events) == Binding::Bound,
    ensures
        events.len() >= 8 - n,
        events.take(8 - n) == spec_binding_events().skip(n),
    decreases 8 - n,
{
    let expected = spec_binding_events();
    if n == 8 {
        assert(events.take(0) =~= expected.skip(8));
    } else {
        let state = spec_binding_stage(n);
        if events.len() == 0 {
            assert(state.spec_run(events) == state);
        } else {
            let next = state.spec_advance(events[0]);
            if next is Failed {
                lemma_binding_ends(next, events.drop_first());
            } else {
                assert(next == spec_binding_stage(n + 1));
                assert(events[0] == expected[n]);
                lemma_binding_stage(n + 1, events.drop_first());
                assert(events.take(8 - n) =~= seq![events[0]] + events.drop_first().take(7 - n));
                assert(expected.skip(n) =~= seq![expected[n]] + expected.skip(n + 1));
            }
        }
    }
}

/// Only the events of a binding that succeeds lead to a bound plugin.
proof fn lemma_binding_only_way(events: Seq<BindingEvent>)
    requires
        Binding::OpenLibrary.spec_run(events) == Binding::Bound,
    ensures
        events.len() >= 8,
        events.take(8) == spec_binding_events(),
{
    lemma_binding_stage(0, events);
    assert(spec_binding_events().skip(0) =~= spec_binding_events());
}

} // verus!
