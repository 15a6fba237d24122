//! The pool: the directory of the plugins that are loaded, by the UID of the capsule format
//! that each implements.
//!
//! No two plugins in a pool implement the same format. The pool routes each request to the
//! plugin of the format that the request names, wraps what a plugin has sealed into a
//! capsule, and hands the payload of a capsule back to the plugin that wrote it.
//!
//! A pool is meant to be filled once and then read. Loading a plugin changes the pool, so
//! whoever loads plugins while others use the pool has to keep the two apart.

use crate::capsule::{spec_capsule_len, Capsule, CapsuleView, Payload, CAPSULE_V1};
use crate::der::TAG_OCTET_STRING;
use crate::error::{local, CError, Failure, KyncError, KyncErrorKind};
use crate::ffi::{c_str_text, c_str_to_string, spec_seq_of, string_from_utf8};
use crate::plugin::{
    is_faithful, outcome_of, spec_ids, Backend, Operation, Outcome, Plugin, API_VERSION,
    LOG_LEVEL,
};
use vstd::prelude::*;
use vstd::utf8::{decode_utf8, encode_utf8, valid_utf8};

verus! {

/// The bytes of `text`, if there is a text.
pub open spec fn spec_bytes_of(text: Option<&str>) -> Option<Seq<u8>> {
    match text {
        Some(s) => Some(encode_utf8(s@)),
        None => None,
    }
}

/// The UID under which a plugin is entered into a pool that holds the formats `uids`, if
/// its call `format_uid` has ended with `id`; or the reason why it is not entered: the
/// failure of the call, `InvalidData` for a UID that is not text, `ApiMisuse` for a UID that
/// the pool holds already.
pub open spec fn spec_entry(uids: Seq<Seq<char>>, id: Outcome) -> Result<Seq<char>, Failure> {
    match id {
        Err(failure) => Err(failure),
        Ok(bytes) => {
            if !valid_utf8(c_str_text(bytes)) {
                Err(local(KyncErrorKind::InvalidData))
            } else if uids.contains(decode_utf8(c_str_text(bytes))) {
                Err(local(KyncErrorKind::ApiMisuse))
            } else {
                Ok(decode_utf8(c_str_text(bytes)))
            }
        },
    }
}

/// The capsule that the pool makes for the format `uid` of what a plugin has sealed, or the
/// failure that it hands on. A payload that is too long for a capsule whose length can be
/// counted is refused as a `BufferError`.
pub open spec fn spec_wrap(uid: Seq<char>, sealed: Outcome) -> Result<CapsuleView, Failure> {
    match sealed {
        Err(failure) => Err(failure),
        Ok(payload) => {
            if spec_capsule_len(encode_utf8(uid).len(), payload.len()) <= usize::MAX {
                Ok(
                    CapsuleView {
                        version: CAPSULE_V1@,
                        capsule_format_uid: uid,
                        payload_tag: TAG_OCTET_STRING,
                        payload,
                    },
                )
            } else {
                Err(local(KyncErrorKind::BufferError { required_size: u64::MAX }))
            }
        },
    }
}

/// The identifiers `ids` as texts, or `None` if one of them is not UTF-8.
pub open spec fn spec_texts(ids: Seq<Seq<u8>>) -> Option<Seq<Seq<char>>> {
    if forall|i: int| 0 <= i < ids.len() ==> valid_utf8(#[trigger] ids[i]) {
        Some(ids.map_values(|id: Seq<u8>| decode_utf8(id)))
    } else {
        None
    }
}

/// The texts that the strings `strings` hold.
pub open spec fn spec_strings(strings: Seq<String>) -> Seq<Seq<char>> {
    strings.map_values(|s: String| s@)
}

/// Wraps what a plugin has sealed for the format `capsule_format_uid` into a capsule, or
/// hands its failure on.
pub fn wrap(capsule_format_uid: &str, sealed: Result<Vec<u8>, KyncError>) -> (r: Result<
    Capsule,
    KyncError,
>)
    ensures
        match spec_wrap(capsule_format_uid@, outcome_of(sealed)) {
            Ok(capsule) => r matches Ok(c) && c@ == capsule && c.wf(),
            Err(failure) => r matches Err(e) && e@ == failure,
        },
{
    match sealed {
        Err(e) => Err(e),
        Ok(payload) => {
            match Capsule::compute_serialized_len(capsule_format_uid, payload.len()) {
                None => Err(
                    KyncError::new(KyncErrorKind::BufferError { required_size: u64::MAX }),
                ),
                Some(_) => Ok(
                    Capsule::new(
                        capsule_format_uid.to_owned(),
                        Payload { tag: TAG_OCTET_STRING, data: payload },
                    ),
                ),
            }
        },
    }
}

/// Turns identifiers into strings. Identifiers that are not all UTF-8 are refused as
/// `InvalidData`.
pub fn key_ids_to_strings(ids: Vec<Vec<u8>>) -> (r: Result<Vec<String>, KyncError>)
    ensures
        match spec_texts(spec_ids(ids@)) {
            Some(texts) => r matches Ok(strings) && spec_strings(strings@) == texts,
            None => r matches Err(e) && e.is_local(KyncErrorKind::InvalidData),
        },
{
    let ghost all = spec_ids(ids@);
    let mut left = ids;
    let mut strings: Vec<String> = Vec::new();
    while left.len() > 0
        invariant
            all == spec_ids(ids@),
            strings@.len() + left@.len() == all.len(),
            forall|i: int| 0 <= i < left@.len() ==> left@[i]@ == all[strings@.len() + i],
            forall|i: int|
                0 <= i < strings@.len() ==> valid_utf8(#[trigger] all[i]) && strings@[i]@
                    == decode_utf8(all[i]),
        decreases left@.len(),
    {
        let id = left.remove(0);
        match string_from_utf8(id) {
            Some(s) => {
                strings.push(s);
            },
            None => {
                assert(!valid_utf8(all[strings@.len() as int]));
                return Err(KyncError::new(KyncErrorKind::InvalidData));
            },
        }
    }
    assert(spec_strings(strings@) =~= all.map_values(|id: Seq<u8>| decode_utf8(id)));
    Ok(strings)
}

/// Whether `r` and the buffer `after` are what is left of the buffer `before` when the key
/// that was recovered is written to its start: the length of the key and the key in front
/// of the rest of the buffer; or the buffer as it was, with the failure of the recovery, or
/// with a `BufferError` if the buffer is too short for the key.
pub open spec fn spec_filled(
    before: Seq<u8>,
    recovered: Result<Vec<u8>, KyncError>,
    r: Result<usize, KyncError>,
    after: Seq<u8>,
) -> bool {
    match recovered {
        Err(failure) => r == Err::<usize, KyncError>(failure) && after == before,
        Ok(key) => {
            if key@.len() <= before.len() {
                &&& r matches Ok(n) && n == key@.len()
                &&& after == key@ + before.skip(key@.len() as int)
            } else {
                &&& r matches Err(e) && e.is_local(
                    KyncErrorKind::BufferError { required_size: key@.len() as u64 },
                )
                &&& after == before
            }
        },
    }
}

/// Writes the key that was recovered to the start of `buf` and returns its length, or hands
/// the failure of the recovery on. A buffer that is too short for the key is left as it is.
pub fn fill(buf: &mut [u8], recovered: Result<Vec<u8>, KyncError>) -> (r: Result<usize, KyncError>)
    ensures
        spec_filled(old(buf)@, recovered, r, final(buf)@),
{
    let key = match recovered {
        Ok(key) => key,
        Err(e) => {
            return Err(e);
        },
    };
    if key.len() > buf.len() {
        return Err(KyncError::new(KyncErrorKind::BufferError { required_size: key.len() as u64 }));
    }
    let mut i: usize = 0;
    while i < key.len()
        invariant
            i <= key@.len() <= buf@.len(),
            buf@.len() == old(buf)@.len(),
            forall|j: int| 0 <= j < i ==> buf@[j] == key@[j],
            forall|j: int| i <= j < buf@.len() ==> buf@[j] == old(buf)@[j],
        decreases key@.len() - i,
    {
        buf[i] = key[i];
        i += 1;
    }
    assert(buf@ =~= key@ + old(buf)@.skip(key@.len() as int));
    Ok(key.len())
}

/// A plugin pool: the plugins that are loaded, each under the UID of its capsule format.
#[derive(Debug)]
pub struct Pool<B: Backend> {
    uids: Vec<String>,
    plugins: Vec<Plugin<B>>,
}

impl<B: Backend> Pool<B> {
    /// The UIDs of the formats that the pool holds, in the order in which they were loaded.
    pub closed spec fn uids(&self) -> Seq<Seq<char>> {
        spec_strings(self.uids@)
    }

    /// The plugins that the pool holds, in the order in which they were loaded.
    pub closed spec fn plugins(&self) -> Seq<Plugin<B>> {
        self.plugins@
    }

    /// A pool holds one plugin for each of its formats, and no format twice.
    pub open spec fn wf(&self) -> bool {
        &&& self.uids().len() == self.plugins().len()
        &&& self.uids().no_duplicates()
    }

    /// Whether the pool holds a plugin for the format `uid`.
    pub open spec fn contains(&self, uid: Seq<char>) -> bool {
        self.uids().contains(uid)
    }

    /// The plugin that the pool holds for the format `uid`.
    pub open spec fn plugin_of(&self, uid: Seq<char>) -> Plugin<B>
        recommends
            self.contains(uid),
    {
        self.plugins()[self.uids().index_of(uid)]
    }

    /// Whether `r` and the pool `after` are what `register` leaves of the pool `self`, the
    /// plugin `plugin` and the end `id` of its call `format_uid`.
    pub open spec fn registered(
        &self,
        plugin: Plugin<B>,
        id: Outcome,
        r: Result<(), KyncError>,
        after: &Self,
    ) -> bool {
        match spec_entry(self.uids(), id) {
            Ok(uid) => {
                &&& r is Ok
                &&& after.uids() == self.uids().push(uid)
                &&& after.plugins() == self.plugins().push(plugin)
            },
            Err(failure) => {
                &&& r matches Err(e) && e@ == failure
                &&& after.uids() == self.uids()
                &&& after.plugins() == self.plugins()
            },
        }
    }

    /// Whether `r` and the pool `after` are what `load` leaves of the pool `self` and the
    /// backend `backend`, for some answers that the backend may give: `Unsupported`, and the
    /// pool as it was, if the backend does not accept the API version of the host; else what
    /// `register` leaves of the plugin around the backend and of the end of its call
    /// `format_uid`.
    pub open spec fn loaded(&self, backend: B, r: Result<(), KyncError>, after: &Self) -> bool {
        exists|status: CError|
            #![trigger backend.init_answer(API_VERSION, LOG_LEVEL, status)]
            backend.init_answer(API_VERSION, LOG_LEVEL, status) && if status.is_ok() {
                exists|plugin: Plugin<B>, id: Outcome|
                    #![trigger self.registered(plugin, id, r, after)]
                    plugin.backend() == backend && plugin.id_outcome(id) && self.registered(
                        plugin,
                        id,
                        r,
                        after,
                    )
            } else {
                &&& r matches Err(e) && e@ == (
                    KyncErrorKind::Unsupported,
                    status.spec_description(),
                )
                &&& after.uids() == self.uids()
                &&& after.plugins() == self.plugins()
            }
    }

    /// Whether `r` is what is left when the plugins behind `backends` are loaded into the
    /// pool `self` one after the other, for some answers that the backends may give: the
    /// pool with all of them, or the error of the first that cannot be loaded.
    pub open spec fn loaded_all(&self, backends: Seq<B>, r: Result<Pool<B>, KyncError>) -> bool
        decreases backends.len(),
    {
        if backends.len() == 0 {
            r == Ok::<Pool<B>, KyncError>(*self)
        } else {
            exists|done: Result<(), KyncError>, after: Pool<B>|
                #![trigger self.loaded(backends[0], done, &after)]
                after.wf() && self.loaded(backends[0], done, &after) && match done {
                    Ok(_) => after.loaded_all(backends.drop_first(), r),
                    Err(e) => r == Err::<Pool<B>, KyncError>(e),
                }
        }
    }

    /// Whether the pool holds no plugin.
    pub open spec fn is_empty(&self) -> bool {
        self.uids().len() == 0 && self.plugins().len() == 0
    }

    /// Whether `r` is what `seal` returns for these arguments, for some answer that the
    /// plugin of the format may give.
    pub open spec fn sealed(
        &self,
        key: Seq<u8>,
        uid: Seq<char>,
        capsule_key_id: Option<Seq<u8>>,
        user_secret: Option<Seq<u8>>,
        r: Result<Capsule, KyncError>,
    ) -> bool {
        if !self.contains(uid) {
            r matches Err(e) && e.is_local(KyncErrorKind::ApiMisuse)
        } else {
            exists|answer: Outcome|
                #![trigger self.plugin_of(uid).protect_outcome(key, capsule_key_id, user_secret, answer)]
                self.plugin_of(uid).protect_outcome(key, capsule_key_id, user_secret, answer)
                    && match spec_wrap(uid, answer) {
                    Ok(capsule) => r matches Ok(c) && c@ == capsule && c.wf(),
                    Err(failure) => r matches Err(e) && e@ == failure,
                }
        }
    }

    /// Whether `r` is what `open_to_vec` returns for these arguments, for some answer that
    /// the plugin of the capsule's format may give.
    pub open spec fn opened(
        &self,
        capsule: CapsuleView,
        user_secret: Option<Seq<u8>>,
        r: Result<Vec<u8>, KyncError>,
    ) -> bool {
        if !self.contains(capsule.capsule_format_uid) {
            r matches Err(e) && e.is_local(KyncErrorKind::ApiMisuse)
        } else {
            self.plugin_of(capsule.capsule_format_uid).recover_outcome(
                capsule.payload,
                user_secret,
                outcome_of(r),
            )
        }
    }

    /// Whether `r` and the buffer `after` are what `open` leaves of the buffer `before` for
    /// these arguments, for some answer that the plugin of the capsule's format may give.
    pub open spec fn opened_into(
        &self,
        before: Seq<u8>,
        capsule: CapsuleView,
        user_secret: Option<Seq<u8>>,
        r: Result<usize, KyncError>,
        after: Seq<u8>,
    ) -> bool {
        exists|recovered: Result<Vec<u8>, KyncError>|
            #![trigger self.opened(capsule, user_secret, recovered)]
            self.opened(capsule, user_secret, recovered) && spec_filled(
                before,
                recovered,
                r,
                after,
            )
    }

    /// Creates a pool without plugins.
    pub fn new() -> (pool: Pool<B>)
        ensures
            pool.wf(),
            pool.is_empty(),
    {
        Pool { uids: Vec::new(), plugins: Vec::new() }
    }

    /// The number of plugins in the pool.
    pub fn len(&self) -> (n: usize)
        ensures
            n == self.uids().len(),
    {
        self.uids.len()
    }

    /// The place of the format `uid` in the pool, if the pool holds it.
    fn find(&self, uid: &str) -> (place: Option<usize>)
        requires
            self.wf(),
        ensures
            match place {
                Some(i) => i < self.uids().len() && self.uids()[i as int] == uid@
                    && self.uids().index_of(uid@) == i,
                None => !self.contains(uid@),
            },
    {
        let wanted: String = uid.to_owned();
        let mut i: usize = 0;
        while i < self.uids.len()
            invariant
                self.wf(),
                i <= self.uids@.len(),
                wanted@ == uid@,
                forall|j: int| 0 <= j < i ==> self.uids()[j] != uid@,
            decreases self.uids@.len() - i,
        {
            if self.uids[i] == wanted {
                proof {
                    let uids = self.uids();
                    assert(uids[i as int] == uid@);
                    assert(uids.contains(uid@));
                    let first: int = uids.index_of(uid@);
                    assert(uids[first] == uid@);
                    assert(first == i);
                }
                return Some(i);
            }
            assert(self.uids()[i as int] != uid@);
            i += 1;
        }
        None
    }

    /// Enters `plugin` into the pool under the UID that its call `format_uid` has ended
    /// with, where `id` is how that call ended. The UID is the text before the first NUL byte.
    /// Nothing is entered, and the pool stays as it is, if the call has failed, if the UID is
    /// not UTF-8, or if the pool holds a plugin for the UID already: that is `ApiMisuse`.
    pub fn register(&mut self, plugin: Plugin<B>, id: Result<Vec<u8>, KyncError>) -> (r: Result<
        (),
        KyncError,
    >)
        requires
            old(self).wf(),
        ensures
            final(self).wf(),
            old(self).registered(plugin, outcome_of(id), r, final(self)),
    {
        let bytes = match id {
            Ok(bytes) => bytes,
            Err(e) => {
                return Err(e);
            },
        };
        let uid = match c_str_to_string(bytes.as_slice()) {
            Some(uid) => uid,
            None => {
                return Err(KyncError::new(KyncErrorKind::InvalidData));
            },
        };
        if self.find(uid.as_str()).is_some() {
            return Err(KyncError::new(KyncErrorKind::ApiMisuse));
        }
        let ghost before = self.uids();
        self.uids.push(uid);
        self.plugins.push(plugin);
        assert(self.uids() =~= before.push(uid@));
        Ok(())
    }

    /// Loads a plugin into the pool: binds `backend`, asks it for the UID of its format and
    /// enters it under that UID. Where any of this fails, the pool stays as it is.
    pub fn load(&mut self, backend: B) -> (r: Result<(), KyncError>)
        requires
            old(self).wf(),
        ensures
            final(self).wf(),
            old(self).loaded(backend, r, final(self)),
    {
        let plugin = match Plugin::load(backend) {
            Ok(plugin) => plugin,
            Err(e) => {
                return Err(e);
            },
        };
        let id = plugin.id();
        let ghost bound = plugin;
        let r = self.register(plugin, id);
        assert(old(self).registered(bound, outcome_of(id), r, self));
        r
    }

    /// Creates a pool and loads the plugin behind `backend`.
    pub fn with_plugin(backend: B) -> (r: Result<Pool<B>, KyncError>)
        ensures
            r matches Ok(pool) ==> pool.wf(),
            exists|start: Pool<B>|
                #![trigger start.loaded_all(seq![backend], r)]
                start.wf() && start.is_empty() && start.loaded_all(seq![backend], r),
    {
        let mut pool = Pool::new();
        let ghost start = pool;
        let done = pool.load(backend);
        let r = match done {
            Ok(_) => Ok(pool),
            Err(e) => Err(e),
        };
        proof {
            let rest = seq![backend].drop_first();
            assert(rest.len() == 0);
            assert(start.loaded(seq![backend][0], done, &pool));
            if done is Ok {
                assert(pool.loaded_all(rest, r));
            }
            assert(start.loaded_all(seq![backend], r));
        }
        r
    }

    /// Creates a pool and loads the plugins behind `backends`, in their order. The first
    /// plugin that cannot be loaded ends the loading with its error.
    pub fn with_plugins(backends: Vec<B>) -> (r: Result<Pool<B>, KyncError>)
        ensures
            r matches Ok(pool) ==> pool.wf(),
            exists|start: Pool<B>|
                #![trigger start.loaded_all(backends@, r)]
                start.wf() && start.is_empty() && start.loaded_all(backends@, r),
    {
        let mut left = backends;
        let mut pool = Pool::new();
        let ghost start = pool;
        while left.len() > 0
            invariant
                pool.wf(),
                start.wf(),
                start.is_empty(),
                forall|r: Result<Pool<B>, KyncError>|
                    #![trigger start.loaded_all(backends@, r)]
                    pool.loaded_all(left@, r) ==> start.loaded_all(backends@, r),
            decreases left@.len(),
        {
            let ghost before = pool;
            let ghost waiting = left@;
            let backend = left.remove(0);
            let done = pool.load(backend);
            proof {
                assert(waiting[0] == backend);
                assert(waiting.drop_first() =~= left@);
                assert(before.loaded(waiting[0], done, &pool));
                assert forall|r: Result<Pool<B>, KyncError>|
                    (match done {
                        Ok(_) => pool.loaded_all(left@, r),
                        Err(e) => r == Err::<Pool<B>, KyncError>(e),
                    }) implies #[trigger] start.loaded_all(backends@, r) by {
                    assert(before.loaded_all(waiting, r));
                }
            }
            match done {
                Ok(_) => {},
                Err(e) => {
                    assert(start.loaded_all(backends@, Err::<Pool<B>, KyncError>(e)));
                    return Err(e);
                },
            }
        }
        assert(left@.len() == 0);
        assert(pool.loaded_all(left@, Ok::<Pool<B>, KyncError>(pool)));
        assert(start.loaded_all(backends@, Ok::<Pool<B>, KyncError>(pool)));
        Ok(pool)
    }

    /// The UIDs of the capsule formats that have a plugin loaded, in the order of loading.
    pub fn capsule_format_uids(&self) -> (uids: Vec<String>)
        ensures
            spec_strings(uids@) == self.uids(),
    {
        let mut uids: Vec<String> = Vec::new();
        let mut i: usize = 0;
        while i < self.uids.len()
            invariant
                i <= self.uids@.len(),
                uids@.len() == i,
                forall|j: int| 0 <= j < i ==> uids@[j]@ == self.uids@[j]@,
            decreases self.uids@.len() - i,
        {
            uids.push(self.uids[i].clone());
            i += 1;
        }
        assert(spec_strings(uids@) =~= self.uids());
        uids
    }

    /// The plugin for the format `capsule_format_uid`, or `ApiMisuse` if none is loaded.
    pub fn plugin(&self, capsule_format_uid: &str) -> (r: Result<&Plugin<B>, KyncError>)
        requires
            self.wf(),
        ensures
            match r {
                Ok(plugin) => self.contains(capsule_format_uid@) && *plugin == self.plugin_of(
                    capsule_format_uid@,
                ),
                Err(e) => !self.contains(capsule_format_uid@) && e.is_local(
                    KyncErrorKind::ApiMisuse,
                ),
            },
    {
        match self.find(capsule_format_uid) {
            Some(i) => Ok(&self.plugins[i]),
            None => Err(KyncError::new(KyncErrorKind::ApiMisuse)),
        }
    }

    /// The identifiers of the items that the plugin of the format `capsule_format_uid`
    /// offers.
    pub fn capsule_key_ids(&self, capsule_format_uid: &str) -> (r: Result<Vec<String>, KyncError>)
        requires
            self.wf(),
        ensures
            !self.contains(capsule_format_uid@) ==> (r matches Err(e) && e.is_local(
                KyncErrorKind::ApiMisuse,
            )),
            self.contains(capsule_format_uid@) ==> exists|listed: Result<Seq<Seq<u8>>, Failure>|
                #![trigger self.plugin_of(capsule_format_uid@).configs_result(listed)]
                self.plugin_of(capsule_format_uid@).configs_result(listed) && match listed {
                    Ok(ids) => match spec_texts(ids) {
                        Some(texts) => r matches Ok(strings) && spec_strings(strings@) == texts,
                        None => r matches Err(e) && e.is_local(KyncErrorKind::InvalidData),
                    },
                    Err(failure) => r matches Err(e) && e@ == failure,
                },
    {
        let plugin = match self.plugin(capsule_format_uid) {
            Ok(plugin) => plugin,
            Err(e) => {
                return Err(e);
            },
        };
        match plugin.configs() {
            Ok(ids) => {
                assert(plugin.configs_result(Ok(spec_ids(ids@))));
                key_ids_to_strings(ids)
            },
            Err(e) => {
                assert(plugin.configs_result(Err(e@)));
                Err(e)
            },
        }
    }

    /// The largest length of a capsule that seals a key of `key_len` bytes for the format
    /// `capsule_format_uid`: the length of a capsule around the largest payload that the
    /// plugin declares. A length that cannot be counted is refused as a `BufferError`.
    pub fn sealed_max_len(&self, capsule_format_uid: &str, key_len: usize) -> (r: Result<
        usize,
        KyncError,
    >)
        requires
            self.wf(),
        ensures
            !self.contains(capsule_format_uid@) ==> (r matches Err(e) && e.is_local(
                KyncErrorKind::ApiMisuse,
            )),
            self.contains(capsule_format_uid@) ==> exists|payload_len: usize|
                #![trigger
                    self.plugin_of(capsule_format_uid@).backend().buf_len_max_answer(
                        Operation::Seal,
                        key_len,
                        payload_len,
                    )
                ]
                self.plugin_of(capsule_format_uid@).backend().buf_len_max_answer(
                    Operation::Seal,
                    key_len,
                    payload_len,
                ) && {
                    let len: nat = spec_capsule_len(
                        encode_utf8(capsule_format_uid@).len(),
                        payload_len as nat,
                    );
                    if len <= usize::MAX {
                        r matches Ok(n) && n == len
                    } else {
                        r matches Err(e) && e.is_local(
                            KyncErrorKind::BufferError { required_size: u64::MAX },
                        )
                    }
                },
    {
        let plugin = match self.plugin(capsule_format_uid) {
            Ok(plugin) => plugin,
            Err(e) => {
                return Err(e);
            },
        };
        let payload_len: usize = plugin.buf_len_max(Operation::Seal, key_len);
        match Capsule::compute_serialized_len(capsule_format_uid, payload_len) {
            Some(len) => Ok(len),
            None => Err(KyncError::new(KyncErrorKind::BufferError { required_size: u64::MAX })),
        }
    }

    /// Seals `key` for the format `capsule_format_uid`, for the item `capsule_key_id` if one
    /// is named, with the user secret `user_secret` if one is supplied.
    pub fn seal(
        &self,
        key: &[u8],
        capsule_format_uid: &str,
        capsule_key_id: Option<&str>,
        user_secret: Option<&[u8]>,
    ) -> (r: Result<Capsule, KyncError>)
        requires
            self.wf(),
        ensures
            self.sealed(
                key@,
                capsule_format_uid@,
                spec_bytes_of(capsule_key_id),
                spec_seq_of(user_secret),
                r,
            ),
    {
        let plugin = match self.plugin(capsule_format_uid) {
            Ok(plugin) => plugin,
            Err(e) => {
                return Err(e);
            },
        };
        let item: Option<&[u8]> = match capsule_key_id {
            Some(id) => Some(id.as_bytes()),
            None => None,
        };
        let answer = plugin.protect(key, item, user_secret);
        assert(plugin.protect_outcome(
            key@,
            spec_bytes_of(capsule_key_id),
            spec_seq_of(user_secret),
            outcome_of(answer),
        ));
        wrap(capsule_format_uid, answer)
    }

    /// The largest length of a key that `open` recovers from a payload of `payload_len`
    /// bytes of the format `capsule_format_uid`, as the plugin declares it.
    pub fn opened_max_len(&self, capsule_format_uid: &str, payload_len: usize) -> (r: Result<
        usize,
        KyncError,
    >)
        requires
            self.wf(),
        ensures
            match r {
                Ok(n) => self.contains(capsule_format_uid@) && self.plugin_of(
                    capsule_format_uid@,
                ).backend().buf_len_max_answer(Operation::Open, payload_len, n),
                Err(e) => !self.contains(capsule_format_uid@) && e.is_local(
                    KyncErrorKind::ApiMisuse,
                ),
            },
    {
        match self.plugin(capsule_format_uid) {
            Ok(plugin) => Ok(plugin.buf_len_max(Operation::Open, payload_len)),
            Err(e) => Err(e),
        }
    }

    /// Opens `capsule`: hands its payload to the plugin of its format, with the user secret
    /// `user_secret` if one is supplied, and returns the key that the plugin recovers.
    pub fn open_to_vec(&self, capsule: &Capsule, user_secret: Option<&[u8]>) -> (r: Result<
        Vec<u8>,
        KyncError,
    >)
        requires
            self.wf(),
        ensures
            self.opened(capsule@, spec_seq_of(user_secret), r),
    {
        let plugin = match self.plugin(capsule.capsule_format_uid().as_str()) {
            Ok(plugin) => plugin,
            Err(e) => {
                return Err(e);
            },
        };
        plugin.recover(capsule.plugin_payload().data.as_slice(), user_secret)
    }

    /// Opens `capsule` into storage of the caller: writes the key that the plugin recovers
    /// to the start of `key` and returns its length. Where `key` is too short, it is left as
    /// it is and the length that is needed is reported in a `BufferError`.
    pub fn open(&self, key: &mut [u8], capsule: &Capsule, user_secret: Option<&[u8]>) -> (r:
        Result<usize, KyncError>)
        requires
            self.wf(),
        ensures
            self.opened_into(old(key)@, capsule@, spec_seq_of(user_secret), r, final(key)@),
    {
        let recovered = self.open_to_vec(capsule, user_secret);
        assert(self.opened(capsule@, spec_seq_of(user_secret), recovered));
        fill(key, recovered)
    }
}

/// Uniqueness: a plugin that reports the UID of a format that the pool holds already is
/// refused as `ApiMisuse`, and the pool holds what it held before.
pub proof fn lemma_duplicate_is_refused<B: Backend>(
    pool: Pool<B>,
    plugin: Plugin<B>,
    reported: Seq<u8>,
    r: Result<(), KyncError>,
    after: Pool<B>,
)
    requires
        valid_utf8(c_str_text(reported)),
        pool.contains(decode_utf8(c_str_text(reported))),
        pool.registered(plugin, Ok(reported), r, &after),
    ensures
        r matches Err(e) && e.is_local(KyncErrorKind::ApiMisuse),
        after.uids() == pool.uids(),
        after.plugins() == pool.plugins(),
{
}

/// Loading is all or nothing: where a plugin cannot be loaded, the pool holds what it held
/// before.
pub proof fn lemma_failed_load_changes_nothing<B: Backend>(
    pool: Pool<B>,
    backend: B,
    r: Result<(), KyncError>,
    after: Pool<B>,
)
    requires
        pool.loaded(backend, r, &after),
        r is Err,
    ensures
        after.uids() == pool.uids(),
        after.plugins() == pool.plugins(),
{
}

/// A plugin that is loaded is found under the UID that it has reported, and every plugin
/// that was loaded before is still found under its own.
pub proof fn lemma_loaded_is_found<B: Backend>(
    pool: Pool<B>,
    backend: B,
    r: Result<(), KyncError>,
    after: Pool<B>,
)
    requires
        pool.wf(),
        after.wf(),
        pool.loaded(backend, r, &after),
        r is Ok,
    ensures
        after.uids().len() == pool.uids().len() + 1,
        !pool.contains(after.uids().last()),
        after.plugin_of(after.uids().last()).backend() == backend,
        forall|uid: Seq<char>| #[trigger]
            pool.contains(uid) ==> after.contains(uid) && after.plugin_of(uid) == pool.plugin_of(
                uid,
            ),
{
    let last = after.uids().last();
    let n: int = pool.uids().len() as int;
    assert(after.uids()[n] == last);
    assert(after.uids().contains(last));
    assert(after.uids().index_of(last) == n);
    assert forall|uid: Seq<char>| #[trigger] pool.contains(uid) implies after.contains(uid)
        && after.plugin_of(uid) == pool.plugin_of(uid) by {
        let i: int = pool.uids().index_of(uid);
        assert(pool.uids()[i] == uid);
        assert(after.uids()[i] == uid);
        assert(after.uids().contains(uid));
        assert(after.uids().index_of(uid) == i);
    }
}

/// Opening what was sealed gives the key back: where a pool has sealed a key with a
/// faithful plugin and then opens the capsule, both with success, it returns that key.
pub proof fn lemma_seal_open_round_trip<B: Backend>(
    pool: Pool<B>,
    key: Seq<u8>,
    uid: Seq<char>,
    capsule_key_id: Option<Seq<u8>>,
    sealing_secret: Option<Seq<u8>>,
    sealed: Result<Capsule, KyncError>,
    opening_secret: Option<Seq<u8>>,
    opened: Result<Vec<u8>, KyncError>,
)
    requires
        pool.wf(),
        pool.contains(uid) ==> is_faithful(pool.plugin_of(uid).backend()),
        pool.sealed(key, uid, capsule_key_id, sealing_secret, sealed),
        sealed is Ok,
        pool.opened(sealed->Ok_0@, opening_secret, opened),
        opened is Ok,
    ensures
        opened->Ok_0@ == key,
{
    let plugin = pool.plugin_of(uid);
    let answer = choose|answer: Outcome|
        #![trigger plugin.protect_outcome(key, capsule_key_id, sealing_secret, answer)]
        plugin.protect_outcome(key, capsule_key_id, sealing_secret, answer) && match spec_wrap(
            uid,
            answer,
        ) {
            Ok(capsule) => sealed matches Ok(c) && c@ == capsule && c.wf(),
            Err(failure) => sealed matches Err(e) && e@ == failure,
        };
    let payload = answer->Ok_0;
    assert(sealed->Ok_0@.capsule_format_uid == uid);
    assert(sealed->Ok_0@.payload == payload);
    plugin.lemma_round_trip(key, capsule_key_id, sealing_secret, payload, opening_secret, opened->Ok_0@);
}

/// Opening what was sealed into storage of the caller gives the key back: where a pool has
/// sealed a key with a faithful plugin and then opens the capsule into a buffer, both with
/// success, the buffer starts with that key and the length of the key is returned.
pub proof fn lemma_seal_open_into_round_trip<B: Backend>(
    pool: Pool<B>,
    key: Seq<u8>,
    uid: Seq<char>,
    capsule_key_id: Option<Seq<u8>>,
    sealing_secret: Option<Seq<u8>>,
    sealed: Result<Capsule, KyncError>,
    opening_secret: Option<Seq<u8>>,
    before: Seq<u8>,
    opened: Result<usize, KyncError>,
    after: Seq<u8>,
)
    requires
        pool.wf(),
        pool.contains(uid) ==> is_faithful(pool.plugin_of(uid).backend()),
        pool.sealed(key, uid, capsule_key_id, sealing_secret, sealed),
        sealed is Ok,
        pool.opened_into(before, sealed->Ok_0@, opening_secret, opened, after),
        opened is Ok,
    ensures
        opened->Ok_0 == key.len(),
        key.len() <= before.len(),
        after == key + before.skip(key.len() as int),
{
    let recovered = choose|recovered: Result<Vec<u8>, KyncError>|
        #![trigger pool.opened(sealed->Ok_0@, opening_secret, recovered)]
        pool.opened(sealed->Ok_0@, opening_secret, recovered) && spec_filled(
            before,
            recovered,
            opened,
            after,
        );
    lemma_seal_open_round_trip(
        pool,
        key,
        uid,
        capsule_key_id,
        sealing_secret,
        sealed,
        opening_secret,
        recovered,
    );
}

} // verus!
