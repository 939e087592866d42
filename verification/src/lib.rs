//! A backend-agnostic document store with optimistic concurrency control.
//!
//! Every stored record carries a compare-and-swap ([`Cas`]) token: an opaque
//! version counter that advances on each committed update. A caller that wants
//! to replace or remove a record must present the token it last observed;
//! a stale token is refused with the record's current token, so no write is
//! ever silently lost.
//!
//! The [`Repository`] trait states the contract every backend must satisfy;
//! the [`inmem`] module holds the in-memory reference backend, and
//! [`Logging`] is a decorator that records every call before forwarding it
//! unchanged to the backend it wraps.

use core::marker::PhantomData;
use vstd::prelude::*;

pub mod inmem;

verus! {

/// The token value given to a freshly created record.
pub const INITIAL_TOKEN: u32 = 0;

/// Opaque compare-and-swap token: a version counter for one record.
///
/// A token is only meaningful for the key it was issued for; it becomes stale
/// the moment that record is successfully updated or deleted.
#[derive(Clone, Copy, Debug, PartialEq, Eq, Structural)]
pub struct Cas(u32);

impl View for Cas {
    type V = u32;

    closed spec fn view(&self) -> u32 {
        self.0
    }
}

impl Cas {
    /// Wraps a raw counter value as a token.
    pub fn new(v: u32) -> (r: Cas)
        ensures
            r@ == v,
    {
        Cas(v)
    }

    /// The raw counter value of this token.
    pub fn value(&self) -> (v: u32)
        ensures
            v == self@,
    {
        self.0
    }
}

/// Mathematical model of a backend's contents: each present key maps to the
/// stored document and the record's current token value.
pub type StoreModel<T> = Map<Seq<char>, (T, u32)>;

/// What a lookup of `k` in a store with contents `m` yields: the record with
/// its token value if the key is present, nothing otherwise.
pub open spec fn store_find<T>(m: StoreModel<T>, k: Seq<char>) -> Option<(T, u32)> {
    if m.contains_key(k) {
        Some(m[k])
    } else {
        None
    }
}

/// Whether a presented token value `t` matches the current token of the
/// record stored under `k`.
pub open spec fn token_matches<T>(m: StoreModel<T>, k: Seq<char>, t: u32) -> bool {
    m.contains_key(k) && m[k].1 == t
}

/// The token value issued by a successful update guarded by token value `t`:
/// the counter advanced by one unit.
pub open spec fn next_token(t: u32) -> u32 {
    (t + 1) as u32
}

/// Store contents after a successful `create` of `v` under `k`.
pub open spec fn store_after_create<T>(m: StoreModel<T>, k: Seq<char>, v: T) -> StoreModel<T> {
    m.insert(k, (v, INITIAL_TOKEN))
}

/// Store contents after a successful `update` of `k` to `v`, guarded by the
/// matching token value `t`.
pub open spec fn store_after_update<T>(m: StoreModel<T>, k: Seq<char>, v: T, t: u32) -> StoreModel<
    T,
> {
    m.insert(k, (v, next_token(t)))
}

/// Store contents after a successful `delete` of `k`.
pub open spec fn store_after_delete<T>(m: StoreModel<T>, k: Seq<char>) -> StoreModel<T> {
    m.remove(k)
}

/// What a storage operation can fail with.
#[derive(Clone, Copy, Debug, PartialEq, Eq, Structural)]
pub enum Error {
    /// The presented token does not match the record's current token;
    /// carries the current token so the caller can reload and retry.
    Cas(Cas),
    /// The key does not exist, for an operation that needs an existing record.
    NotFound,
    /// The storage medium is unreachable. The in-memory backend never raises
    /// this; backends bound to a real medium surface their faults through it.
    Disconnect,
}

/// The exact outcome `create(key, doc)` owes its caller, relating the store
/// contents before (`m`) and after (`m2`) the call to the returned value:
/// a fresh key is inserted with the initial token, which is returned; an
/// occupied key is refused with the record's current token and the store is
/// left unchanged.
pub open spec fn create_post<T>(
    m: StoreModel<T>,
    k: Seq<char>,
    v: T,
    m2: StoreModel<T>,
    r: Result<Cas, Error>,
) -> bool {
    if m.contains_key(k) {
        &&& m2 == m
        &&& r matches Err(Error::Cas(c)) && c@ == m[k].1
    } else {
        &&& m2 == store_after_create(m, k, v)
        &&& r matches Ok(c) && c@ == INITIAL_TOKEN
    }
}

/// The exact outcome `find(key)` owes its caller: the stored record with its
/// current token if the key is present, an empty result if not — absence is
/// never an error.
pub open spec fn find_post<T>(
    m: StoreModel<T>,
    k: Seq<char>,
    r: Result<Option<(T, Cas)>, Error>,
) -> bool {
    if m.contains_key(k) {
        r matches Ok(Some(p)) && p.0 == m[k].0 && p.1@ == m[k].1
    } else {
        r matches Ok(p) && p is None
    }
}

/// The exact outcome `update(key, doc, cas)` owes its caller: on a matching
/// token the record is replaced and the advanced token returned; a missing
/// key is refused as not found; a stale token is refused with the record's
/// current token. Only the matching case changes the store.
pub open spec fn update_post<T>(
    m: StoreModel<T>,
    k: Seq<char>,
    v: T,
    t: u32,
    m2: StoreModel<T>,
    r: Result<Cas, Error>,
) -> bool {
    if token_matches(m, k, t) {
        &&& m2 == store_after_update(m, k, v, t)
        &&& r matches Ok(c) && c@ == next_token(t)
    } else if !m.contains_key(k) {
        &&& m2 == m
        &&& r == Err::<Cas, Error>(Error::NotFound)
    } else {
        &&& m2 == m
        &&& r matches Err(Error::Cas(c)) && c@ == m[k].1
    }
}

/// The exact outcome `delete(key, cas)` owes its caller: on a matching token
/// the record is removed and the removal confirmed; a missing key is an empty
/// result, not an error; a stale token is refused with the record's current
/// token. Only the matching case changes the store.
pub open spec fn delete_post<T>(
    m: StoreModel<T>,
    k: Seq<char>,
    t: u32,
    m2: StoreModel<T>,
    r: Result<Option<()>, Error>,
) -> bool {
    if token_matches(m, k, t) {
        &&& m2 == store_after_delete(m, k)
        &&& r == Ok::<Option<()>, Error>(Some(()))
    } else if !m.contains_key(k) {
        &&& m2 == m
        &&& r == Ok::<Option<()>, Error>(None)
    } else {
        &&& m2 == m
        &&& r matches Err(Error::Cas(c)) && c@ == m[k].1
    }
}

/// The uniform contract every backend and decorator satisfies: four
/// operations on string-keyed records, each guarded by compare-and-swap
/// tokens as the `*_post` predicates state, over the abstract store contents
/// given by `store`.
pub trait Repository<T>: Sized {
    /// Well-formedness of this backend's private state. Constructors
    /// establish it and every operation preserves it.
    spec fn inv(&self) -> bool;

    /// The abstract contents of this backend.
    spec fn store(&self) -> StoreModel<T>;

    /// Inserts a new record under `key` with the initial token; refuses a key
    /// that is already present.
    fn create(&mut self, key: String, doc: T) -> (r: Result<Cas, Error>)
        requires
            old(self).inv(),
        ensures
            final(self).inv(),
            create_post(old(self).store(), key@, doc, final(self).store(), r),
    ;

    /// Looks up the record under `key` without changing the store.
    fn find(&mut self, key: &str) -> (r: Result<Option<(T, Cas)>, Error>)
        requires
            old(self).inv(),
        ensures
            final(self).inv(),
            final(self).store() == old(self).store(),
            find_post(old(self).store(), key@, r),
    ;

    /// Replaces the record under `key`, guarded by the token the caller last
    /// observed.
    fn update(&mut self, key: &str, doc: T, cas: Cas) -> (r: Result<Cas, Error>)
        requires
            old(self).inv(),
            cas@ < u32::MAX,
        ensures
            final(self).inv(),
            update_post(old(self).store(), key@, doc, cas@, final(self).store(), r),
    ;

    /// Removes the record under `key`, guarded by the token the caller last
    /// observed.
    fn delete(&mut self, key: &str, cas: Cas) -> (r: Result<Option<()>, Error>)
        requires
            old(self).inv(),
        ensures
            final(self).inv(),
            delete_post(old(self).store(), key@, cas@, final(self).store(), r),
    ;
}

/// A value that can derive its own storage key from its content, decoupling
/// key generation from caller bookkeeping.
pub trait AutoKey {
    /// The key this value derives for itself.
    spec fn spec_key(&self) -> Seq<char>;

    /// Derives the storage key from the value's own content.
    fn key(&self) -> (k: String)
        ensures
            k@ == self.spec_key(),
    ;
}

/// Convenience layer over [`Repository`] for values that derive their own
/// key: each operation delegates to the corresponding repository operation
/// under the entity's self-reported key. Purely a composition, with no state
/// of its own.
pub trait RepositoryExt<T: AutoKey>: Repository<T> {
    /// Creates `doc` under its self-reported key.
    fn create_doc(&mut self, doc: T) -> (r: Result<Cas, Error>)
        requires
            old(self).inv(),
        ensures
            final(self).inv(),
            create_post(old(self).store(), doc.spec_key(), doc, final(self).store(), r),
    {
        let k = doc.key();
        self.create(k, doc)
    }

    /// Updates the record under `doc`'s self-reported key, guarded by `cas`.
    fn update_doc(&mut self, doc: T, cas: Cas) -> (r: Result<Cas, Error>)
        requires
            old(self).inv(),
            cas@ < u32::MAX,
        ensures
            final(self).inv(),
            update_post(old(self).store(), doc.spec_key(), doc, cas@, final(self).store(), r),
    {
        let k = doc.key();
        self.update(k.as_str(), doc, cas)
    }

    /// Deletes the record under `doc`'s self-reported key, guarded by `cas`.
    fn delete_doc(&mut self, doc: T, cas: Cas) -> (r: Result<Option<()>, Error>)
        requires
            old(self).inv(),
        ensures
            final(self).inv(),
            delete_post(old(self).store(), doc.spec_key(), cas@, final(self).store(), r),
    {
        let k = doc.key();
        self.delete(k.as_str(), cas)
    }
}

impl<T: AutoKey, R: Repository<T>> RepositoryExt<T> for R {
}

/// A sample keyed entity: a user whose storage key is its name.
#[derive(Clone, Copy, Debug)]
pub struct User {
    pub name: &'static str,
}

impl AutoKey for User {
    open spec fn spec_key(&self) -> Seq<char> {
        self.name@
    }

    fn key(&self) -> (k: String) {
        self.name.to_owned()
    }
}

/// A document paired with the token it was read or committed at.
pub struct Document<T> {
    cas: Cas,
    inner: T,
}

impl<T> Document<T> {
    /// The token this document was paired with.
    pub closed spec fn spec_cas(&self) -> Cas {
        self.cas
    }

    /// The document itself.
    pub closed spec fn spec_inner(&self) -> T {
        self.inner
    }

    /// Pairs a document with the token it was read or committed at.
    pub fn new(inner: T, cas: Cas) -> (r: Self)
        ensures
            r.spec_cas() == cas,
            r.spec_inner() == inner,
    {
        Self { cas, inner }
    }

    /// The token this document was paired with.
    pub fn cas(&self) -> (c: Cas)
        ensures
            c == self.spec_cas(),
    {
        self.cas
    }
}

/// One recorded call on a wrapped backend.
#[derive(Debug)]
pub enum LogEntry {
    /// A `create` call and its key.
    Create { key: String },
    /// A `find` call and its key.
    Find { key: String },
    /// An `update` call, its key and the token it was guarded by.
    Update { key: String, cas: Cas },
    /// A `delete` call, its key and the token it was guarded by.
    Delete { key: String, cas: Cas },
}

/// One recorded call, as the specification sees it.
pub enum LogCall {
    /// A `create` call and its key.
    Create { key: Seq<char> },
    /// A `find` call and its key.
    Find { key: Seq<char> },
    /// An `update` call, its key and the guarding token value.
    Update { key: Seq<char>, cas: u32 },
    /// A `delete` call, its key and the guarding token value.
    Delete { key: Seq<char>, cas: u32 },
}

impl View for LogEntry {
    type V = LogCall;

    closed spec fn view(&self) -> LogCall {
        match self {
            LogEntry::Create { key } => LogCall::Create { key: key@ },
            LogEntry::Find { key } => LogCall::Find { key: key@ },
            LogEntry::Update { key, cas } => LogCall::Update { key: key@, cas: cas@ },
            LogEntry::Delete { key, cas } => LogCall::Delete { key: key@, cas: cas@ },
        }
    }
}

/// Decorator that records every call before forwarding it unchanged to the
/// backend it wraps. It never touches the wrapped backend's contents and
/// never swallows or transforms a result; wrapping composes, so stacked
/// wrappers each record the call and the innermost backend serves it.
pub struct Logging<T, R: Repository<T>> {
    repo: R,
    log: Vec<LogEntry>,
    _marker: PhantomData<T>,
}

impl<T, R: Repository<T>> Logging<T, R> {
    /// The wrapped backend.
    pub closed spec fn inner(&self) -> R {
        self.repo
    }

    /// The calls recorded so far, oldest first.
    pub closed spec fn calls(&self) -> Seq<LogCall> {
        self.log@.map_values(|e: LogEntry| e@)
    }

    /// Wraps `repo`, starting with an empty call record.
    pub fn new(repo: R) -> (r: Self)
        ensures
            r.inner() == repo,
            r.calls() == Seq::<LogCall>::empty(),
    {
        let r = Self { repo, log: Vec::new(), _marker: PhantomData };
        proof {
            assert(r.calls() =~= Seq::<LogCall>::empty());
        }
        r
    }

    /// The calls recorded so far, oldest first.
    pub fn log(&self) -> (l: &Vec<LogEntry>)
        ensures
            l@.map_values(|e: LogEntry| e@) == self.calls(),
    {
        &self.log
    }
}

impl<T, R: Repository<T>> Repository<T> for Logging<T, R> {
    closed spec fn inv(&self) -> bool {
        self.repo.inv()
    }

    closed spec fn store(&self) -> StoreModel<T> {
        self.repo.store()
    }

    fn create(&mut self, key: String, doc: T) -> (r: Result<Cas, Error>)
        ensures
            final(self).calls() == old(self).calls().push((LogCall::Create { key: key@ })),
    {
        let ghost c0 = self.calls();
        let entry = LogEntry::Create { key: key.clone() };
        let ghost ev = entry@;
        self.log.push(entry);
        let r = self.repo.create(key, doc);
        proof {
            assert(self.calls() =~= c0.push(ev));
        }
        r
    }

    fn find(&mut self, key: &str) -> (r: Result<Option<(T, Cas)>, Error>)
        ensures
            final(self).calls() == old(self).calls().push((LogCall::Find { key: key@ })),
    {
        let ghost c0 = self.calls();
        let entry = LogEntry::Find { key: key.to_owned() };
        let ghost ev = entry@;
        self.log.push(entry);
        let r = self.repo.find(key);
        proof {
            assert(self.calls() =~= c0.push(ev));
        }
        r
    }

    fn update(&mut self, key: &str, doc: T, cas: Cas) -> (r: Result<Cas, Error>)
        ensures
            final(self).calls() == old(self).calls().push((LogCall::Update { key: key@, cas: cas@ })),
    {
        let ghost c0 = self.calls();
        let entry = LogEntry::Update { key: key.to_owned(), cas };
        let ghost ev = entry@;
        self.log.push(entry);
        let r = self.repo.update(key, doc, cas);
        proof {
            assert(self.calls() =~= c0.push(ev));
        }
        r
    }

    fn delete(&mut self, key: &str, cas: Cas) -> (r: Result<Option<()>, Error>)
        ensures
            final(self).calls() == old(self).calls().push((LogCall::Delete { key: key@, cas: cas@ })),
    {
        let ghost c0 = self.calls();
        let entry = LogEntry::Delete { key: key.to_owned(), cas };
        let ghost ev = entry@;
        self.log.push(entry);
        let r = self.repo.delete(key, cas);
        proof {
            assert(self.calls() =~= c0.push(ev));
        }
        r
    }
}

/// A key not present in the store is found empty, never an error.
pub proof fn lemma_find_missing_is_empty<T>(
    m: StoreModel<T>,
    k: Seq<char>,
    r: Result<Option<(T, Cas)>, Error>,
)
    requires
        !m.contains_key(k),
        find_post(m, k, r),
    ensures
        r matches Ok(p) && p is None,
{
}

/// Creating a record and immediately finding it yields the created document
/// with the initial token.
pub proof fn lemma_create_then_find<T>(
    m: StoreModel<T>,
    k: Seq<char>,
    v: T,
    m2: StoreModel<T>,
    r1: Result<Cas, Error>,
    r2: Result<Option<(T, Cas)>, Error>,
)
    requires
        !m.contains_key(k),
        create_post(m, k, v, m2, r1),
        find_post(m2, k, r2),
    ensures
        r1 matches Ok(c) && c@ == INITIAL_TOKEN,
        r2 matches Ok(Some(p)) && p.0 == v && p.1@ == INITIAL_TOKEN,
{
}

/// A successful update returns a token strictly greater than the one that
/// guarded it, and a subsequent find yields the new document at the advanced
/// token.
pub proof fn lemma_update_advances_token<T>(
    m: StoreModel<T>,
    k: Seq<char>,
    v: T,
    t: u32,
    m2: StoreModel<T>,
    r1: Result<Cas, Error>,
    r2: Result<Option<(T, Cas)>, Error>,
)
    requires
        token_matches(m, k, t),
        t < u32::MAX,
        update_post(m, k, v, t, m2, r1),
        find_post(m2, k, r2),
    ensures
        r1 matches Ok(c) && c@ > t,
        r2 matches Ok(Some(p)) && p.0 == v && p.1@ == next_token(t),
{
}

/// An update guarded by a token that differs from the record's current one
/// fails with that current token and leaves the store unchanged.
pub proof fn lemma_update_stale_fails<T>(
    m: StoreModel<T>,
    k: Seq<char>,
    v: T,
    t: u32,
    m2: StoreModel<T>,
    r: Result<Cas, Error>,
)
    requires
        m.contains_key(k),
        m[k].1 != t,
        update_post(m, k, v, t, m2, r),
    ensures
        r matches Err(Error::Cas(c)) && c@ == m[k].1,
        m2 == m,
        store_find(m2, k) == store_find(m, k),
{
}

/// Two updates guarded by the same expected token, racing on one key: the
/// one that commits first advances the token, so the other is refused with a
/// token mismatch — exactly one succeeds and the loser changes nothing.
pub proof fn lemma_racing_updates_one_succeeds<T>(
    m: StoreModel<T>,
    k: Seq<char>,
    v1: T,
    v2: T,
    t: u32,
    m2: StoreModel<T>,
    m3: StoreModel<T>,
    r1: Result<Cas, Error>,
    r2: Result<Cas, Error>,
)
    requires
        token_matches(m, k, t),
        t < u32::MAX,
        update_post(m, k, v1, t, m2, r1),
        update_post(m2, k, v2, t, m3, r2),
    ensures
        r1 is Ok,
        r2 matches Err(Error::Cas(c)) && c@ == next_token(t),
        m3 == m2,
{
}

/// Deleting with the record's current token removes it: a subsequent find
/// comes back empty.
pub proof fn lemma_delete_then_find_empty<T>(
    m: StoreModel<T>,
    k: Seq<char>,
    t: u32,
    m2: StoreModel<T>,
    r1: Result<Option<()>, Error>,
    r2: Result<Option<(T, Cas)>, Error>,
)
    requires
        token_matches(m, k, t),
        delete_post(m, k, t, m2, r1),
        find_post(m2, k, r2),
    ensures
        r1 == Ok::<Option<()>, Error>(Some(())),
        r2 matches Ok(p) && p is None,
{
}

/// Deleting a key that is not present is an empty result, not an error, and
/// changes nothing.
pub proof fn lemma_delete_missing_is_empty<T>(
    m: StoreModel<T>,
    k: Seq<char>,
    t: u32,
    m2: StoreModel<T>,
    r: Result<Option<()>, Error>,
)
    requires
        !m.contains_key(k),
        delete_post(m, k, t, m2, r),
    ensures
        r == Ok::<Option<()>, Error>(None),
        m2 == m,
{
}

/// The contract pins `create` down: the old contents and arguments alone
/// determine the result and the new contents, so any two backends or
/// wrappers run from equal contents agree exactly.
pub proof fn lemma_create_determined<T>(
    m: StoreModel<T>,
    k: Seq<char>,
    v: T,
    ma: StoreModel<T>,
    ra: Result<Cas, Error>,
    mb: StoreModel<T>,
    rb: Result<Cas, Error>,
)
    requires
        create_post(m, k, v, ma, ra),
        create_post(m, k, v, mb, rb),
    ensures
        ma == mb,
        ra == rb,
{
}

/// The contract pins `find` down: equal contents give equal results.
pub proof fn lemma_find_determined<T>(
    m: StoreModel<T>,
    k: Seq<char>,
    ra: Result<Option<(T, Cas)>, Error>,
    rb: Result<Option<(T, Cas)>, Error>,
)
    requires
        find_post(m, k, ra),
        find_post(m, k, rb),
    ensures
        ra == rb,
{
}

/// The contract pins `update` down: the old contents and arguments alone
/// determine the result and the new contents.
pub proof fn lemma_update_determined<T>(
    m: StoreModel<T>,
    k: Seq<char>,
    v: T,
    t: u32,
    ma: StoreModel<T>,
    ra: Result<Cas, Error>,
    mb: StoreModel<T>,
    rb: Result<Cas, Error>,
)
    requires
        update_post(m, k, v, t, ma, ra),
        update_post(m, k, v, t, mb, rb),
    ensures
        ma == mb,
        ra == rb,
{
}

/// The contract pins `delete` down: the old contents and arguments alone
/// determine the result and the new contents.
pub proof fn lemma_delete_determined<T>(
    m: StoreModel<T>,
    k: Seq<char>,
    t: u32,
    ma: StoreModel<T>,
    ra: Result<Option<()>, Error>,
    mb: StoreModel<T>,
    rb: Result<Option<()>, Error>,
)
    requires
        delete_post(m, k, t, ma, ra),
        delete_post(m, k, t, mb, rb),
    ensures
        ma == mb,
        ra == rb,
{
}

/// Decorator transparency: a wrapper exposes exactly the store and the
/// well-formedness of the backend it wraps, so — with each operation's
/// outcome determined by the store alone — a wrapped backend, however many
/// times it is wrapped, behaves exactly as the bare backend does.
pub proof fn lemma_logging_transparent<T, R: Repository<T>>(w: Logging<T, R>)
    ensures
        w.store() == w.inner().store(),
        w.inv() == w.inner().inv(),
{
}

} // verus!
