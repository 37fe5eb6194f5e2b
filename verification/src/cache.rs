//! Cache-aside access: a read asks the cache first and the source of truth
//! only on a miss, and a mutation drops the entries that it made stale.
//!
//! The cache is advisory. No failure of it fails a read, and without a cache
//! every read goes to the source and nothing else changes. The decisions of
//! one read are made here, one event at a time; the caller talks to the
//! cache and to the source and reports what happened.

use vstd::prelude::*;
use crate::cache_keys::CacheKey;

verus! {

/// Why a read did not deliver.
#[derive(Debug, Clone, Copy, PartialEq, Eq, Structural)]
pub enum ReadError {
    /// The source of truth failed; the caller holds its error and passes
    /// it on.
    FetchFailed,
    /// An event arrived that the step before did not ask for.
    OutOfTurn,
}

/// Where a read stands: what the caller was last asked to do.
#[derive(Debug, Clone, Copy, PartialEq, Eq, Structural)]
pub enum ReadState {
    /// The cache is being asked.
    Looking,
    /// The source of truth is being asked.
    Fetching,
    /// The fetched value is being written to the cache.
    Storing,
    /// Nothing is outstanding.
    Finished,
}

/// What the caller reports back.
#[derive(Debug, Clone, Copy, PartialEq, Eq, Structural)]
pub enum ReadEvent {
    /// The cache held an entry and it was read back as a value.
    Hit,
    /// The cache held no entry.
    Miss,
    /// The cache held an entry that could not be read back as a value.
    Undecodable,
    /// The cache could not be asked.
    LookupFailed,
    /// The source of truth delivered.
    Fetched,
    /// The source of truth failed.
    FetchFailed,
    /// The cache took the value.
    Stored,
    /// The cache did not take the value.
    StoreFailed,
}

/// What the caller is to do next.
#[derive(Debug, Clone, Copy, PartialEq, Eq, Structural)]
pub enum ReadAction {
    /// Ask the cache for the entry under the key.
    Lookup,
    /// Ask the source of truth.
    Fetch,
    /// Write the fetched value under the key, to expire after `ttl`.
    Store { ttl: u64 },
    /// Hand out the value from the cache.
    ReturnCached,
    /// Hand out the value from the source of truth.
    ReturnFetched,
    /// Give up with this error.
    Fail(ReadError),
}

/// One read through the cache. `ttl` is the time that a new entry is to
/// live, and is absent where no cache is configured.
#[derive(Debug, Clone, Copy, PartialEq, Eq, Structural)]
pub struct ReadThrough {
    pub state: ReadState,
    pub ttl: Option<u64>,
}

/// The first step of a read: the cache is asked if there is one, and the
/// source of truth if there is none.
pub open spec fn first_step(ttl: Option<u64>) -> (ReadState, ReadAction) {
    if ttl is Some {
        (ReadState::Looking, ReadAction::Lookup)
    } else {
        (ReadState::Fetching, ReadAction::Fetch)
    }
}

/// The step that follows `event` in `state`.
///
/// A hit ends the read. Anything else that the cache may answer sends the
/// read to the source of truth. What the source delivers is written to the
/// cache, if there is one, and handed out whether or not the cache took it.
/// Only a failure of the source fails the read.
pub open spec fn next_step(state: ReadState, ttl: Option<u64>, event: ReadEvent) -> (
    ReadState,
    ReadAction,
) {
    match (state, event) {
        (ReadState::Looking, ReadEvent::Hit) => (ReadState::Finished, ReadAction::ReturnCached),
        (ReadState::Looking, ReadEvent::Miss)
        | (ReadState::Looking, ReadEvent::Undecodable)
        | (ReadState::Looking, ReadEvent::LookupFailed) => (
            ReadState::Fetching,
            ReadAction::Fetch,
        ),
        (ReadState::Fetching, ReadEvent::Fetched) => match ttl {
            Some(ttl) => (ReadState::Storing, ReadAction::Store { ttl }),
            None => (ReadState::Finished, ReadAction::ReturnFetched),
        },
        (ReadState::Fetching, ReadEvent::FetchFailed) => (
            ReadState::Finished,
            ReadAction::Fail(ReadError::FetchFailed),
        ),
        (ReadState::Storing, ReadEvent::Stored) | (ReadState::Storing, ReadEvent::StoreFailed) => (
            ReadState::Finished,
            ReadAction::ReturnFetched,
        ),
        _ => (ReadState::Finished, ReadAction::Fail(ReadError::OutOfTurn)),
    }
}

impl ReadThrough {
    /// Starts a read. `ttl` is absent where no cache is configured.
    pub fn start(ttl: Option<u64>) -> (r: (ReadThrough, ReadAction))
        ensures
            r.0.ttl == ttl,
            (r.0.state, r.1) == first_step(ttl),
    {
        match ttl {
            Some(_) => (ReadThrough { state: ReadState::Looking, ttl }, ReadAction::Lookup),
            None => (ReadThrough { state: ReadState::Fetching, ttl }, ReadAction::Fetch),
        }
    }

    /// Whether the read is over.
    pub fn is_finished(&self) -> (r: bool)
        ensures
            r == (self.state == ReadState::Finished),
    {
        match self.state {
            ReadState::Finished => true,
            _ => false,
        }
    }

    /// Takes what the caller reports and says what to do next.
    pub fn step(&mut self, event: ReadEvent) -> (action: ReadAction)
        ensures
            final(self).ttl == old(self).ttl,
            (final(self).state, action) == next_step(old(self).state, old(self).ttl, event),
    {
        let (state, action) = match (self.state, event) {
            (ReadState::Looking, ReadEvent::Hit) => (ReadState::Finished, ReadAction::ReturnCached),
            (ReadState::Looking, ReadEvent::Miss)
            | (ReadState::Looking, ReadEvent::Undecodable)
            | (ReadState::Looking, ReadEvent::LookupFailed) => (
                ReadState::Fetching,
                ReadAction::Fetch,
            ),
            (ReadState::Fetching, ReadEvent::Fetched) => match self.ttl {
                Some(ttl) => (ReadState::Storing, ReadAction::Store { ttl }),
                None => (ReadState::Finished, ReadAction::ReturnFetched),
            },
            (ReadState::Fetching, ReadEvent::FetchFailed) => (
                ReadState::Finished,
                ReadAction::Fail(ReadError::FetchFailed),
            ),
            (ReadState::Storing, ReadEvent::Stored)
            | (ReadState::Storing, ReadEvent::StoreFailed) => (
                ReadState::Finished,
                ReadAction::ReturnFetched,
            ),
            _ => (ReadState::Finished, ReadAction::Fail(ReadError::OutOfTurn)),
        };
        self.state = state;
        action
    }
}

/// The texts of `keys`, in their order.
pub open spec fn key_texts(keys: Seq<CacheKey<'_>>) -> Seq<Seq<char>> {
    Seq::new(keys.len(), |i: int| keys[i].text())
}

/// The views of `texts`, in their order.
pub open spec fn text_views(texts: Seq<String>) -> Seq<Seq<char>> {
    Seq::new(texts.len(), |i: int| texts[i]@)
}

/// The batch that drops the entries under `keys`: one delete that names
/// every key, in the order given. There is nothing to do without a cache or
/// without keys. The caller sends the batch in one round trip and goes on
/// whether or not the cache carried it out.
pub fn invalidate(cached: bool, keys: &Vec<CacheKey<'_>>) -> (batch: Option<Vec<String>>)
    ensures
        batch is Some <==> cached && keys@.len() > 0,
        batch matches Some(texts) ==> {
            &&& text_views(texts@) == key_texts(keys@)
            &&& texts@.len() == keys@.len()
            &&& forall|i: int| 0 <= i < texts@.len() ==> (#[trigger] texts@[i])@ == keys@[i].text()
        },
{
    if !cached || keys.len() == 0 {
        return None;
    }
    let mut texts: Vec<String> = Vec::new();
    let mut i: usize = 0;
    while i < keys.len()
        invariant
            0 <= i <= keys@.len(),
            texts@.len() == i,
            forall|k: int| 0 <= k < i ==> (#[trigger] texts@[k])@ == keys@[k].text(),
        decreases keys@.len() - i,
    {
        texts.push(keys[i].to_string());
        i += 1;
    }
    assert(text_views(texts@) =~= key_texts(keys@));
    Some(texts)
}

/// A cache that behaves as the accessor expects: an entry stays from the
/// moment it is written until it is deleted or its time is up.
pub struct CacheModel {
    /// For each key with an entry, the instant at which the entry expires.
    pub expires_at: Map<Seq<char>, int>,
}

impl CacheModel {
    /// Whether the cache holds a live entry under `key` at the instant `now`.
    pub open spec fn holds(self, key: Seq<char>, now: int) -> bool {
        self.expires_at.contains_key(key) && now < self.expires_at[key]
    }

    /// The cache after an entry was written under `key` at the instant
    /// `now`, to live for `ttl`.
    pub open spec fn stored(self, key: Seq<char>, now: int, ttl: u64) -> CacheModel {
        CacheModel { expires_at: self.expires_at.insert(key, now + ttl) }
    }

    /// The cache after the entries under `keys` were deleted.
    pub open spec fn deleted(self, keys: Seq<Seq<char>>) -> CacheModel {
        CacheModel { expires_at: self.expires_at.remove_keys(keys.to_set()) }
    }
}

/// What one read came to.
pub struct ReadRun {
    /// How often the source of truth was asked.
    pub fetches: nat,
    /// The action that ended the read.
    pub end: ReadAction,
    /// The cache after the read.
    pub cache: CacheModel,
}

/// Carries a read on from `action`, for at most `steps` further actions,
/// against a cache that behaves as `cache` and a source of truth that
/// delivers if `fetch_ok`; the cache takes a new entry if `store_ok`.
pub open spec fn carry_on(
    state: ReadState,
    action: ReadAction,
    ttl: Option<u64>,
    cache: CacheModel,
    key: Seq<char>,
    now: int,
    fetch_ok: bool,
    store_ok: bool,
    fetches: nat,
    steps: nat,
) -> ReadRun
    decreases steps,
{
    if steps == 0 {
        ReadRun { fetches, end: action, cache }
    } else {
        match action {
            ReadAction::Lookup => {
                let event = if cache.holds(key, now) {
                    ReadEvent::Hit
                } else {
                    ReadEvent::Miss
                };
                let (next, then) = next_step(state, ttl, event);
                carry_on(
                    next,
                    then,
                    ttl,
                    cache,
                    key,
                    now,
                    fetch_ok,
                    store_ok,
                    fetches,
                    (steps - 1) as nat,
                )
            },
            ReadAction::Fetch => {
                let event = if fetch_ok {
                    ReadEvent::Fetched
                } else {
                    ReadEvent::FetchFailed
                };
                let (next, then) = next_step(state, ttl, event);
                carry_on(
                    next,
                    then,
                    ttl,
                    cache,
                    key,
                    now,
                    fetch_ok,
                    store_ok,
                    fetches + 1,
                    (steps - 1) as nat,
                )
            },
            ReadAction::Store { ttl: lifetime } => {
                let event = if store_ok {
                    ReadEvent::Stored
                } else {
                    ReadEvent::StoreFailed
                };
                let after = if store_ok {
                    cache.stored(key, now, lifetime)
                } else {
                    cache
                };
                let (next, then) = next_step(state, ttl, event);
                carry_on(
                    next,
                    then,
                    ttl,
                    after,
                    key,
                    now,
                    fetch_ok,
                    store_ok,
                    fetches,
                    (steps - 1) as nat,
                )
            },
            _ => ReadRun { fetches, end: action, cache },
        }
    }
}

/// One whole read of `key` at the instant `now`. Three actions at most come
/// before the one that ends a read.
pub open spec fn read_through(
    cache: CacheModel,
    key: Seq<char>,
    ttl: Option<u64>,
    now: int,
    fetch_ok: bool,
    store_ok: bool,
) -> ReadRun {
    let (state, action) = first_step(ttl);
    carry_on(state, action, ttl, cache, key, now, fetch_ok, store_ok, 0, 4)
}

/// What a read comes to, case by case: a live entry is handed out and the
/// source of truth is left alone; otherwise the source is asked once, its
/// failure is the only failure, and what it delivers is handed out and, if
/// the cache takes it, kept under the key for the time given.
pub proof fn lemma_read_through(
    cache: CacheModel,
    key: Seq<char>,
    ttl: Option<u64>,
    now: int,
    fetch_ok: bool,
    store_ok: bool,
)
    ensures
        read_through(cache, key, ttl, now, fetch_ok, store_ok) == (if ttl is Some && cache.holds(
            key,
            now,
        ) {
            ReadRun { fetches: 0, end: ReadAction::ReturnCached, cache }
        } else if !fetch_ok {
            ReadRun { fetches: 1, end: ReadAction::Fail(ReadError::FetchFailed), cache }
        } else if ttl is Some && store_ok {
            ReadRun {
                fetches: 1,
                end: ReadAction::ReturnFetched,
                cache: cache.stored(key, now, ttl.unwrap()),
            }
        } else {
            ReadRun { fetches: 1, end: ReadAction::ReturnFetched, cache }
        }),
{
    reveal_with_fuel(carry_on, 5);
}

/// After a read has written an entry, a read of the same key does not ask
/// the source of truth for as long as the entry lives and is not deleted.
pub proof fn lemma_populated_entry_is_served(
    cache: CacheModel,
    key: Seq<char>,
    ttl: u64,
    now: int,
    later: int,
    fetch_ok: bool,
    store_ok: bool,
)
    requires
        !cache.holds(key, now),
        now <= later < now + ttl,
    ensures
        ({
            let first = read_through(cache, key, Some(ttl), now, true, true);
            let second = read_through(first.cache, key, Some(ttl), later, fetch_ok, store_ok);
            &&& first.fetches == 1
            &&& first.end == ReadAction::ReturnFetched
            &&& second.fetches == 0
            &&& second.end == ReadAction::ReturnCached
            &&& second.cache == first.cache
        }),
{
    lemma_read_through(cache, key, Some(ttl), now, true, true);
    let first = read_through(cache, key, Some(ttl), now, true, true);
    lemma_read_through(first.cache, key, Some(ttl), later, fetch_ok, store_ok);
}

/// Once the entry under a key is deleted, the next read of the key asks
/// the source of truth again.
pub proof fn lemma_deleted_entry_is_fetched(
    cache: CacheModel,
    key: Seq<char>,
    keys: Seq<Seq<char>>,
    ttl: Option<u64>,
    now: int,
    fetch_ok: bool,
    store_ok: bool,
)
    requires
        keys.contains(key),
    ensures
        !cache.deleted(keys).holds(key, now),
        read_through(cache.deleted(keys), key, ttl, now, fetch_ok, store_ok).fetches == 1,
{
    assert(keys.to_set().contains(key));
    lemma_read_through(cache.deleted(keys), key, ttl, now, fetch_ok, store_ok);
}

/// Once the time of an entry is up, the next read of its key asks the
/// source of truth again.
pub proof fn lemma_expired_entry_is_fetched(
    cache: CacheModel,
    key: Seq<char>,
    ttl: u64,
    now: int,
    later: int,
    fetch_ok: bool,
    store_ok: bool,
)
    requires
        !cache.holds(key, now),
        later >= now + ttl,
    ensures
        ({
            let first = read_through(cache, key, Some(ttl), now, true, true);
            let second = read_through(first.cache, key, Some(ttl), later, fetch_ok, store_ok);
            first.fetches == 1 && second.fetches == 1
        }),
{
    lemma_read_through(cache, key, Some(ttl), now, true, true);
    let first = read_through(cache, key, Some(ttl), now, true, true);
    lemma_read_through(first.cache, key, Some(ttl), later, fetch_ok, store_ok);
}

/// Deleting some keys leaves the entries under all other keys as they
/// were.
pub proof fn lemma_delete_spares_other_keys(
    cache: CacheModel,
    key: Seq<char>,
    keys: Seq<Seq<char>>,
    now: int,
)
    requires
        !keys.contains(key),
    ensures
        cache.deleted(keys).holds(key, now) == cache.holds(key, now),
{
    assert(!keys.to_set().contains(key));
}

/// The cache changes how a read is served and never what it comes to: with
/// or without a cache, and whatever the cache does, a read fails exactly
/// when the source of truth was asked and failed, and without a cache the
/// source is asked every time.
pub proof fn lemma_cache_is_transparent(
    cache: CacheModel,
    key: Seq<char>,
    ttl: Option<u64>,
    now: int,
    fetch_ok: bool,
    store_ok: bool,
)
    ensures
        ({
            let plain = read_through(cache, key, None, now, fetch_ok, store_ok);
            let cached = read_through(cache, key, ttl, now, fetch_ok, store_ok);
            &&& plain.fetches == 1
            &&& plain.cache == cache
            &&& plain.end == (if fetch_ok {
                ReadAction::ReturnFetched
            } else {
                ReadAction::Fail(ReadError::FetchFailed)
            })
            &&& cached.end is Fail <==> cached.fetches == 1 && !fetch_ok
            &&& cached.end == plain.end || cached.end == ReadAction::ReturnCached
        }),
{
    lemma_read_through(cache, key, None, now, fetch_ok, store_ok);
    lemma_read_through(cache, key, ttl, now, fetch_ok, store_ok);
}

/// Whatever is reported to a read, it asks the source of truth only after
/// the cache had no value to offer or where there is no cache, and it
/// writes to the cache only what the source has just delivered.
pub proof fn lemma_read_order(state: ReadState, ttl: Option<u64>, event: ReadEvent)
    ensures
        next_step(state, ttl, event).1 == ReadAction::Fetch ==> state == ReadState::Looking
            && event != ReadEvent::Hit,
        next_step(state, ttl, event).1 is Store ==> state == ReadState::Fetching && event
            == ReadEvent::Fetched && ttl == Some(next_step(state, ttl, event).1->ttl),
        next_step(state, ttl, event).1 == ReadAction::ReturnCached ==> state == ReadState::Looking
            && event == ReadEvent::Hit,
        next_step(state, ttl, event).1 == ReadAction::Fail(ReadError::FetchFailed) ==> state
            == ReadState::Fetching && event == ReadEvent::FetchFailed,
{
}

} // verus!
