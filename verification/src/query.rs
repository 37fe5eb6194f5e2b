//! Reads: how records become the entities that a query hands out, and how
//! a read of a whole collection keeps the search index supplied.

use vstd::prelude::*;
use crate::cache_keys::CacheKey;
use crate::collections::Collection;
use crate::ident::EntityId;
use crate::cache::{first_step, next_step, ReadAction, ReadError, ReadEvent, ReadThrough};
use crate::entity::{
    first_invalid_from,
    key_id,
    record_key_text,
    DatabaseEntityListing,
    DatabaseEntityListingCondition,
    DatabaseEntityTag,
};
use crate::error::CoreError;
use crate::model::{Listing, ListingCondition, Tag};

verus! {

/// Where the first record from `from` on that is no listing stands, or
/// the number of records if all are listings.
pub open spec fn first_unreadable_from(entities: Seq<DatabaseEntityListing>, from: int) -> int
    decreases entities.len() - from,
{
    if from < 0 || from >= entities.len() {
        entities.len() as int
    } else if Listing::read(entities[from]) is None {
        from
    } else {
        first_unreadable_from(entities, from + 1)
    }
}

/// What `first_unreadable_from` finds is the first record from `from` on
/// that is no listing.
pub proof fn lemma_first_unreadable(entities: Seq<DatabaseEntityListing>, from: int)
    requires
        0 <= from <= entities.len(),
    ensures
        from <= first_unreadable_from(entities, from) <= entities.len(),
        first_unreadable_from(entities, from) < entities.len() ==> Listing::read(
            entities[first_unreadable_from(entities, from)],
        ) is None,
        forall|k: int|
            from <= k < first_unreadable_from(entities, from) ==> Listing::read(
                #[trigger] entities[k],
            ) is Some,
    decreases entities.len() - from,
{
    if from < entities.len() && Listing::read(entities[from]) is Some {
        lemma_first_unreadable(entities, from + 1);
    }
}

/// The keys of the store's tags, in their order.
pub open spec fn tag_keys(entities: Seq<DatabaseEntityTag>) -> Seq<String> {
    Seq::new(entities.len(), |i: int| entities[i].id)
}

/// The keys of the store's listing conditions, in their order.
pub open spec fn condition_keys(entities: Seq<DatabaseEntityListingCondition>) -> Seq<String> {
    Seq::new(entities.len(), |i: int| entities[i].id)
}

/// Turns the store's records into listings, in their order. Every key in
/// every record must carry an identifier; the error names the first that
/// does not.
pub fn listings_from(entities: Vec<DatabaseEntityListing>) -> (r: Result<Vec<Listing>, CoreError>)
    ensures
        match r {
            Ok(listings) => {
                &&& first_unreadable_from(entities@, 0) == entities@.len()
                &&& listings@ == Seq::new(
                    entities@.len(),
                    |i: int| Listing::read(entities@[i]).unwrap(),
                )
            },
            Err(e) => {
                &&& first_unreadable_from(entities@, 0) < entities@.len()
                &&& e is InvalidId
                &&& e->InvalidId_0@ == Listing::invalid_key(
                    entities@[first_unreadable_from(entities@, 0)],
                )
            },
        },
{
    let mut listings: Vec<Listing> = Vec::new();
    for entity in iter: entities
        invariant
            iter.seq() == entities@,
            listings@ == Seq::new(
                iter.index() as nat,
                |i: int| Listing::read(entities@[i]).unwrap(),
            ),
            first_unreadable_from(entities@, 0) == first_unreadable_from(entities@, iter.index()),
    {
        let ghost at = iter.index();
        match Listing::try_from(entity) {
            Ok(listing) => {
                listings.push(listing);
                assert(listings@ =~= Seq::new(
                    (at + 1) as nat,
                    |i: int| Listing::read(entities@[i]).unwrap(),
                ));
            },
            Err(e) => {
                return Err(e);
            },
        }
    }
    Ok(listings)
}

/// Turns the store's records into tags, in their order. Every record's key
/// must carry an identifier; the error names the first that does not.
pub fn tags_from(entities: Vec<DatabaseEntityTag>) -> (r: Result<Vec<Tag>, CoreError>)
    ensures
        match r {
            Ok(tags) => {
                &&& first_invalid_from(tag_keys(entities@), 0) == entities@.len()
                &&& tags@.len() == entities@.len()
                &&& forall|i: int|
                    0 <= i < tags@.len() ==> key_id(entities@[i].id) == Some(
                        (#[trigger] tags@[i]).id,
                    ) && tags@[i].name == entities@[i].name
            },
            Err(e) => {
                &&& first_invalid_from(tag_keys(entities@), 0) < entities@.len()
                &&& e is InvalidId
                &&& e->InvalidId_0@ == record_key_text(
                    entities@[first_invalid_from(tag_keys(entities@), 0)].id@,
                )
            },
        },
{
    let ghost keys = tag_keys(entities@);
    let mut tags: Vec<Tag> = Vec::new();
    for entity in iter: entities
        invariant
            keys == tag_keys(entities@),
            iter.seq() == entities@,
            tags@.len() == iter.index(),
            forall|i: int|
                0 <= i < tags@.len() ==> key_id(entities@[i].id) == Some((#[trigger] tags@[i]).id)
                    && tags@[i].name == entities@[i].name,
            first_invalid_from(keys, 0) == first_invalid_from(keys, iter.index()),
    {
        assert(keys[iter.index()] == entity.id);
        match Tag::try_from(entity) {
            Ok(tag) => {
                tags.push(tag);
            },
            Err(e) => {
                return Err(e);
            },
        }
    }
    Ok(tags)
}

/// Turns the store's records into listing conditions, in their order.
/// Every record's key must carry an identifier; the error names the first
/// that does not.
pub fn conditions_from(entities: Vec<DatabaseEntityListingCondition>) -> (r: Result<
    Vec<ListingCondition>,
    CoreError,
>)
    ensures
        match r {
            Ok(conditions) => {
                &&& first_invalid_from(condition_keys(entities@), 0) == entities@.len()
                &&& conditions@.len() == entities@.len()
                &&& forall|i: int|
                    0 <= i < conditions@.len() ==> key_id(entities@[i].id) == Some(
                        (#[trigger] conditions@[i]).id,
                    ) && conditions@[i].condition == entities@[i].condition
            },
            Err(e) => {
                &&& first_invalid_from(condition_keys(entities@), 0) < entities@.len()
                &&& e is InvalidId
                &&& e->InvalidId_0@ == record_key_text(
                    entities@[first_invalid_from(condition_keys(entities@), 0)].id@,
                )
            },
        },
{
    let ghost keys = condition_keys(entities@);
    let mut conditions: Vec<ListingCondition> = Vec::new();
    for entity in iter: entities
        invariant
            keys == condition_keys(entities@),
            iter.seq() == entities@,
            conditions@.len() == iter.index(),
            forall|i: int|
                0 <= i < conditions@.len() ==> key_id(entities@[i].id) == Some(
                    (#[trigger] conditions@[i]).id,
                ) && conditions@[i].condition == entities@[i].condition,
            first_invalid_from(keys, 0) == first_invalid_from(keys, iter.index()),
    {
        assert(keys[iter.index()] == entity.id);
        match ListingCondition::try_from(entity) {
            Ok(condition) => {
                conditions.push(condition);
            },
            Err(e) => {
                return Err(e);
            },
        }
    }
    Ok(conditions)
}

/// The listing that a read by identifier hands out: none where the store
/// has no record, and none where the record cannot be read, which a read
/// does not report as an error.
pub fn listing_from(record: Option<DatabaseEntityListing>) -> (r: Option<Listing>)
    ensures
        r == match record {
            Some(entity) => Listing::read(entity),
            None => None,
        },
{
    match record {
        Some(entity) => match Listing::try_from(entity) {
            Ok(listing) => Some(listing),
            Err(_) => None,
        },
        None => None,
    }
}

/// The tag that a read by identifier hands out: none where the store has
/// no record, and none where the record cannot be read.
pub fn tag_from(record: Option<DatabaseEntityTag>) -> (r: Option<Tag>)
    ensures
        match r {
            Some(tag) => record matches Some(entity) && key_id(entity.id) == Some(tag.id)
                && tag.name == entity.name,
            None => record matches Some(entity) ==> key_id(entity.id) is None,
        },
{
    match record {
        Some(entity) => match Tag::try_from(entity) {
            Ok(tag) => Some(tag),
            Err(_) => None,
        },
        None => None,
    }
}

/// The key under which the listings that refer to one entity are cached:
/// the listings of a user have one, those that refer to an entity of
/// another collection are not cached.
pub fn field_cache_key<'a>(collection: Collection, id: &'a EntityId) -> (key: Option<CacheKey<'a>>)
    ensures
        key == match collection {
            Collection::User => Some(CacheKey::UserListing { user_id: id }),
            _ => None,
        },
{
    match collection {
        Collection::User => Some(CacheKey::UserListing { user_id: id }),
        _ => None,
    }
}

/// Where the read of a whole collection stands.
#[derive(Debug, Clone, Copy, PartialEq, Eq, Structural)]
pub enum CollectionState {
    /// The collection is being read through the cache.
    Reading,
    /// The collection is being handed to the search index.
    Upserting,
    /// The index is taking the collection in.
    Waiting,
    /// Nothing is outstanding.
    Finished,
}

/// What the caller reports back.
#[derive(Debug, Clone, Copy, PartialEq, Eq, Structural)]
pub enum CollectionEvent {
    /// What happened on the last step of the read through the cache.
    Read(ReadEvent),
    /// The index accepted the collection.
    Upserted,
    /// The index did not accept the collection.
    UpsertFailed,
    /// The index has taken the collection in, or the wait for it ended
    /// otherwise.
    Settled,
}

/// What the caller is to do next.
#[derive(Debug, Clone, Copy, PartialEq, Eq, Structural)]
pub enum CollectionAction {
    /// Carry out this step of the read through the cache.
    Read(ReadAction),
    /// Hand the complete collection to the search index.
    Upsert,
    /// Wait until the index has taken the collection in.
    AwaitIndexing,
    /// Hand out the collection; `indexed` says whether the index accepted it.
    Return { indexed: bool },
    /// Give up with this error.
    Fail(ReadError),
}

/// The read of a whole collection: through the cache, and then on to the
/// search index where one is configured.
#[derive(Debug, Clone, Copy, PartialEq, Eq, Structural)]
pub struct CollectionRead {
    pub state: CollectionState,
    pub read: ReadThrough,
    /// Whether a search index is configured.
    pub indexing: bool,
    /// Whether the read waits until the index has taken the collection in.
    pub wait: bool,
}

/// What follows once the collection is at hand: the index is supplied if
/// there is one.
pub open spec fn after_read(indexing: bool) -> (CollectionState, CollectionAction) {
    if indexing {
        (CollectionState::Upserting, CollectionAction::Upsert)
    } else {
        (CollectionState::Finished, CollectionAction::Return { indexed: false })
    }
}

/// The step that follows `event`.
///
/// The read through the cache runs to its end first. Its failure is the
/// failure of the whole read. Once the collection is at hand, all of it is
/// handed to the index. What the index does never fails the read: the
/// collection is handed out either way.
pub open spec fn next_collection_step(flow: CollectionRead, event: CollectionEvent) -> (
    CollectionRead,
    CollectionAction,
) {
    match (flow.state, event) {
        (CollectionState::Reading, CollectionEvent::Read(e)) => {
            let (state, action) = next_step(flow.read.state, flow.read.ttl, e);
            let read = ReadThrough { state, ttl: flow.read.ttl };
            match action {
                ReadAction::ReturnCached | ReadAction::ReturnFetched => {
                    let (state, action) = after_read(flow.indexing);
                    (CollectionRead { state, read, ..flow }, action)
                },
                ReadAction::Fail(error) => (
                    CollectionRead { state: CollectionState::Finished, read, ..flow },
                    CollectionAction::Fail(error),
                ),
                _ => (CollectionRead { read, ..flow }, CollectionAction::Read(action)),
            }
        },
        (CollectionState::Upserting, CollectionEvent::Upserted) => if flow.wait {
            (
                CollectionRead { state: CollectionState::Waiting, ..flow },
                CollectionAction::AwaitIndexing,
            )
        } else {
            (
                CollectionRead { state: CollectionState::Finished, ..flow },
                CollectionAction::Return { indexed: true },
            )
        },
        (CollectionState::Upserting, CollectionEvent::UpsertFailed) => (
            CollectionRead { state: CollectionState::Finished, ..flow },
            CollectionAction::Return { indexed: false },
        ),
        (CollectionState::Waiting, CollectionEvent::Settled) => (
            CollectionRead { state: CollectionState::Finished, ..flow },
            CollectionAction::Return { indexed: true },
        ),
        _ => (
            CollectionRead { state: CollectionState::Finished, ..flow },
            CollectionAction::Fail(ReadError::OutOfTurn),
        ),
    }
}

impl CollectionRead {
    /// Starts the read of a collection. `ttl` is absent where no cache is
    /// configured; `indexing` says whether a search index is.
    pub fn start(ttl: Option<u64>, indexing: bool, wait: bool) -> (r: (
        CollectionRead,
        CollectionAction,
    ))
        ensures
            r.0.state == CollectionState::Reading,
            r.0.indexing == indexing,
            r.0.wait == wait,
            r.0.read.ttl == ttl,
            r.0.read.state == first_step(ttl).0,
            r.1 == CollectionAction::Read(first_step(ttl).1),
    {
        let (read, action) = ReadThrough::start(ttl);
        (
            CollectionRead { state: CollectionState::Reading, read, indexing, wait },
            CollectionAction::Read(action),
        )
    }

    /// Whether the read is over.
    pub fn is_finished(&self) -> (r: bool)
        ensures
            r == (self.state == CollectionState::Finished),
    {
        match self.state {
            CollectionState::Finished => true,
            _ => false,
        }
    }

    /// Takes what the caller reports and says what to do next.
    pub fn step(&mut self, event: CollectionEvent) -> (action: CollectionAction)
        ensures
            (*final(self), action) == next_collection_step(*old(self), event),
    {
        match (self.state, event) {
            (CollectionState::Reading, CollectionEvent::Read(e)) => {
                match self.read.step(e) {
                    ReadAction::ReturnCached | ReadAction::ReturnFetched => {
                        if self.indexing {
                            self.state = CollectionState::Upserting;
                            CollectionAction::Upsert
                        } else {
                            self.state = CollectionState::Finished;
                            CollectionAction::Return { indexed: false }
                        }
                    },
                    ReadAction::Fail(error) => {
                        self.state = CollectionState::Finished;
                        CollectionAction::Fail(error)
                    },
                    action => CollectionAction::Read(action),
                }
            },
            (CollectionState::Upserting, CollectionEvent::Upserted) => {
                if self.wait {
                    self.state = CollectionState::Waiting;
                    CollectionAction::AwaitIndexing
                } else {
                    self.state = CollectionState::Finished;
                    CollectionAction::Return { indexed: true }
                }
            },
            (CollectionState::Upserting, CollectionEvent::UpsertFailed) => {
                self.state = CollectionState::Finished;
                CollectionAction::Return { indexed: false }
            },
            (CollectionState::Waiting, CollectionEvent::Settled) => {
                self.state = CollectionState::Finished;
                CollectionAction::Return { indexed: true }
            },
            _ => {
                self.state = CollectionState::Finished;
                CollectionAction::Fail(ReadError::OutOfTurn)
            },
        }
    }
}

/// The index never fails a read: once the collection is at hand, every
/// answer of the index leads to the collection being handed out or to the
/// wait for the index, and only a failure of the read through the cache
/// makes the read fail.
pub proof fn lemma_index_cannot_fail_read(flow: CollectionRead, event: CollectionEvent)
    requires
        event == CollectionEvent::Upserted || event == CollectionEvent::UpsertFailed || event
            == CollectionEvent::Settled,
        (flow.state == CollectionState::Upserting && event != CollectionEvent::Settled) || (
        flow.state == CollectionState::Waiting && event == CollectionEvent::Settled),
    ensures
        !(next_collection_step(flow, event).1 is Fail),
        next_collection_step(flow, event).1 is Return || next_collection_step(flow, event).1
            == CollectionAction::AwaitIndexing,
{
}

/// The whole collection goes to the index only after it was read, and only
/// where an index is configured.
pub proof fn lemma_upsert_follows_read(flow: CollectionRead, event: CollectionEvent)
    ensures
        next_collection_step(flow, event).1 == CollectionAction::Upsert ==> flow.indexing
            && flow.state == CollectionState::Reading && (event matches CollectionEvent::Read(e)
            && (next_step(flow.read.state, flow.read.ttl, e).1 == ReadAction::ReturnCached
            || next_step(flow.read.state, flow.read.ttl, e).1 == ReadAction::ReturnFetched)),
{
}

} // verus!
