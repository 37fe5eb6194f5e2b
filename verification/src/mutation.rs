//! Mutations: what is checked before an entity is written, and what is
//! dropped from the cache afterwards.
//!
//! A mutation that refers to other entities is validated first, then
//! written to the primary store, then the cache entries that it made stale
//! are dropped. Nothing is written before validation has passed, and
//! nothing that the cache does can fail a mutation that was written. The
//! decisions are made here, one event at a time; the caller talks to the
//! services, the store and the cache and reports what happened.

use vstd::prelude::*;
use vstd::string::*;
use crate::cache::{
    invalidate,
    key_texts,
    lemma_deleted_entry_is_fetched,
    read_through,
    text_views,
    CacheModel,
};
use crate::cache_keys::CacheKey;
use crate::error::CoreError;
use crate::ident::EntityId;
use crate::model::{Listing, Tag};
use crate::validation::{
    is_missing,
    lemma_missing_reference_is_named,
    lemma_precedence,
    verdict,
    Reference,
    ReferenceKind,
    ReferenceSet,
    TransportError,
};

verus! {

/// What a mutation does to an entity.
#[derive(Debug, Clone, Copy, PartialEq, Eq, Structural)]
pub enum MutationType {
    Created,
    Updated,
    Deleted,
}

impl MutationType {
    /// The name of the mutation, in capitals.
    pub open spec fn name(self) -> Seq<char> {
        match self {
            MutationType::Created => "CREATED"@,
            MutationType::Updated => "UPDATED"@,
            MutationType::Deleted => "DELETED"@,
        }
    }

    /// Writes the name of the mutation, in capitals.
    pub fn to_string(&self) -> (name: String)
        ensures
            name@ == self.name(),
    {
        match self {
            MutationType::Created => String::from_str("CREATED"),
            MutationType::Updated => String::from_str("UPDATED"),
            MutationType::Deleted => String::from_str("DELETED"),
        }
    }
}

/// The entities that a listing is attached to.
#[derive(Debug, Clone, Copy, PartialEq, Eq, Structural)]
pub struct MetaData {
    pub category_id: EntityId,
    pub condition_id: EntityId,
    pub user_id: EntityId,
}

impl MetaData {
    /// The references that must exist before the listing is written: its
    /// tags, its category and its owner.
    pub fn references(&self, tags: &Vec<EntityId>) -> (set: ReferenceSet)
        ensures
            set.references@ == ReferenceSet::listing_references(
                self.category_id,
                self.user_id,
                tags@,
            ),
    {
        ReferenceSet::for_listing(self.category_id, self.user_id, tags)
    }
}

/// The verdict on a listing's tags, category and owner, as an error of the
/// core. `tag_outcomes[i]` is the outcome of looking up `tags[i]`.
pub open spec fn listing_validity(
    category_id: EntityId,
    user_id: EntityId,
    tags: Seq<EntityId>,
    category: Result<bool, TransportError>,
    user: Result<bool, TransportError>,
    tag_outcomes: Seq<Result<bool, TransportError>>,
) -> Result<(), CoreError> {
    match verdict(
        ReferenceSet::listing_references(category_id, user_id, tags),
        tag_outcomes + seq![category, user],
    ) {
        Ok(()) => Ok(()),
        Err(e) => Err(CoreError::of_validation(e)),
    }
}

/// Decides whether a listing may be written, from the outcomes of looking
/// up its tags, its category and its owner. A lookup that could not be made
/// is reported first, then a missing tag, then a missing category, then a
/// missing owner. Tags without an outcome each, or outcomes without a tag,
/// are a fault of the caller and count as unreachable.
pub fn check_listing_validity(
    category_id: &EntityId,
    user_id: &EntityId,
    tags: &Vec<EntityId>,
    category: Result<bool, TransportError>,
    user: Result<bool, TransportError>,
    tag_outcomes: Vec<Result<bool, TransportError>>,
) -> (r: Result<(), CoreError>)
    ensures
        r == listing_validity(*category_id, *user_id, tags@, category, user, tag_outcomes@),
{
    let set = ReferenceSet::for_listing(*category_id, *user_id, tags);
    let mut outcomes = tag_outcomes;
    outcomes.push(category);
    outcomes.push(user);
    assert(outcomes@ =~= tag_outcomes@ + seq![category, user]);
    match set.validate(&outcomes) {
        Ok(()) => Ok(()),
        Err(e) => Err(CoreError::from_validation(e)),
    }
}

/// A listing with a missing tag is turned down for that tag: where every
/// lookup was made and some tag was not found, the verdict names a tag of
/// the listing that was looked up and not found, whatever became of the
/// category and the owner.
pub proof fn lemma_missing_tag_rejects_listing(
    category_id: EntityId,
    user_id: EntityId,
    tags: Seq<EntityId>,
    category: bool,
    user: bool,
    tag_outcomes: Seq<Result<bool, TransportError>>,
    missing: int,
)
    requires
        tags.len() == tag_outcomes.len(),
        forall|i: int| 0 <= i < tag_outcomes.len() ==> (#[trigger] tag_outcomes[i]) is Ok,
        0 <= missing < tags.len(),
        tag_outcomes[missing] == Ok::<bool, TransportError>(false),
    ensures
        listing_validity(
            category_id,
            user_id,
            tags,
            Ok(category),
            Ok(user),
            tag_outcomes,
        ) matches Err(CoreError::MissingReference { kind: ReferenceKind::Tag, id })
            && exists|i: int|
            0 <= i < tags.len() && tags[i] == id && #[trigger] tag_outcomes[i] == Ok::<
                bool,
                TransportError,
            >(false),
{
    let references = ReferenceSet::listing_references(category_id, user_id, tags);
    let outcomes = tag_outcomes + seq![
        Ok::<bool, TransportError>(category),
        Ok::<bool, TransportError>(user),
    ];
    assert forall|i: int| 0 <= i < outcomes.len() implies (#[trigger] outcomes[i]) is Ok by {
        if i < tag_outcomes.len() {
            assert(outcomes[i] == tag_outcomes[i]);
        }
    }
    assert(outcomes[missing] == tag_outcomes[missing]);
    assert(is_missing(references, outcomes, ReferenceKind::Tag, missing));
    lemma_precedence(references, outcomes);
    lemma_missing_reference_is_named(references, outcomes);
    let id = verdict(references, outcomes)->Err_0->MissingReference_id;
    let i = choose|i: int|
        is_missing(references, outcomes, ReferenceKind::Tag, i) && (#[trigger] references[i]).id
            == id;
    assert(i < tags.len());
    assert(outcomes[i] == tag_outcomes[i]);
    assert(tags[i] == id && tag_outcomes[i] == Ok::<bool, TransportError>(false));
}

/// A listing whose category does not exist is turned down for its
/// category, and nothing is written or dropped on its account: where all
/// tags and the owner exist and the category does not, the verdict names
/// the category, and the mutation that is told so ends at once, asking for
/// neither a write nor an invalidation, whatever is reported afterwards.
pub proof fn lemma_missing_category_rejects_listing(
    category_id: EntityId,
    user_id: EntityId,
    tags: Seq<EntityId>,
    tag_outcomes: Seq<Result<bool, TransportError>>,
    kind: MutationType,
    cached: bool,
    later: Seq<MutationEvent>,
)
    requires
        tags.len() == tag_outcomes.len(),
        forall|i: int|
            0 <= i < tag_outcomes.len() ==> #[trigger] tag_outcomes[i] == Ok::<
                bool,
                TransportError,
            >(true),
    ensures
        listing_validity(category_id, user_id, tags, Ok(false), Ok(true), tag_outcomes) == Err::<
            (),
            CoreError,
        >(CoreError::MissingReference { kind: ReferenceKind::Category, id: category_id }),
        first_step(true).1 == MutationAction::Validate,
        actions_of(first_step(true).0, kind, cached, seq![MutationEvent::Invalid] + later)[0]
            == MutationAction::Fail(MutationError::Rejected),
        !actions_of(first_step(true).0, kind, cached, seq![MutationEvent::Invalid] + later).contains(
            MutationAction::Persist,
        ),
        !actions_of(first_step(true).0, kind, cached, seq![MutationEvent::Invalid] + later).contains(
            MutationAction::Invalidate,
        ),
{
    let references = ReferenceSet::listing_references(category_id, user_id, tags);
    let outcomes = tag_outcomes + seq![
        Ok::<bool, TransportError>(false),
        Ok::<bool, TransportError>(true),
    ];
    let at = tags.len() as int;
    assert forall|i: int| 0 <= i < outcomes.len() implies (#[trigger] outcomes[i]) is Ok by {
        if i < tag_outcomes.len() {
            assert(outcomes[i] == tag_outcomes[i]);
        }
    }
    assert forall|i: int| !is_missing(references, outcomes, ReferenceKind::Tag, i) by {
        if 0 <= i < tag_outcomes.len() {
            assert(outcomes[i] == tag_outcomes[i]);
        }
    }
    assert(references[at] == Reference { kind: ReferenceKind::Category, id: category_id });
    assert(outcomes[at] == Ok::<bool, TransportError>(false));
    assert(is_missing(references, outcomes, ReferenceKind::Category, at));
    lemma_precedence(references, outcomes);
    lemma_missing_reference_is_named(references, outcomes);
    let id = verdict(references, outcomes)->Err_0->MissingReference_id;
    let i = choose|i: int|
        is_missing(references, outcomes, ReferenceKind::Category, i) && (
        #[trigger] references[i]).id == id;
    assert(i == at) by {
        if i < at {
            assert(references[i].kind == ReferenceKind::Tag);
        }
    }
    lemma_rejected_mutation_writes_nothing(kind, cached, seq![MutationEvent::Invalid] + later);
}

/// The keys whose entries a mutation of a listing makes stale, which are
/// all the keys under which the listing may be cached: the list of all
/// listings, the list of its owner's, and the listing itself.
pub open spec fn listing_cache_keys(user_id: EntityId, listing_id: EntityId) -> Seq<Seq<char>> {
    seq![
        CacheKey::AllListings.text(),
        (CacheKey::UserListing { user_id: &user_id }).text(),
        (CacheKey::Listing { id: &listing_id }).text(),
    ]
}

/// The batch that drops what a mutation of the listing `listing_id` of the
/// owner `user_id` made stale, if there is a cache. For a create the
/// listing is the one that the store handed back.
pub fn clear_listing_cache(cached: bool, user_id: &EntityId, listing_id: &EntityId) -> (batch:
    Option<Vec<String>>)
    ensures
        batch is Some <==> cached,
        batch matches Some(texts) ==> {
            &&& text_views(texts@) == listing_cache_keys(*user_id, *listing_id)
            &&& texts@.len() == 3
            &&& texts@[0]@ == CacheKey::AllListings.text()
            &&& texts@[1]@ == (CacheKey::UserListing { user_id }).text()
            &&& texts@[2]@ == (CacheKey::Listing { id: listing_id }).text()
        },
{
    let mut keys: Vec<CacheKey<'_>> = Vec::new();
    keys.push(CacheKey::AllListings);
    keys.push(CacheKey::UserListing { user_id });
    keys.push(CacheKey::Listing { id: listing_id });
    let batch = invalidate(cached, &keys);
    proof {
        if batch is Some {
            assert(key_texts(keys@) =~= listing_cache_keys(*user_id, *listing_id));
        }
    }
    batch
}

/// The keys whose entries a mutation of a tag makes stale, which are all
/// the keys under which the tag may be cached: the list of all tags and the
/// tag itself.
pub open spec fn tag_cache_keys(tag_id: EntityId) -> Seq<Seq<char>> {
    seq![CacheKey::AllTags.text(), (CacheKey::Tag { id: &tag_id }).text()]
}

/// The batch that drops what a mutation of the tag `tag_id` made stale, if
/// there is a cache. For a create the tag is the one that the store handed
/// back.
pub fn clear_tag_cache(cached: bool, tag_id: &EntityId) -> (batch: Option<Vec<String>>)
    ensures
        batch is Some <==> cached,
        batch matches Some(texts) ==> {
            &&& text_views(texts@) == tag_cache_keys(*tag_id)
            &&& texts@.len() == 2
            &&& texts@[0]@ == CacheKey::AllTags.text()
            &&& texts@[1]@ == (CacheKey::Tag { id: tag_id }).text()
        },
{
    let mut keys: Vec<CacheKey<'_>> = Vec::new();
    keys.push(CacheKey::AllTags);
    keys.push(CacheKey::Tag { id: tag_id });
    let batch = invalidate(cached, &keys);
    proof {
        if batch is Some {
            assert(key_texts(keys@) =~= tag_cache_keys(*tag_id));
        }
    }
    batch
}

/// After the batch of a mutation of a listing was carried out, no entry
/// that may hold the listing is left: a read of all listings, of the
/// owner's listings or of the listing itself asks the source of truth.
pub proof fn lemma_listing_mutation_drops_every_alias(
    cache: CacheModel,
    user_id: EntityId,
    listing_id: EntityId,
    ttl: Option<u64>,
    now: int,
    fetch_ok: bool,
    store_ok: bool,
)
    ensures
        ({
            let after = cache.deleted(listing_cache_keys(user_id, listing_id));
            let all = CacheKey::AllListings.text();
            let owned = (CacheKey::UserListing { user_id: &user_id }).text();
            let own = (CacheKey::Listing { id: &listing_id }).text();
            &&& read_through(after, all, ttl, now, fetch_ok, store_ok).fetches == 1
            &&& read_through(after, owned, ttl, now, fetch_ok, store_ok).fetches == 1
            &&& read_through(after, own, ttl, now, fetch_ok, store_ok).fetches == 1
        }),
{
    let keys = listing_cache_keys(user_id, listing_id);
    assert(keys[0] == CacheKey::AllListings.text());
    assert(keys[1] == (CacheKey::UserListing { user_id: &user_id }).text());
    assert(keys[2] == (CacheKey::Listing { id: &listing_id }).text());
    lemma_deleted_entry_is_fetched(cache, keys[0], keys, ttl, now, fetch_ok, store_ok);
    lemma_deleted_entry_is_fetched(cache, keys[1], keys, ttl, now, fetch_ok, store_ok);
    lemma_deleted_entry_is_fetched(cache, keys[2], keys, ttl, now, fetch_ok, store_ok);
}

/// After the batch of a mutation of a tag was carried out, no entry that
/// may hold the tag is left: a read of all tags or of the tag itself asks
/// the source of truth.
pub proof fn lemma_tag_mutation_drops_every_alias(
    cache: CacheModel,
    tag_id: EntityId,
    ttl: Option<u64>,
    now: int,
    fetch_ok: bool,
    store_ok: bool,
)
    ensures
        ({
            let after = cache.deleted(tag_cache_keys(tag_id));
            let all = CacheKey::AllTags.text();
            let own = (CacheKey::Tag { id: &tag_id }).text();
            &&& read_through(after, all, ttl, now, fetch_ok, store_ok).fetches == 1
            &&& read_through(after, own, ttl, now, fetch_ok, store_ok).fetches == 1
        }),
{
    let keys = tag_cache_keys(tag_id);
    assert(keys[0] == CacheKey::AllTags.text());
    assert(keys[1] == (CacheKey::Tag { id: &tag_id }).text());
    lemma_deleted_entry_is_fetched(cache, keys[0], keys, ttl, now, fetch_ok, store_ok);
    lemma_deleted_entry_is_fetched(cache, keys[1], keys, ttl, now, fetch_ok, store_ok);
}

/// The listing that the store handed back, as far as it is the listing
/// that was asked for: it is handed out if it is filed under `category_id`,
/// and a store that filed it elsewhere has broken its word.
pub fn listing_in_category(listing: Listing, category_id: &EntityId) -> (r: Result<
    Listing,
    CoreError,
>)
    ensures
        r == (if listing.category_id == *category_id {
            Ok::<Listing, CoreError>(listing)
        } else {
            Err::<Listing, CoreError>(CoreError::Unreachable)
        }),
{
    if listing.category_id == *category_id {
        Ok(listing)
    } else {
        Err(CoreError::Unreachable)
    }
}

/// What is written to the store for a listing: its content, without its
/// identifier, which the store assigns.
#[derive(Debug, Clone, Copy)]
pub struct InputListing<'a> {
    pub title: &'a str,
    pub description: &'a str,
    pub price: &'a rust_decimal::Decimal,
    pub image_url: &'a str,
    pub other_images: &'a Vec<String>,
    pub active: bool,
    pub negotiable: bool,
    pub created_at: &'a time::OffsetDateTime,
    pub updated_at: &'a time::OffsetDateTime,
    pub expires_at: Option<&'a time::OffsetDateTime>,
    pub deleted_at: Option<&'a time::OffsetDateTime>,
}

/// What is written to the store for a tag.
#[derive(Debug, Clone, Copy)]
pub struct InputTag<'a> {
    pub name: &'a str,
}

impl<'a> InputListing<'a> {
    /// The content of `value` as the store takes it: a published listing is
    /// an active record.
    pub fn from(value: &'a Listing) -> (input: InputListing<'a>)
        ensures
            input.title@ == value.title@,
            input.description@ == value.description@,
            *input.price == value.price,
            input.image_url@ == value.image_url@,
            *input.other_images == value.other_images,
            input.active == value.published,
            input.negotiable == value.negotiable,
            *input.created_at == value.created,
            *input.updated_at == value.updated,
            value.expires is Some <==> input.expires_at is Some,
            input.expires_at matches Some(at) ==> value.expires == Some(*at),
            value.deleted is Some <==> input.deleted_at is Some,
            input.deleted_at matches Some(at) ==> value.deleted == Some(*at),
    {
        InputListing {
            title: value.title.as_str(),
            description: value.description.as_str(),
            price: &value.price,
            image_url: value.image_url.as_str(),
            other_images: &value.other_images,
            active: value.published,
            negotiable: value.negotiable,
            created_at: &value.created,
            updated_at: &value.updated,
            expires_at: value.expires.as_ref(),
            deleted_at: value.deleted.as_ref(),
        }
    }
}

impl<'a> InputTag<'a> {
    /// The content of `value` as the store takes it.
    pub fn from(value: &'a Tag) -> (input: InputTag<'a>)
        ensures
            input.name@ == value.name@,
    {
        InputTag { name: value.name.as_str() }
    }
}

/// Why a mutation was not carried out.
#[derive(Debug, Clone, Copy, PartialEq, Eq, Structural)]
pub enum MutationError {
    /// Validation did not pass; the caller holds the verdict.
    Rejected,
    /// The primary store reported an error; the caller holds it.
    StoreFailed,
    /// What the store handed back could not be read as an entity.
    Undecodable,
    /// The store reported success and handed back no entity.
    Unreachable,
    /// An event arrived that the step before did not ask for.
    OutOfTurn,
}

/// Where a mutation stands: what the caller was last asked to do.
#[derive(Debug, Clone, Copy, PartialEq, Eq, Structural)]
pub enum MutationState {
    /// The references are being looked up.
    Validating,
    /// The primary store is being written.
    Persisting,
    /// The stale cache entries are being dropped.
    Invalidating,
    /// Nothing is outstanding.
    Finished,
}

/// What the caller reports back.
#[derive(Debug, Clone, Copy, PartialEq, Eq, Structural)]
pub enum MutationEvent {
    /// Every reference exists.
    Valid,
    /// The verdict on the references was unfavourable.
    Invalid,
    /// The store wrote and handed back the entity.
    Persisted,
    /// The store reported success and handed back no entity.
    NothingStored,
    /// The store handed back what could not be read as an entity.
    Undecodable,
    /// The store reported an error.
    StoreFailed,
    /// The cache dropped the entries.
    Invalidated,
    /// The cache did not drop the entries.
    InvalidationFailed,
}

/// What the caller is to do next.
#[derive(Debug, Clone, Copy, PartialEq, Eq, Structural)]
pub enum MutationAction {
    /// Look the references up and weigh the outcomes.
    Validate,
    /// Write to the primary store.
    Persist,
    /// Drop the stale entries from the cache, in one batch.
    Invalidate,
    /// Hand out the entity that the store handed back.
    ReturnEntity,
    /// Report that there was no such entity.
    ReturnNothing,
    /// Give up with this error.
    Fail(MutationError),
}

/// One mutation, from validation to the cache.
#[derive(Debug, Clone, Copy, PartialEq, Eq, Structural)]
pub struct MutationFlow {
    pub state: MutationState,
    /// What the mutation does to the entity.
    pub kind: MutationType,
    /// Whether a cache is configured.
    pub cached: bool,
}

/// The first step of a mutation: validation where it refers to other
/// entities, the write where it does not.
pub open spec fn first_step(validates: bool) -> (MutationState, MutationAction) {
    if validates {
        (MutationState::Validating, MutationAction::Validate)
    } else {
        (MutationState::Persisting, MutationAction::Persist)
    }
}

/// The step that follows `event` in `state`.
///
/// The write follows a favourable verdict and nothing else. The cache is
/// touched only after the store handed back the entity, and whatever the
/// cache answers the entity is handed out. A store that reports success
/// and hands back nothing has deleted nothing, which is no error, or has
/// broken its word on a create or an update.
pub open spec fn next_step(
    state: MutationState,
    kind: MutationType,
    cached: bool,
    event: MutationEvent,
) -> (MutationState, MutationAction) {
    match (state, event) {
        (MutationState::Validating, MutationEvent::Valid) => (
            MutationState::Persisting,
            MutationAction::Persist,
        ),
        (MutationState::Validating, MutationEvent::Invalid) => (
            MutationState::Finished,
            MutationAction::Fail(MutationError::Rejected),
        ),
        (MutationState::Persisting, MutationEvent::Persisted) => if cached {
            (MutationState::Invalidating, MutationAction::Invalidate)
        } else {
            (MutationState::Finished, MutationAction::ReturnEntity)
        },
        (MutationState::Persisting, MutationEvent::NothingStored) => if kind
            == MutationType::Deleted {
            (MutationState::Finished, MutationAction::ReturnNothing)
        } else {
            (MutationState::Finished, MutationAction::Fail(MutationError::Unreachable))
        },
        (MutationState::Persisting, MutationEvent::Undecodable) => (
            MutationState::Finished,
            MutationAction::Fail(MutationError::Undecodable),
        ),
        (MutationState::Persisting, MutationEvent::StoreFailed) => (
            MutationState::Finished,
            MutationAction::Fail(MutationError::StoreFailed),
        ),
        (MutationState::Invalidating, MutationEvent::Invalidated)
        | (MutationState::Invalidating, MutationEvent::InvalidationFailed) => (
            MutationState::Finished,
            MutationAction::ReturnEntity,
        ),
        _ => (MutationState::Finished, MutationAction::Fail(MutationError::OutOfTurn)),
    }
}

impl MutationFlow {
    /// Starts a mutation. `validates` says whether it refers to entities
    /// that must exist, `cached` whether a cache is configured.
    pub fn start(kind: MutationType, validates: bool, cached: bool) -> (r: (
        MutationFlow,
        MutationAction,
    ))
        ensures
            r.0.kind == kind,
            r.0.cached == cached,
            (r.0.state, r.1) == first_step(validates),
    {
        if validates {
            (
                MutationFlow { state: MutationState::Validating, kind, cached },
                MutationAction::Validate,
            )
        } else {
            (
                MutationFlow { state: MutationState::Persisting, kind, cached },
                MutationAction::Persist,
            )
        }
    }

    /// Whether the mutation is over.
    pub fn is_finished(&self) -> (r: bool)
        ensures
            r == (self.state == MutationState::Finished),
    {
        match self.state {
            MutationState::Finished => true,
            _ => false,
        }
    }

    /// Takes what the caller reports and says what to do next.
    pub fn step(&mut self, event: MutationEvent) -> (action: MutationAction)
        ensures
            final(self).kind == old(self).kind,
            final(self).cached == old(self).cached,
            (final(self).state, action) == next_step(
                old(self).state,
                old(self).kind,
                old(self).cached,
                event,
            ),
    {
        let (state, action) = match (self.state, event) {
            (MutationState::Validating, MutationEvent::Valid) => (
                MutationState::Persisting,
                MutationAction::Persist,
            ),
            (MutationState::Validating, MutationEvent::Invalid) => (
                MutationState::Finished,
                MutationAction::Fail(MutationError::Rejected),
            ),
            (MutationState::Persisting, MutationEvent::Persisted) => if self.cached {
                (MutationState::Invalidating, MutationAction::Invalidate)
            } else {
                (MutationState::Finished, MutationAction::ReturnEntity)
            },
            (MutationState::Persisting, MutationEvent::NothingStored) => match self.kind {
                MutationType::Deleted => (MutationState::Finished, MutationAction::ReturnNothing),
                _ => (MutationState::Finished, MutationAction::Fail(MutationError::Unreachable)),
            },
            (MutationState::Persisting, MutationEvent::Undecodable) => (
                MutationState::Finished,
                MutationAction::Fail(MutationError::Undecodable),
            ),
            (MutationState::Persisting, MutationEvent::StoreFailed) => (
                MutationState::Finished,
                MutationAction::Fail(MutationError::StoreFailed),
            ),
            (MutationState::Invalidating, MutationEvent::Invalidated)
            | (MutationState::Invalidating, MutationEvent::InvalidationFailed) => (
                MutationState::Finished,
                MutationAction::ReturnEntity,
            ),
            _ => (MutationState::Finished, MutationAction::Fail(MutationError::OutOfTurn)),
        };
        self.state = state;
        action
    }
}

/// The error that a failed mutation is reported with. Where the caller
/// holds the error of the service or of the store, that error is passed
/// on. An entity that was deleted and cannot be read back is reported as a
/// fault of the store, by the name of its collection; on a create or an
/// update the error of the reading is passed on.
pub open spec fn failure_of(
    kind: MutationType,
    entity: Seq<char>,
    error: MutationError,
    held: Option<CoreError>,
) -> Result<CoreError, Seq<char>> {
    match error {
        MutationError::Unreachable | MutationError::OutOfTurn => Ok(CoreError::Unreachable),
        MutationError::Undecodable if kind == MutationType::Deleted => Err(
            entity + " could not be deserialised properly"@,
        ),
        _ => match held {
            Some(e) => Ok(e),
            None => Ok(CoreError::Unreachable),
        },
    }
}

/// Makes the error that a failed mutation is reported with; `entity` names
/// what was mutated, as in "Listing".
pub fn failure(kind: MutationType, entity: &str, error: MutationError, held: Option<CoreError>) -> (r:
    CoreError)
    ensures
        match failure_of(kind, entity@, error, held) {
            Ok(e) => r == e,
            Err(message) => r is Database && r->Database_0@ == message,
        },
{
    match error {
        MutationError::Unreachable => CoreError::Unreachable,
        MutationError::OutOfTurn => CoreError::Unreachable,
        MutationError::Undecodable => match kind {
            MutationType::Deleted => {
                let mut message = String::from_str(entity);
                message.append(" could not be deserialised properly");
                CoreError::Database(message)
            },
            _ => match held {
                Some(e) => e,
                None => CoreError::Unreachable,
            },
        },
        _ => match held {
            Some(e) => e,
            None => CoreError::Unreachable,
        },
    }
}

/// The actions that a mutation emits from `state` on, one for each event.
pub open spec fn actions_of(
    state: MutationState,
    kind: MutationType,
    cached: bool,
    events: Seq<MutationEvent>,
) -> Seq<MutationAction>
    decreases events.len(),
{
    if events.len() == 0 {
        Seq::empty()
    } else {
        let (next, action) = next_step(state, kind, cached, events[0]);
        seq![action] + actions_of(next, kind, cached, events.drop_first())
    }
}

/// Nothing is written before validation has passed, and the cache is left
/// alone until the store has handed back the entity.
pub proof fn lemma_mutation_order(
    state: MutationState,
    kind: MutationType,
    cached: bool,
    event: MutationEvent,
)
    ensures
        next_step(state, kind, cached, event).1 == MutationAction::Persist ==> state
            == MutationState::Validating && event == MutationEvent::Valid,
        next_step(state, kind, cached, event).1 == MutationAction::Invalidate ==> state
            == MutationState::Persisting && event == MutationEvent::Persisted && cached,
        next_step(state, kind, cached, event).1 == MutationAction::ReturnEntity ==> (state
            == MutationState::Persisting && event == MutationEvent::Persisted && !cached) || state
            == MutationState::Invalidating,
{
}

/// A mutation that was written succeeds whatever the cache does.
pub proof fn lemma_cache_cannot_fail_mutation(kind: MutationType, event: MutationEvent)
    requires
        event == MutationEvent::Invalidated || event == MutationEvent::InvalidationFailed,
    ensures
        next_step(MutationState::Invalidating, kind, true, event) == (
            MutationState::Finished,
            MutationAction::ReturnEntity,
        ),
{
}

/// A mutation whose references exist and whose write succeeds hands out
/// the entity: validation, then the write, then the invalidation where a
/// cache is configured, and then the entity whatever the cache answered.
pub proof fn lemma_valid_mutation_is_carried_out(
    kind: MutationType,
    cached: bool,
    cache_answer: MutationEvent,
)
    requires
        cache_answer == MutationEvent::Invalidated || cache_answer
            == MutationEvent::InvalidationFailed,
    ensures
        first_step(true).1 == MutationAction::Validate,
        actions_of(
            first_step(true).0,
            kind,
            cached,
            if cached {
                seq![MutationEvent::Valid, MutationEvent::Persisted, cache_answer]
            } else {
                seq![MutationEvent::Valid, MutationEvent::Persisted]
            },
        ) == (if cached {
            seq![MutationAction::Persist, MutationAction::Invalidate, MutationAction::ReturnEntity]
        } else {
            seq![MutationAction::Persist, MutationAction::ReturnEntity]
        }),
{
    reveal_with_fuel(actions_of, 5);
    if cached {
        let events = seq![MutationEvent::Valid, MutationEvent::Persisted, cache_answer];
        assert(events.drop_first() =~= seq![MutationEvent::Persisted, cache_answer]);
        assert(events.drop_first().drop_first() =~= seq![cache_answer]);
        assert(events.drop_first().drop_first().drop_first() =~= Seq::<MutationEvent>::empty());
        assert(actions_of(first_step(true).0, kind, cached, events) =~= seq![
            MutationAction::Persist,
            MutationAction::Invalidate,
            MutationAction::ReturnEntity,
        ]);
    } else {
        let events = seq![MutationEvent::Valid, MutationEvent::Persisted];
        assert(events.drop_first() =~= seq![MutationEvent::Persisted]);
        assert(events.drop_first().drop_first() =~= Seq::<MutationEvent>::empty());
        assert(actions_of(first_step(true).0, kind, cached, events) =~= seq![
            MutationAction::Persist,
            MutationAction::ReturnEntity,
        ]);
    }
}

/// Once a mutation is finished it writes nothing and drops nothing,
/// whatever is reported to it.
pub proof fn lemma_finished_mutation_is_inert(
    kind: MutationType,
    cached: bool,
    events: Seq<MutationEvent>,
)
    ensures
        !actions_of(MutationState::Finished, kind, cached, events).contains(
            MutationAction::Persist,
        ),
        !actions_of(MutationState::Finished, kind, cached, events).contains(
            MutationAction::Invalidate,
        ),
    decreases events.len(),
{
    if events.len() > 0 {
        lemma_finished_mutation_is_inert(kind, cached, events.drop_first());
        let (next, action) = next_step(MutationState::Finished, kind, cached, events[0]);
        let rest = actions_of(next, kind, cached, events.drop_first());
        let all = seq![action] + rest;
        assert forall|a: MutationAction|
            a == MutationAction::Persist || a == MutationAction::Invalidate implies !all.contains(
            a,
        ) by {
            if all.contains(a) {
                let i = choose|i: int| 0 <= i < all.len() && all[i] == a;
                if i > 0 {
                    assert(rest[i - 1] == a);
                    assert(rest.contains(a));
                }
            }
        }
    }
}

/// A mutation whose references do not all exist writes nothing and leaves
/// the cache alone: after an unfavourable verdict no action is a write or
/// an invalidation, whatever is reported afterwards.
pub proof fn lemma_rejected_mutation_writes_nothing(
    kind: MutationType,
    cached: bool,
    events: Seq<MutationEvent>,
)
    requires
        events.len() > 0,
        events[0] == MutationEvent::Invalid,
    ensures
        first_step(true).1 == MutationAction::Validate,
        actions_of(first_step(true).0, kind, cached, events)[0] == MutationAction::Fail(
            MutationError::Rejected,
        ),
        !actions_of(first_step(true).0, kind, cached, events).contains(MutationAction::Persist),
        !actions_of(first_step(true).0, kind, cached, events).contains(
            MutationAction::Invalidate,
        ),
{
    lemma_finished_mutation_is_inert(kind, cached, events.drop_first());
    let (next, action) = next_step(MutationState::Validating, kind, cached, events[0]);
    let rest = actions_of(next, kind, cached, events.drop_first());
    let all = seq![action] + rest;
    assert(all[0] == action);
    assert forall|a: MutationAction|
        a == MutationAction::Persist || a == MutationAction::Invalidate implies !all.contains(
        a,
    ) by {
        if all.contains(a) {
            let i = choose|i: int| 0 <= i < all.len() && all[i] == a;
            if i > 0 {
                assert(rest[i - 1] == a);
                assert(rest.contains(a));
            }
        }
    }
}

} // verus!
