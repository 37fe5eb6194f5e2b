//! Entities as the primary store holds them, and how they become the
//! entities of the API.
//!
//! The store names a record by its table and a key. The key of an entity is
//! its identifier, which the store may wrap in angle brackets.

use vstd::prelude::*;
use vstd::string::*;
use crate::collections::Collection;
use crate::error::CoreError;
use crate::ident::{
    hyphenated_text,
    is_hyphenated_char,
    lemma_hyphenated_text_chars,
    parsed_id,
    EntityId,
};
use crate::model::{Category, Listing, ListingCondition, Tag};

verus! {

/// The bracket that the store opens a wrapped key with.
pub const OPENING_BRACKET: char = '\u{27e8}';

/// The bracket that the store closes a wrapped key with.
pub const CLOSING_BRACKET: char = '\u{27e9}';

/// A listing as the primary store holds it.
#[derive(Debug, Clone)]
pub struct DatabaseEntityListing {
    /// The key of the record, as the store writes it.
    pub id: String,
    /// The key of the record of the listing's category.
    pub category_id: String,
    pub title: String,
    pub description: String,
    pub price: rust_decimal::Decimal,
    pub image_url: String,
    pub other_images: Vec<String>,
    pub active: bool,
    pub negotiable: bool,
    pub expires: Option<time::OffsetDateTime>,
    pub created: time::OffsetDateTime,
    pub updated: time::OffsetDateTime,
    pub deleted: Option<time::OffsetDateTime>,
}

/// A tag as the primary store holds it.
#[derive(Debug, Clone)]
pub struct DatabaseEntityTag {
    /// The key of the record, as the store writes it.
    pub id: String,
    pub name: String,
}

/// A listing condition as the primary store holds it.
#[derive(Debug, Clone)]
pub struct DatabaseEntityListingCondition {
    /// The key of the record, as the store writes it.
    pub id: String,
    pub condition: String,
}

/// A category as the primary store holds it.
#[derive(Debug, Clone)]
pub struct DatabaseEntity {
    /// The key of the record, as the store writes it.
    pub id: String,
    pub name: String,
    /// The keys of the categories below this one.
    pub sub_categories: Option<Vec<String>>,
    pub image_url: Option<String>,
    /// The key of the category above this one.
    pub parent_id: Option<String>,
}

/// Whether `c` is kept when a key is unwrapped.
pub open spec fn is_key_char(c: char) -> bool {
    c != OPENING_BRACKET && c != CLOSING_BRACKET
}

/// Where the first colon of `raw` at or behind `from` stands, or the length
/// of `raw` if there is none.
pub open spec fn segment_end(raw: Seq<char>, from: int) -> int
    decreases raw.len() - from,
{
    if from < 0 || from >= raw.len() {
        raw.len() as int
    } else if raw[from] == ':' {
        from
    } else {
        segment_end(raw, from + 1)
    }
}

/// The key in a record key as the store writes it: what stands in front of
/// the first colon, without the brackets.
pub open spec fn record_key_text(raw: Seq<char>) -> Seq<char> {
    raw.take(segment_end(raw, 0)).filter(key_chars())
}

/// The characters that are kept when a key is unwrapped, as a predicate.
pub open spec fn key_chars() -> spec_fn(char) -> bool {
    |c: char| is_key_char(c)
}

/// The first colon from `from` on stands inside the text or at its end, and
/// no colon stands in front of it.
pub proof fn lemma_segment_end(raw: Seq<char>, from: int)
    requires
        0 <= from <= raw.len(),
    ensures
        from <= segment_end(raw, from) <= raw.len(),
        segment_end(raw, from) < raw.len() ==> raw[segment_end(raw, from)] == ':',
        forall|k: int| from <= k < segment_end(raw, from) ==> raw[k] != ':',
    decreases raw.len() - from,
{
    if from < raw.len() && raw[from] != ':' {
        lemma_segment_end(raw, from + 1);
    }
}

/// An unwrapped key holds no bracket and no colon, and nothing that the
/// record key did not hold.
pub proof fn lemma_record_key_is_plain(raw: Seq<char>)
    ensures
        forall|i: int|
            0 <= i < record_key_text(raw).len() ==> {
                let c = #[trigger] record_key_text(raw)[i];
                c != ':' && c != OPENING_BRACKET && c != CLOSING_BRACKET && raw.contains(c)
            },
        record_key_text(raw).len() <= raw.len(),
{
    lemma_segment_end(raw, 0);
    let head = raw.take(segment_end(raw, 0));
    let key = record_key_text(raw);
    head.lemma_filter_len(key_chars());
    assert forall|i: int| 0 <= i < key.len() implies {
        let c = #[trigger] key[i];
        c != ':' && c != OPENING_BRACKET && c != CLOSING_BRACKET && raw.contains(c)
    } by {
        let c = key[i];
        head.lemma_filter_pred(key_chars(), i);
        assert(key.contains(c));
        head.lemma_filter_contains_rev(key_chars(), c);
        let k = choose|k: int| 0 <= k < head.len() && head[k] == c;
        assert(raw[k] == c);
    }
}

/// Unwraps the key of a record: keeps what stands in front of the first
/// colon and drops the brackets.
pub fn create_string_from_id(raw: &str) -> (key: String)
    ensures
        key@ == record_key_text(raw@),
{
    let len = raw.unicode_len();
    let mut key = String::new();
    let mut i: usize = 0;
    let mut at_colon = false;
    proof {
        reveal(Seq::filter);
        assert(raw@.take(0) =~= Seq::<char>::empty());
    }
    while i < len && !at_colon
        invariant
            len == raw@.len(),
            0 <= i <= len,
            key@ == raw@.take(i as int).filter(key_chars()),
            segment_end(raw@, 0) == segment_end(raw@, i as int),
            at_colon ==> i < len && raw@[i as int] == ':',
        decreases len - i + (if at_colon { 0int } else { 1int }),
    {
        let c = raw.get_char(i);
        if c == ':' {
            at_colon = true;
        } else {
            proof {
                reveal(Seq::filter);
                let t = raw@.take(i as int + 1);
                assert(t.drop_last() =~= raw@.take(i as int));
                assert(t.last() == c);
            }
            if c != OPENING_BRACKET && c != CLOSING_BRACKET {
                let ghost before = key@;
                key.append(raw.substring_char(i, i + 1));
                proof {
                    assert(raw@.subrange(i as int, i + 1) =~= seq![c]);
                    assert(before + seq![c] =~= before.push(c));
                }
            }
            i += 1;
        }
    }
    key
}

/// A text in which every character passes `keep` is what is left of it
/// when the others are dropped.
proof fn lemma_filter_keeps_all(s: Seq<char>, keep: spec_fn(char) -> bool)
    requires
        forall|i: int| 0 <= i < s.len() ==> keep(#[trigger] s[i]),
    ensures
        s.filter(keep) == s,
    decreases s.len(),
{
    reveal(Seq::filter);
    if s.len() > 0 {
        let head = s.drop_last();
        assert forall|i: int| 0 <= i < head.len() implies keep(#[trigger] head[i]) by {
            assert(head[i] == s[i]);
        }
        lemma_filter_keeps_all(head, keep);
        assert(head.push(s.last()) =~= s);
    }
}

/// The text of an identifier is its own record key: unwrapping finds
/// nothing to strike off.
pub proof fn lemma_identifier_is_its_key(value: u128)
    ensures
        record_key_text(hyphenated_text(value)) == hyphenated_text(value),
{
    let raw = hyphenated_text(value);
    lemma_hyphenated_text_chars(value);
    lemma_segment_end(raw, 0);
    if segment_end(raw, 0) < raw.len() {
        assert(is_hyphenated_char(raw[segment_end(raw, 0)]));
    }
    assert(raw.take(segment_end(raw, 0)) =~= raw);
    assert forall|i: int| 0 <= i < raw.len() implies key_chars()(#[trigger] raw[i]) by {
        assert(is_hyphenated_char(raw[i]));
    }
    lemma_filter_keeps_all(raw, key_chars());
}

/// The record key of an entity: its identifier under its collection. The
/// key reads back as the identifier.
pub fn create_thing_from_id(collection: Collection, id: &EntityId) -> (thing: (String, String))
    ensures
        thing.0@ == collection.name(),
        thing.1@ == id.text(),
        parsed_id(record_key_text(thing.1@)) == Some(*id),
{
    proof {
        lemma_identifier_is_its_key(id.value);
    }
    (collection.to_string(), id.to_string())
}

/// Reads the identifier out of a record key as the store writes it.
pub fn entity_id(raw: &str) -> (r: Result<EntityId, CoreError>)
    ensures
        match r {
            Ok(id) => parsed_id(record_key_text(raw@)) == Some(id),
            Err(e) => {
                &&& parsed_id(record_key_text(raw@)) is None
                &&& e is InvalidId
                &&& e->InvalidId_0@ == record_key_text(raw@)
            },
        },
{
    let key = create_string_from_id(raw);
    let parsed = EntityId::parse_str(key.as_str());
    identified(parsed, key)
}

/// What a parsed key comes to: the identifier, or the error that names the
/// key.
pub fn identified(parsed: Option<EntityId>, key: String) -> (r: Result<EntityId, CoreError>)
    ensures
        r == match parsed {
            Some(id) => Ok::<EntityId, CoreError>(id),
            None => Err::<EntityId, CoreError>(CoreError::InvalidId(key)),
        },
{
    match parsed {
        Some(id) => Ok(id),
        None => Err(CoreError::InvalidId(key)),
    }
}

/// What `time::OffsetDateTime::parse` makes of a text under the default
/// ISO 8601 description: the instant that it reads, or nothing where it
/// reports an error.
pub uninterp spec fn parsed_date_time(text: Seq<char>) -> Option<time::OffsetDateTime>;

/// Calls `time::OffsetDateTime::parse` with `Iso8601::DEFAULT`. Nothing is
/// claimed about which texts parse: the result is only given its name.
#[verifier::external_body]
fn parse_iso8601(text: &str) -> (r: Option<time::OffsetDateTime>)
    ensures
        r == parsed_date_time(text@),
{
    time::OffsetDateTime::parse(text, &time::format_description::well_known::Iso8601::DEFAULT).ok()
}

/// The message that names a text that is no date.
pub open spec fn date_error_text(text: Seq<char>) -> Seq<char> {
    "expected a string containing a ISO8601 date, found "@ + text
}

/// What a parsed date comes to: the instant, or the error that names the
/// text.
pub fn date_time_from(parsed: Option<time::OffsetDateTime>, text: &str) -> (r: Result<
    time::OffsetDateTime,
    CoreError,
>)
    ensures
        match r {
            Ok(at) => parsed == Some(at),
            Err(e) => parsed is None && e is Database && e->Database_0@ == date_error_text(text@),
        },
{
    match parsed {
        Some(at) => Ok(at),
        None => {
            let mut message = String::from_str(
                "expected a string containing a ISO8601 date, found ",
            );
            message.append(text);
            Err(CoreError::Database(message))
        },
    }
}

/// Reads an instant that the store wrote as an ISO 8601 text.
pub fn deserialize_date_time(text: &str) -> (r: Result<time::OffsetDateTime, CoreError>)
    ensures
        match r {
            Ok(at) => parsed_date_time(text@) == Some(at),
            Err(e) => parsed_date_time(text@) is None && e is Database && e->Database_0@
                == date_error_text(text@),
        },
{
    date_time_from(parse_iso8601(text), text)
}

/// Reads an instant that the store may have left out: no text is no
/// instant, and a text must be an ISO 8601 date.
pub fn deserialize_optional_date_time(text: Option<&str>) -> (r: Result<
    Option<time::OffsetDateTime>,
    CoreError,
>)
    ensures
        match r {
            Ok(None) => text is None,
            Ok(Some(at)) => text is Some && parsed_date_time(text.unwrap()@) == Some(at),
            Err(e) => text is Some && parsed_date_time(text.unwrap()@) is None && e is Database
                && e->Database_0@ == date_error_text(text.unwrap()@),
        },
{
    match text {
        None => Ok(None),
        Some(text) => match deserialize_date_time(text) {
            Ok(at) => Ok(Some(at)),
            Err(e) => Err(e),
        },
    }
}

/// The identifier that a record key carries, if it carries one.
pub open spec fn key_id(raw: String) -> Option<EntityId> {
    parsed_id(record_key_text(raw@))
}

impl Listing {
    /// The listing that the store's record stands for, given its identifier
    /// and that of its category.
    pub open spec fn of_entity(
        id: EntityId,
        category_id: EntityId,
        entity: DatabaseEntityListing,
    ) -> Listing {
        Listing {
            id,
            category_id,
            title: entity.title,
            description: entity.description,
            price: entity.price,
            image_url: entity.image_url,
            other_images: entity.other_images,
            published: entity.active,
            negotiable: entity.negotiable,
            created: entity.created,
            expires: entity.expires,
            updated: entity.updated,
            deleted: entity.deleted,
        }
    }

    /// The listing that the store's record stands for, if both keys in the
    /// record carry an identifier: its own and that of its category.
    pub open spec fn read(entity: DatabaseEntityListing) -> Option<Listing> {
        match (key_id(entity.id), key_id(entity.category_id)) {
            (Some(id), Some(category_id)) => Some(Listing::of_entity(id, category_id, entity)),
            _ => None,
        }
    }

    /// The first key of the record that carries no identifier, unwrapped:
    /// its own comes first, then that of its category.
    pub open spec fn invalid_key(entity: DatabaseEntityListing) -> Seq<char> {
        if key_id(entity.id) is None {
            record_key_text(entity.id@)
        } else {
            record_key_text(entity.category_id@)
        }
    }

    /// Makes the listing that the store's record stands for, given its
    /// identifier and that of its category.
    pub fn with_id(id: EntityId, category_id: EntityId, entity: DatabaseEntityListing) -> (listing:
        Listing)
        ensures
            listing == Listing::of_entity(id, category_id, entity),
    {
        Listing {
            id,
            category_id,
            title: entity.title,
            description: entity.description,
            price: entity.price,
            image_url: entity.image_url,
            other_images: entity.other_images,
            published: entity.active,
            negotiable: entity.negotiable,
            created: entity.created,
            expires: entity.expires,
            updated: entity.updated,
            deleted: entity.deleted,
        }
    }

    /// Turns the store's record into a listing. Both keys in the record
    /// must carry an identifier; the error names the first that does not.
    pub fn try_from(entity: DatabaseEntityListing) -> (r: Result<Listing, CoreError>)
        ensures
            match r {
                Ok(listing) => Listing::read(entity) == Some(listing),
                Err(e) => {
                    &&& Listing::read(entity) is None
                    &&& e is InvalidId
                    &&& e->InvalidId_0@ == Listing::invalid_key(entity)
                },
            },
    {
        let id = match entity_id(entity.id.as_str()) {
            Ok(id) => id,
            Err(e) => {
                return Err(e);
            },
        };
        let category_id = match entity_id(entity.category_id.as_str()) {
            Ok(id) => id,
            Err(e) => {
                return Err(e);
            },
        };
        Ok(Listing::with_id(id, category_id, entity))
    }
}

impl Tag {
    /// Turns the store's record into a tag. The record's key must carry an
    /// identifier; the error names a key that does not.
    pub fn try_from(entity: DatabaseEntityTag) -> (r: Result<Tag, CoreError>)
        ensures
            match r {
                Ok(tag) => key_id(entity.id) == Some(tag.id) && tag.name == entity.name,
                Err(e) => {
                    &&& key_id(entity.id) is None
                    &&& e is InvalidId
                    &&& e->InvalidId_0@ == record_key_text(entity.id@)
                },
            },
    {
        match entity_id(entity.id.as_str()) {
            Ok(id) => Ok(Tag { id, name: entity.name }),
            Err(e) => Err(e),
        }
    }
}

impl ListingCondition {
    /// Turns the store's record into a listing condition. The record's key
    /// must carry an identifier; the error names a key that does not.
    pub fn try_from(entity: DatabaseEntityListingCondition) -> (r: Result<
        ListingCondition,
        CoreError,
    >)
        ensures
            match r {
                Ok(condition) => key_id(entity.id) == Some(condition.id) && condition.condition
                    == entity.condition,
                Err(e) => {
                    &&& key_id(entity.id) is None
                    &&& e is InvalidId
                    &&& e->InvalidId_0@ == record_key_text(entity.id@)
                },
            },
    {
        match entity_id(entity.id.as_str()) {
            Ok(id) => Ok(ListingCondition { id, condition: entity.condition }),
            Err(e) => Err(e),
        }
    }
}

/// Where the first key from `from` on that carries no identifier stands,
/// or the number of keys if all carry one.
pub open spec fn first_invalid_from(keys: Seq<String>, from: int) -> int
    decreases keys.len() - from,
{
    if from < 0 || from >= keys.len() {
        keys.len() as int
    } else if key_id(keys[from]) is None {
        from
    } else {
        first_invalid_from(keys, from + 1)
    }
}

/// The identifiers that `keys` carry, in their order.
pub open spec fn key_ids(keys: Seq<String>) -> Seq<EntityId> {
    Seq::new(keys.len(), |i: int| key_id(keys[i]).unwrap())
}

/// What `first_invalid_from` finds is the first key from `from` on without
/// an identifier.
pub proof fn lemma_first_invalid(keys: Seq<String>, from: int)
    requires
        0 <= from <= keys.len(),
    ensures
        from <= first_invalid_from(keys, from) <= keys.len(),
        first_invalid_from(keys, from) < keys.len() ==> key_id(
            keys[first_invalid_from(keys, from)],
        ) is None,
        forall|k: int| from <= k < first_invalid_from(keys, from) ==> key_id(#[trigger] keys[k]) is Some,
    decreases keys.len() - from,
{
    if from < keys.len() && key_id(keys[from]) is Some {
        lemma_first_invalid(keys, from + 1);
    }
}

/// Reads the identifiers out of record keys. All keys must carry one; the
/// error names the first that does not.
pub fn entity_ids(keys: &Vec<String>) -> (r: Result<Vec<EntityId>, CoreError>)
    ensures
        match r {
            Ok(ids) => first_invalid_from(keys@, 0) == keys@.len() && ids@ == key_ids(keys@),
            Err(e) => {
                &&& first_invalid_from(keys@, 0) < keys@.len()
                &&& e is InvalidId
                &&& e->InvalidId_0@ == record_key_text(keys@[first_invalid_from(keys@, 0)]@)
            },
        },
{
    let mut ids: Vec<EntityId> = Vec::new();
    let mut i: usize = 0;
    while i < keys.len()
        invariant
            0 <= i <= keys@.len(),
            ids@.len() == i,
            forall|k: int| 0 <= k < i ==> key_id(keys@[k]) == Some(#[trigger] ids@[k]),
            first_invalid_from(keys@, 0) == first_invalid_from(keys@, i as int),
        decreases keys@.len() - i,
    {
        match entity_id(keys[i].as_str()) {
            Ok(id) => {
                ids.push(id);
            },
            Err(e) => {
                return Err(e);
            },
        }
        i += 1;
    }
    assert(ids@ =~= key_ids(keys@));
    Ok(ids)
}

/// The keys of the categories below the one that `entity` stands for.
pub open spec fn sub_keys(entity: DatabaseEntity) -> Seq<String> {
    match entity.sub_categories {
        Some(keys) => keys@,
        None => Seq::empty(),
    }
}

/// Whether every key of `entity` carries an identifier: its own, those of
/// the categories below it, and that of the category above it.
pub open spec fn keys_are_valid(entity: DatabaseEntity) -> bool {
    &&& key_id(entity.id) is Some
    &&& first_invalid_from(sub_keys(entity), 0) == sub_keys(entity).len()
    &&& (entity.parent_id matches Some(parent) ==> key_id(parent) is Some)
}

/// The first key of `entity` that carries no identifier, unwrapped: its
/// own comes first, then those of the categories below it, then that of the
/// category above it.
pub open spec fn invalid_key(entity: DatabaseEntity) -> Seq<char> {
    if key_id(entity.id) is None {
        record_key_text(entity.id@)
    } else if first_invalid_from(sub_keys(entity), 0) < sub_keys(entity).len() {
        record_key_text(sub_keys(entity)[first_invalid_from(sub_keys(entity), 0)]@)
    } else {
        record_key_text(entity.parent_id.unwrap()@)
    }
}

/// Every key of a record is valid exactly when each of them carries an
/// identifier: the record's own, each of the categories below it, and that
/// of the category above it, where there is one.
pub proof fn lemma_keys_are_valid(entity: DatabaseEntity)
    ensures
        keys_are_valid(entity) <==> {
            &&& key_id(entity.id) is Some
            &&& forall|i: int|
                0 <= i < sub_keys(entity).len() ==> key_id(#[trigger] sub_keys(entity)[i]) is Some
            &&& (entity.parent_id matches Some(parent) ==> key_id(parent) is Some)
        },
{
    lemma_first_invalid(sub_keys(entity), 0);
}

impl Category {
    /// Whether this category is what the store's record stands for.
    pub open spec fn is_entity(self, entity: DatabaseEntity) -> bool {
        &&& key_id(entity.id) == Some(self.id)
        &&& self.name == entity.name
        &&& self.image_url == entity.image_url
        &&& self.sub_categories is None <==> sub_keys(entity).len() == 0
        &&& (self.sub_categories matches Some(ids) ==> ids@ == key_ids(sub_keys(entity)))
        &&& self.parent_id == match entity.parent_id {
            Some(parent) => key_id(parent),
            None => None,
        }
    }

    /// Turns the store's record into a category. Every key in the record
    /// must carry an identifier; the error names the first that does not.
    /// A record without categories below it, or with an empty list of them,
    /// becomes a category whose list is absent.
    pub fn try_from(entity: DatabaseEntity) -> (r: Result<Category, CoreError>)
        ensures
            r is Ok <==> keys_are_valid(entity),
            match r {
                Ok(category) => category.is_entity(entity),
                Err(e) => e is InvalidId && e->InvalidId_0@ == invalid_key(entity),
            },
    {
        let id = match entity_id(entity.id.as_str()) {
            Ok(id) => id,
            Err(e) => {
                return Err(e);
            },
        };
        let sub_categories = match &entity.sub_categories {
            Some(keys) => match entity_ids(keys) {
                Ok(ids) => ids,
                Err(e) => {
                    return Err(e);
                },
            },
            None => Vec::new(),
        };
        let parent_id = match &entity.parent_id {
            Some(parent) => match entity_id(parent.as_str()) {
                Ok(id) => Some(id),
                Err(e) => {
                    return Err(e);
                },
            },
            None => None,
        };
        let sub_categories = if sub_categories.len() == 0 {
            None
        } else {
            Some(sub_categories)
        };
        Ok(Category { id, name: entity.name, sub_categories, image_url: entity.image_url, parent_id })
    }
}

} // verus!
