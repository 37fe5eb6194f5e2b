use listings_api::collections::Collection;
use listings_api::entity::{
    create_string_from_id, create_thing_from_id, date_time_from, deserialize_date_time,
    deserialize_optional_date_time, entity_id, entity_ids, identified,
    DatabaseEntity, DatabaseEntityListing, DatabaseEntityListingCondition, DatabaseEntityTag,
};
use listings_api::error::CoreError;
use listings_api::ident::EntityId;
use listings_api::model::{Category, Listing, ListingCondition, Tag};
use listings_api::query::{
    conditions_from, field_cache_key, listing_from, listings_from, tag_from, tags_from,
};
use listings_api::cache_keys::CacheKey;

const A: u128 = 0x0190_5b1c_3f2a_7c4d_9e8f_0123_4567_89ab;
const A_TEXT: &str = "01905b1c-3f2a-7c4d-9e8f-0123456789ab";
const B: u128 = 0xa1a2_a3a4_b1b2_c1c2_d1d2_d3d4_d5d6_d7d8;
const B_TEXT: &str = "a1a2a3a4-b1b2-c1c2-d1d2-d3d4d5d6d7d8";

fn record(key: &str) -> DatabaseEntityListing {
    record_in(key, B_TEXT)
}

fn record_in(key: &str, category: &str) -> DatabaseEntityListing {
    DatabaseEntityListing {
        id: key.to_string(),
        category_id: category.to_string(),
        title: "chair".to_string(),
        description: "four legs".to_string(),
        price: rust_decimal::Decimal::new(1999, 2),
        image_url: "https://example.org/chair.png".to_string(),
        other_images: vec!["back.png".to_string()],
        active: true,
        negotiable: false,
        expires: Some(time::OffsetDateTime::from_unix_timestamp(1_700_000_000).unwrap()),
        created: time::OffsetDateTime::UNIX_EPOCH,
        updated: time::OffsetDateTime::from_unix_timestamp(1_600_000_000).unwrap(),
        deleted: None,
    }
}

#[test]
fn identifier_text_is_hyphenated_lower_case() {
    assert_eq!(EntityId::from_u128(A).to_string(), A_TEXT);
    assert_eq!(EntityId::from_u128(B).to_string(), B_TEXT);
    assert_eq!(
        EntityId::from_u128(0).to_string(),
        "00000000-0000-0000-0000-000000000000"
    );
    assert_eq!(
        EntityId::from_u128(u128::MAX).to_string(),
        "ffffffff-ffff-ffff-ffff-ffffffffffff"
    );
    assert_eq!(
        EntityId::from_u128(0x1f).to_string(),
        "00000000-0000-0000-0000-00000000001f"
    );
    assert_eq!(EntityId::from_u128(A).as_u128(), A);
}

#[test]
fn identifier_parses_from_its_text() {
    assert_eq!(EntityId::parse_str(A_TEXT), Some(EntityId::from_u128(A)));
    assert_eq!(EntityId::parse_str(B_TEXT), Some(EntityId::from_u128(B)));
    assert_eq!(
        EntityId::parse_str("A1A2A3A4-B1B2-C1C2-D1D2-D3D4D5D6D7D8"),
        Some(EntityId::from_u128(B))
    );
    assert_eq!(
        EntityId::parse_str("a1a2a3a4b1b2c1c2d1d2d3d4d5d6d7d8"),
        Some(EntityId::from_u128(B))
    );
    assert_eq!(EntityId::parse_str(""), None);
    assert_eq!(EntityId::parse_str("c1"), None);
    assert_eq!(EntityId::parse_str("a1a2a3a4-b1b2-c1c2-d1d2-d3d4d5d6d7dg"), None);
    for n in [0u128, 1, A, B, u128::MAX] {
        let id = EntityId::from_u128(n);
        assert_eq!(EntityId::parse_str(&id.to_string()), Some(id));
    }
}

#[test]
fn record_key_is_unwrapped() {
    assert_eq!(create_string_from_id(A_TEXT), A_TEXT);
    assert_eq!(create_string_from_id(&format!("\u{27e8}{A_TEXT}\u{27e9}")), A_TEXT);
    assert_eq!(create_string_from_id(&format!("{A_TEXT}:rest:more")), A_TEXT);
    assert_eq!(create_string_from_id("listing:abc"), "listing");
    assert_eq!(create_string_from_id(":abc"), "");
    assert_eq!(create_string_from_id(""), "");
    assert_eq!(create_string_from_id("a\u{27e8}b\u{27e9}c:\u{27e8}d"), "abc");
    assert_eq!(create_string_from_id("\u{27e8}\u{27e9}"), "");
    assert_eq!(create_string_from_id("äöü⟨ß⟩"), "äöüß");
}

#[test]
fn record_key_of_an_entity() {
    let id = EntityId::from_u128(A);
    assert_eq!(
        create_thing_from_id(Collection::Listing, &id),
        ("listing".to_string(), A_TEXT.to_string())
    );
    assert_eq!(
        create_thing_from_id(Collection::ListingCondition, &id),
        ("listing_condition".to_string(), A_TEXT.to_string())
    );
}

#[test]
fn identifier_of_a_record_key() {
    assert_eq!(
        entity_id(&format!("\u{27e8}{A_TEXT}\u{27e9}")),
        Ok(EntityId::from_u128(A))
    );
    assert_eq!(
        entity_id("\u{27e8}nope\u{27e9}:x"),
        Err(CoreError::InvalidId("nope".to_string()))
    );
    assert_eq!(
        identified(Some(EntityId::from_u128(3)), "k".to_string()),
        Ok(EntityId::from_u128(3))
    );
    assert_eq!(
        identified(None, "k".to_string()),
        Err(CoreError::InvalidId("k".to_string()))
    );
}

#[test]
fn identifiers_of_record_keys() {
    let keys = vec![A_TEXT.to_string(), format!("\u{27e8}{B_TEXT}\u{27e9}")];
    assert_eq!(
        entity_ids(&keys),
        Ok(vec![EntityId::from_u128(A), EntityId::from_u128(B)])
    );
    let keys = vec![A_TEXT.to_string(), "bad1".to_string(), "bad2".to_string()];
    assert_eq!(entity_ids(&keys), Err(CoreError::InvalidId("bad1".to_string())));
    assert_eq!(entity_ids(&vec![]), Ok(vec![]));
}

#[test]
fn listing_from_its_record() {
    let listing = Listing::try_from(record(&format!("\u{27e8}{A_TEXT}\u{27e9}"))).unwrap();
    assert_eq!(
        listing,
        Listing {
            id: EntityId::from_u128(A),
            category_id: EntityId::from_u128(B),
            title: "chair".to_string(),
            description: "four legs".to_string(),
            price: rust_decimal::Decimal::new(1999, 2),
            image_url: "https://example.org/chair.png".to_string(),
            other_images: vec!["back.png".to_string()],
            published: true,
            negotiable: false,
            created: time::OffsetDateTime::UNIX_EPOCH,
            expires: Some(time::OffsetDateTime::from_unix_timestamp(1_700_000_000).unwrap()),
            updated: time::OffsetDateTime::from_unix_timestamp(1_600_000_000).unwrap(),
            deleted: None,
        }
    );
    let stamped = Listing::with_id(
        EntityId::from_u128(B),
        EntityId::from_u128(A),
        record_in("whatever", "wherever"),
    );
    assert_eq!(stamped.id, EntityId::from_u128(B));
    assert_eq!(stamped.category_id, EntityId::from_u128(A));
    assert_eq!(
        Listing::try_from(record("not-an-id")),
        Err(CoreError::InvalidId("not-an-id".to_string()))
    );
    assert_eq!(
        Listing::try_from(record_in("not-an-id", "no-category")),
        Err(CoreError::InvalidId("not-an-id".to_string()))
    );
    assert_eq!(
        Listing::try_from(record_in(A_TEXT, "no-category:x")),
        Err(CoreError::InvalidId("no-category".to_string()))
    );
    let filed = Listing::try_from(record_in(A_TEXT, &format!("\u{27e8}{A_TEXT}\u{27e9}"))).unwrap();
    assert_eq!(filed.category_id, EntityId::from_u128(A));
}

#[test]
fn tag_and_condition_from_their_records() {
    let tag = Tag::try_from(DatabaseEntityTag { id: A_TEXT.to_string(), name: "vintage".to_string() });
    assert_eq!(tag, Ok(Tag { id: EntityId::from_u128(A), name: "vintage".to_string() }));
    let tag = Tag::try_from(DatabaseEntityTag { id: "t".to_string(), name: "vintage".to_string() });
    assert_eq!(tag, Err(CoreError::InvalidId("t".to_string())));
    let condition = ListingCondition::try_from(DatabaseEntityListingCondition {
        id: B_TEXT.to_string(),
        condition: "used".to_string(),
    });
    assert_eq!(
        condition,
        Ok(ListingCondition { id: EntityId::from_u128(B), condition: "used".to_string() })
    );
    let condition = ListingCondition::try_from(DatabaseEntityListingCondition {
        id: "".to_string(),
        condition: "used".to_string(),
    });
    assert_eq!(condition, Err(CoreError::InvalidId("".to_string())));
}

#[test]
fn category_from_its_record() {
    let entity = DatabaseEntity {
        id: format!("\u{27e8}{A_TEXT}\u{27e9}"),
        name: "furniture".to_string(),
        sub_categories: Some(vec![B_TEXT.to_string()]),
        image_url: Some("f.png".to_string()),
        parent_id: Some(B_TEXT.to_string()),
    };
    assert_eq!(
        Category::try_from(entity),
        Ok(Category {
            id: EntityId::from_u128(A),
            name: "furniture".to_string(),
            sub_categories: Some(vec![EntityId::from_u128(B)]),
            image_url: Some("f.png".to_string()),
            parent_id: Some(EntityId::from_u128(B)),
        })
    );
}

#[test]
fn category_without_sub_categories() {
    for subs in [None, Some(vec![])] {
        let entity = DatabaseEntity {
            id: A_TEXT.to_string(),
            name: "furniture".to_string(),
            sub_categories: subs,
            image_url: None,
            parent_id: None,
        };
        assert_eq!(
            Category::try_from(entity),
            Ok(Category {
                id: EntityId::from_u128(A),
                name: "furniture".to_string(),
                sub_categories: None,
                image_url: None,
                parent_id: None,
            })
        );
    }
}

#[test]
fn category_names_the_first_bad_key() {
    let entity = |id: &str, subs: Vec<&str>, parent: Option<&str>| DatabaseEntity {
        id: id.to_string(),
        name: "n".to_string(),
        sub_categories: Some(subs.into_iter().map(String::from).collect()),
        image_url: None,
        parent_id: parent.map(String::from),
    };
    assert_eq!(
        Category::try_from(entity("bad-id", vec!["bad-sub"], Some("bad-parent"))),
        Err(CoreError::InvalidId("bad-id".to_string()))
    );
    assert_eq!(
        Category::try_from(entity(A_TEXT, vec![B_TEXT, "bad-sub", "worse"], Some("bad-parent"))),
        Err(CoreError::InvalidId("bad-sub".to_string()))
    );
    assert_eq!(
        Category::try_from(entity(A_TEXT, vec![B_TEXT], Some("bad-parent"))),
        Err(CoreError::InvalidId("bad-parent".to_string()))
    );
}

#[test]
fn records_become_entities_in_order() {
    let listings = listings_from(vec![record(A_TEXT), record(B_TEXT)]).unwrap();
    assert_eq!(listings.len(), 2);
    assert_eq!(listings[0].id, EntityId::from_u128(A));
    assert_eq!(listings[1].id, EntityId::from_u128(B));
    assert_eq!(listings[1].title, "chair");
    assert_eq!(
        listings_from(vec![record(A_TEXT), record("x"), record("y")]),
        Err(CoreError::InvalidId("x".to_string()))
    );
    assert_eq!(
        listings_from(vec![record(A_TEXT), record_in(B_TEXT, "c"), record("y")]),
        Err(CoreError::InvalidId("c".to_string()))
    );
    assert_eq!(listings_from(vec![]), Ok(vec![]));

    let tag = |id: &str, name: &str| DatabaseEntityTag { id: id.to_string(), name: name.to_string() };
    assert_eq!(
        tags_from(vec![tag(A_TEXT, "a"), tag(B_TEXT, "b")]),
        Ok(vec![
            Tag { id: EntityId::from_u128(A), name: "a".to_string() },
            Tag { id: EntityId::from_u128(B), name: "b".to_string() },
        ])
    );
    assert_eq!(
        tags_from(vec![tag("p", "a"), tag("q", "b")]),
        Err(CoreError::InvalidId("p".to_string()))
    );
    let condition = |id: &str| DatabaseEntityListingCondition {
        id: id.to_string(),
        condition: "new".to_string(),
    };
    assert_eq!(
        conditions_from(vec![condition(A_TEXT)]),
        Ok(vec![ListingCondition { id: EntityId::from_u128(A), condition: "new".to_string() }])
    );
    assert_eq!(
        conditions_from(vec![condition(A_TEXT), condition("z")]),
        Err(CoreError::InvalidId("z".to_string()))
    );
}

#[test]
fn read_by_identifier_hands_out_nothing_for_an_unreadable_record() {
    assert_eq!(listing_from(None), None);
    assert_eq!(listing_from(Some(record("x"))), None);
    assert_eq!(listing_from(Some(record_in(A_TEXT, "x"))), None);
    assert_eq!(
        listing_from(Some(record(A_TEXT))).map(|l| l.id),
        Some(EntityId::from_u128(A))
    );
    assert_eq!(tag_from(None), None);
    assert_eq!(
        tag_from(Some(DatabaseEntityTag { id: "x".to_string(), name: "n".to_string() })),
        None
    );
    assert_eq!(
        tag_from(Some(DatabaseEntityTag { id: B_TEXT.to_string(), name: "n".to_string() })),
        Some(Tag { id: EntityId::from_u128(B), name: "n".to_string() })
    );
}

#[test]
fn only_the_listings_of_a_user_are_cached_by_field() {
    let id = EntityId::from_u128(A);
    assert_eq!(
        field_cache_key(Collection::User, &id),
        Some(CacheKey::UserListing { user_id: &id })
    );
    assert_eq!(field_cache_key(Collection::Category, &id), None);
    assert_eq!(field_cache_key(Collection::Tag, &id), None);
    assert_eq!(field_cache_key(Collection::Listing, &id), None);
    assert_eq!(field_cache_key(Collection::ListingCondition, &id), None);
}

#[test]
fn dates_are_read_from_iso_8601() {
    let at = deserialize_date_time("2020-01-02T03:04:05Z").unwrap();
    assert_eq!(at.unix_timestamp(), 1_577_934_245);
    assert!(at.offset().is_utc());
    let at = deserialize_date_time("2020-01-02T03:04:05+01:00").unwrap();
    assert_eq!(at.unix_timestamp(), 1_577_930_645);
    assert_eq!(at.offset().whole_hours(), 1);
    assert_eq!(
        deserialize_date_time("yesterday"),
        Err(CoreError::Database(
            "expected a string containing a ISO8601 date, found yesterday".to_string()
        ))
    );
    assert!(deserialize_date_time("").is_err());
}

#[test]
fn optional_dates_may_be_absent() {
    assert_eq!(deserialize_optional_date_time(None), Ok(None));
    let at = deserialize_optional_date_time(Some("1970-01-01T00:00:00Z")).unwrap();
    assert_eq!(at, Some(time::OffsetDateTime::UNIX_EPOCH));
    assert_eq!(
        deserialize_optional_date_time(Some("soon")),
        Err(CoreError::Database(
            "expected a string containing a ISO8601 date, found soon".to_string()
        ))
    );
}

#[test]
fn parsed_date_or_the_error_that_names_the_text() {
    assert_eq!(
        date_time_from(Some(time::OffsetDateTime::UNIX_EPOCH), "x"),
        Ok(time::OffsetDateTime::UNIX_EPOCH)
    );
    assert_eq!(
        date_time_from(None, "x"),
        Err(CoreError::Database(
            "expected a string containing a ISO8601 date, found x".to_string()
        ))
    );
}

#[test]
fn identifier_survives_its_record_key() {
    for n in [0u128, 1, A, B, u128::MAX] {
        let id = EntityId::from_u128(n);
        let (_table, key) = create_thing_from_id(Collection::Listing, &id);
        assert_eq!(entity_id(&key), Ok(id));
        assert_eq!(create_string_from_id(&key), key);
    }
}
