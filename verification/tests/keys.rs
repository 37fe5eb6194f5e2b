use listings_api::cache_keys::CacheKey;
use listings_api::collections::Collection;
use listings_api::config::{
    clustered_from, settings_from, Apis, ClientError, ConfigError, DatabaseCredentials,
    RedisConfig, SchemaError, Settings,
};
use listings_api::error::CoreError;
use listings_api::file_storage::{object_path, stored_object, S3Config};
use listings_api::graphql_requests::{
    categoryById, find_category_by_id, find_user_by_id, userById, ResponseData,
};
use listings_api::cache::ReadError;
use listings_api::ident::EntityId;
use listings_api::pagination::PageError;
use listings_api::search::SearchError;
use listings_api::validation::{ReferenceKind, TransportError, ValidationError};

const A: u128 = 0x0190_5b1c_3f2a_7c4d_9e8f_0123_4567_89ab;
const A_TEXT: &str = "01905b1c-3f2a-7c4d-9e8f-0123456789ab";

#[test]
fn cache_key_texts() {
    let id = EntityId::from_u128(A);
    assert_eq!(CacheKey::AllListings.to_string(), "listings:all");
    assert_eq!(CacheKey::AllTags.to_string(), "listings:all_tags");
    assert_eq!(CacheKey::AllConditions.to_string(), "listings:all_conditions");
    assert_eq!(
        CacheKey::UserListing { user_id: &id }.to_string(),
        format!("listings:from_user={A_TEXT}")
    );
    assert_eq!(CacheKey::Listing { id: &id }.to_string(), format!("listings:id={A_TEXT}"));
    assert_eq!(CacheKey::Tag { id: &id }.to_string(), format!("listings:tag={A_TEXT}"));
}

#[test]
fn equal_queries_have_equal_keys() {
    let a = EntityId::from_u128(A);
    let b = EntityId::parse_str(A_TEXT).unwrap();
    assert_eq!(
        CacheKey::Listing { id: &a }.to_string(),
        CacheKey::Listing { id: &b }.to_string()
    );
    let other = EntityId::from_u128(A + 1);
    assert_ne!(
        CacheKey::Listing { id: &a }.to_string(),
        CacheKey::Listing { id: &other }.to_string()
    );
    assert_ne!(
        CacheKey::Listing { id: &a }.to_string(),
        CacheKey::Tag { id: &a }.to_string()
    );
}

#[test]
fn collection_names() {
    let all = [
        (Collection::Listing, "listing"),
        (Collection::User, "user"),
        (Collection::Tag, "tag"),
        (Collection::ListingCondition, "listing_condition"),
        (Collection::Category, "category"),
    ];
    for (collection, name) in all {
        assert_eq!(collection.as_str(), name);
        assert_eq!(collection.to_string(), name);
        assert_eq!(Collection::from_name(name), Some(collection));
    }
    assert_eq!(Collection::from_name("user_id"), None);
    assert_eq!(Collection::from_name(""), None);
    assert_eq!(Collection::from_name("Listing"), None);
    assert_eq!(Collection::from_name("listing "), None);
    assert_eq!(Collection::from_name("tags"), None);
    assert_eq!(Collection::from_name("tab"), None);
    assert_eq!(Collection::from_name("usér"), None);
}

#[test]
fn error_messages() {
    let id = EntityId::from_u128(A);
    assert_eq!(CoreError::Database("boom".to_string()).to_string(), "boom");
    assert_eq!(CoreError::Other("other".to_string()).to_string(), "other");
    assert_eq!(CoreError::Transport("unreachable host".to_string()).to_string(), "unreachable host");
    assert_eq!(
        CoreError::InvalidId("c1".to_string()).to_string(),
        "invalid identifier: c1"
    );
    assert_eq!(CoreError::InvalidArgument.to_string(), "page size out of range");
    assert_eq!(CoreError::InvalidCursor.to_string(), "invalid cursor");
    assert_eq!(
        CoreError::MissingReference { kind: ReferenceKind::Category, id }.to_string(),
        format!("category: {A_TEXT} does not exist")
    );
    assert_eq!(
        CoreError::MissingReference { kind: ReferenceKind::Owner, id }.to_string(),
        format!("user: {A_TEXT} does not exist")
    );
    assert_eq!(
        CoreError::MissingReference { kind: ReferenceKind::Tag, id }.to_string(),
        format!("tag: {A_TEXT} does not exist")
    );
    assert_eq!(
        CoreError::IndexUnavailable.to_string(),
        "items could not be indexed for search"
    );
    assert_eq!(
        CoreError::SearchNotConfigured.to_string(),
        "no client configured for search"
    );
    assert_eq!(CoreError::Unreachable.to_string(), "unreachable");
}

#[test]
fn errors_of_the_parts_become_errors_of_the_core() {
    let id = EntityId::from_u128(A);
    assert_eq!(CoreError::from_page(PageError::InvalidArgument), CoreError::InvalidArgument);
    assert_eq!(CoreError::from_page(PageError::InvalidCursor), CoreError::InvalidCursor);
    assert_eq!(
        CoreError::from_validation(ValidationError::MissingReference {
            kind: ReferenceKind::Tag,
            id
        }),
        CoreError::MissingReference { kind: ReferenceKind::Tag, id }
    );
    assert_eq!(
        CoreError::from_validation(ValidationError::Transport(TransportError {
            message: "down".to_string()
        })),
        CoreError::Transport("down".to_string())
    );
    assert_eq!(
        CoreError::from_validation(ValidationError::Incomplete),
        CoreError::Unreachable
    );
    assert_eq!(
        CoreError::from_search(SearchError::SearchNotConfigured),
        Some(CoreError::SearchNotConfigured)
    );
    assert_eq!(
        CoreError::from_search(SearchError::IndexUnavailable),
        Some(CoreError::IndexUnavailable)
    );
    assert_eq!(CoreError::from_search(SearchError::OutOfTurn), Some(CoreError::Unreachable));
    assert_eq!(CoreError::from_search(SearchError::FetchFailed), None);
    assert_eq!(CoreError::from_search(SearchError::QueryFailed), None);
    assert_eq!(CoreError::from_read(ReadError::OutOfTurn), Some(CoreError::Unreachable));
    assert_eq!(CoreError::from_read(ReadError::FetchFailed), None);
}

#[test]
fn failures_are_reported_with_the_error_that_names_them() {
    let held = CoreError::Database("store is down".to_string());
    assert_eq!(
        CoreError::failed_search(SearchError::FetchFailed, Some(held.clone())),
        held
    );
    assert_eq!(
        CoreError::failed_search(SearchError::QueryFailed, None),
        CoreError::Unreachable
    );
    assert_eq!(
        CoreError::failed_search(SearchError::IndexUnavailable, Some(held.clone())),
        CoreError::IndexUnavailable
    );
    assert_eq!(
        CoreError::failed_search(SearchError::SearchNotConfigured, None),
        CoreError::SearchNotConfigured
    );
    assert_eq!(CoreError::failed_read(ReadError::FetchFailed, Some(held.clone())), held);
    assert_eq!(CoreError::failed_read(ReadError::FetchFailed, None), CoreError::Unreachable);
    assert_eq!(
        CoreError::failed_read(ReadError::OutOfTurn, Some(held)),
        CoreError::Unreachable
    );
}

#[test]
fn stored_objects_are_named_by_their_identifier() {
    let id = EntityId::from_u128(A);
    assert_eq!(object_path(&id), format!("/{A_TEXT}"));
    assert_eq!(stored_object(&id), (A_TEXT.to_string(), A_TEXT.to_string()));
}

#[test]
fn answers_of_the_sibling_services() {
    let id = EntityId::from_u128(A);
    let found = ResponseData { data: Some(Some(id)) };
    let absent = ResponseData { data: Some(None) };
    let empty = ResponseData { data: None };
    assert!(categoryById::located(&found));
    assert!(!categoryById::located(&absent));
    assert!(!categoryById::located(&empty));
    assert!(userById::located(&found));
    assert!(!userById::located(&absent));
    assert!(!userById::located(&empty));
    assert_eq!(find_category_by_id(Ok(found)), Ok(true));
    assert_eq!(find_category_by_id(Ok(absent)), Ok(false));
    assert_eq!(find_user_by_id(Ok(empty)), Ok(false));
    assert_eq!(find_user_by_id(Ok(found)), Ok(true));
    assert_eq!(
        find_category_by_id(Err("timed out".to_string())),
        Err(TransportError { message: "timed out".to_string() })
    );
    assert_eq!(
        find_user_by_id(Err("refused".to_string())),
        Err(TransportError { message: "refused".to_string() })
    );
    assert_eq!(categoryById::OPERATION_NAME, "categoryById");
    assert_eq!(userById::OPERATION_NAME, "userById");
}

#[test]
fn configuration_values() {
    let redis = RedisConfig { redis_dsn: "redis://localhost:6379", clustered: false, pool_size: 10, ttl: 5000 };
    assert_eq!(RedisConfig::ttl_of(Some(redis)), Some(5000));
    assert_eq!(RedisConfig::ttl_of(None), None);
    let db = DatabaseCredentials { db_dsn: "localhost:8000", db_user: "u", db_pass: "p", db_ns: "ns", db: "d" };
    assert_eq!(db.db_dsn, "localhost:8000");
    let apis = Apis { users: "http://localhost:3001", categories: "http://localhost:3000" };
    assert_eq!(apis.categories, "http://localhost:3000");
    let s3 = S3Config {
        bucket_name: "sh-listings".to_string(),
        region: "eu-central-1".to_string(),
        access_key: None,
        secret_key: None,
        endpoint: "http://localhost:19000".to_string(),
    };
    assert_eq!(s3.clone().bucket_name, "sh-listings");
    assert_eq!(
        SchemaError::from_client(ClientError::Unknown),
        SchemaError::DatabaseError(ClientError::Unknown)
    );
}

#[test]
fn settings_fall_back_where_nothing_is_given() {
    assert_eq!(
        settings_from(None, None, None),
        Ok(Settings { port: 3001, pool_size: 10, cache_ttl: 5000 })
    );
    assert_eq!(
        settings_from(Some("8080"), Some("32"), Some("250")),
        Ok(Settings { port: 8080, pool_size: 32, cache_ttl: 250 })
    );
}

#[test]
fn unreadable_pool_size_and_lifetime_fall_back() {
    assert_eq!(
        settings_from(Some("1"), Some("many"), Some("")),
        Ok(Settings { port: 1, pool_size: 10, cache_ttl: 5000 })
    );
    assert_eq!(
        settings_from(None, Some("65536"), Some("18446744073709551616")),
        Ok(Settings { port: 3001, pool_size: 10, cache_ttl: 5000 })
    );
    assert_eq!(
        settings_from(None, Some("65535"), Some("18446744073709551615")),
        Ok(Settings { port: 3001, pool_size: 65535, cache_ttl: u64::MAX })
    );
    assert_eq!(
        settings_from(None, Some("-1"), Some(" 5")),
        Ok(Settings { port: 3001, pool_size: 10, cache_ttl: 5000 })
    );
}

#[test]
fn port_must_be_a_port() {
    for bad in ["", "+", "-", "-1", "65536", "80 ", " 80", "8_0", "0x50", "eighty", "٨٠", "8.0"] {
        assert_eq!(
            settings_from(Some(bad), None, None),
            Err(ConfigError::InvalidPort(bad.to_string())),
            "port={bad:?}"
        );
    }
    for (text, port) in [
        ("0", 0u16),
        ("80", 80),
        ("+80", 80),
        ("0080", 80),
        ("65535", 65535),
        ("+065535", 65535),
        ("000000000000000000000000000000007", 7),
    ] {
        assert_eq!(
            settings_from(Some(text), None, None),
            Ok(Settings { port, pool_size: 10, cache_ttl: 5000 }),
            "port={text:?}"
        );
    }
}

#[test]
fn cache_is_a_cluster_only_where_the_text_says_true() {
    assert!(clustered_from(Some("true")));
    assert!(!clustered_from(Some("false")));
    assert!(!clustered_from(Some("True")));
    assert!(!clustered_from(Some("1")));
    assert!(!clustered_from(Some("")));
    assert!(!clustered_from(None));
}
