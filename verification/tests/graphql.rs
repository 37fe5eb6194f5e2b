use listings_api::cache::{ReadAction, ReadError, ReadEvent};
use listings_api::error::CoreError;
use listings_api::graphql::{
    connection, CategoryChanged, CategoryMutation, CategoryQuery, CategorySubscription, FileInfo,
    ListingChanged, ListingConditionQuery, ListingMutation, ListingQuery, ListingSubscription,
    Mutation, SearchResult, Subscription, TagMutation, TagQuery, UploadMutation,
};
use listings_api::ident::EntityId;
use listings_api::model::{Category, Listing, ListingCondition, Tag};
use listings_api::mutation::MutationType;
use listings_api::pagination::{PageError, PageRequest};
use listings_api::query::{CollectionAction, CollectionEvent, CollectionRead, CollectionState};

fn id(n: u128) -> EntityId {
    EntityId::from_u128(n)
}

fn listing(n: u128) -> Listing {
    Listing {
        id: id(n),
        category_id: id(0xc1),
        title: format!("listing {n}"),
        description: String::new(),
        price: rust_decimal::Decimal::new(100, 0),
        image_url: String::new(),
        other_images: vec![],
        published: true,
        negotiable: false,
        created: time::OffsetDateTime::UNIX_EPOCH,
        expires: None,
        updated: time::OffsetDateTime::UNIX_EPOCH,
        deleted: None,
    }
}

fn category(n: u128, name: &str) -> Category {
    Category { id: id(n), name: name.to_string(), sub_categories: None, image_url: None, parent_id: None }
}

fn tag(n: u128) -> Tag {
    Tag { id: id(n), name: format!("tag {n}") }
}

fn request(
    after: Option<&str>,
    before: Option<&str>,
    first: Option<i32>,
    last: Option<i32>,
) -> PageRequest {
    PageRequest::new(after.map(String::from), before.map(String::from), first, last).unwrap()
}

#[test]
fn connection_of_a_query() {
    let items: Vec<u32> = (0..7).collect();
    let page = connection(items.clone(), &request(None, None, Some(3), None)).unwrap();
    let nodes: Vec<u32> = page.edges.iter().map(|e| e.node).collect();
    assert_eq!(nodes, vec![0, 1, 2]);
    assert!(page.page_info.has_next_page);
    let page = connection(items.clone(), &request(Some("2"), None, None, Some(2))).unwrap();
    let nodes: Vec<u32> = page.edges.iter().map(|e| e.node).collect();
    assert_eq!(nodes, vec![5, 6]);
    assert!(page.page_info.has_previous_page);
    assert_eq!(
        connection(items.clone(), &request(Some("8"), None, None, None)).err(),
        Some(PageError::InvalidCursor)
    );
    let oversized = PageRequest { after: None, before: None, first: Some(101), last: None };
    assert_eq!(connection(items, &oversized).err(), Some(PageError::InvalidArgument));
}

#[test]
fn listing_queries_cut_pages() {
    let listings: Vec<Listing> = (1..=5).map(listing).collect();
    let page = ListingQuery
        .listings(listings.clone(), &request(None, None, Some(2), None))
        .unwrap();
    assert_eq!(page.edges.len(), 2);
    assert_eq!(page.edges[0].node, listing(1));
    assert_eq!(page.edges[1].cursor, "1");
    let page = ListingQuery
        .listing_in_category(listings.clone(), &request(Some("1"), None, Some(2), None))
        .unwrap();
    assert_eq!(page.edges[0].node, listing(3));
    let page = ListingQuery.search(listings, &request(None, None, None, Some(1))).unwrap();
    assert_eq!(page.edges[0].node, listing(5));
    assert!(page.page_info.has_previous_page);
}

#[test]
fn tag_and_condition_queries_cut_pages() {
    let tags: Vec<Tag> = (1..=4).map(tag).collect();
    let page = TagQuery.tags(tags.clone(), &request(None, None, Some(1), None)).unwrap();
    assert_eq!(page.edges[0].node, tag(1));
    let page = TagQuery.search(tags, &request(None, Some("3"), None, Some(2))).unwrap();
    assert_eq!(page.edges[0].node, tag(2));
    assert_eq!(page.edges[1].node, tag(3));
    let conditions = vec![
        ListingCondition { id: id(1), condition: "new".to_string() },
        ListingCondition { id: id(2), condition: "used".to_string() },
    ];
    let page = ListingConditionQuery
        .conditions(conditions, &request(None, None, None, None))
        .unwrap();
    assert_eq!(page.edges.len(), 2);
    assert_eq!(page.edges[1].node.condition, "used");
    assert_eq!(
        ListingConditionQuery
            .conditions(vec![], &request(Some("1"), None, None, None))
            .err(),
        Some(PageError::InvalidCursor)
    );
}

#[test]
fn category_queries_cut_pages() {
    let categories = vec![category(1, "a"), category(2, "b"), category(3, "c")];
    let page = CategoryQuery
        .categories(categories.clone(), &request(None, None, Some(2), None))
        .unwrap();
    assert_eq!(page.edges.len(), 2);
    let page = CategoryQuery
        .sub_categories(categories.clone(), &request(Some("0"), None, None, None))
        .unwrap();
    assert_eq!(page.edges[0].node, category(2, "b"));
    let page = CategoryQuery.search(categories, &request(None, None, None, Some(1))).unwrap();
    assert_eq!(page.edges[0].node, category(3, "c"));
}

#[test]
fn search_with_parent_name_pairs_each_category() {
    let found = vec![
        (category(1, "chairs"), Some("furniture".to_string())),
        (category(2, "furniture"), None),
        (category(3, "tables"), Some("furniture".to_string())),
    ];
    let page = CategoryQuery
        .search_with_parent_name(found, &request(None, None, Some(2), None))
        .unwrap();
    let results: Vec<&SearchResult> = page.edges.iter().map(|e| &e.node).collect();
    assert_eq!(results.len(), 2);
    assert_eq!(results[0].category, category(1, "chairs"));
    assert_eq!(results[0].parent_name.as_deref(), Some("furniture"));
    assert_eq!(results[1].category, category(2, "furniture"));
    assert_eq!(results[1].parent_name, None);
    assert!(page.page_info.has_next_page);
}

#[test]
fn listing_mutations_announce_what_was_done() {
    let created = Ok(listing(7));
    assert_eq!(
        ListingMutation.create_listing(&created),
        Some(ListingChanged { mutation_type: MutationType::Created, id: id(7) })
    );
    assert_eq!(ListingMutation.create_listing(&Err(CoreError::Unreachable)), None);
    assert_eq!(
        ListingMutation.update_listing(id(8), &Ok(Some(listing(8)))),
        Some(ListingChanged { mutation_type: MutationType::Updated, id: id(8) })
    );
    assert_eq!(
        ListingMutation.update_listing(id(8), &Ok(None)),
        Some(ListingChanged { mutation_type: MutationType::Updated, id: id(8) })
    );
    assert_eq!(ListingMutation.update_listing(id(8), &Err(CoreError::Unreachable)), None);
    assert_eq!(
        ListingMutation.delete_listing(id(9), &Ok(None)),
        Some(ListingChanged { mutation_type: MutationType::Deleted, id: id(9) })
    );
    assert_eq!(ListingMutation.delete_listing(id(9), &Err(CoreError::Unreachable)), None);
}

#[test]
fn category_mutations_announce_what_was_done() {
    assert_eq!(
        CategoryMutation.create_category(&Ok(category(7, "x"))),
        Some(CategoryChanged { mutation_type: MutationType::Created, id: id(7) })
    );
    assert_eq!(CategoryMutation.create_category(&Err(CoreError::Unreachable)), None);
    assert_eq!(
        CategoryMutation.update_category(id(8), &Ok(None)),
        Some(CategoryChanged { mutation_type: MutationType::Updated, id: id(8) })
    );
    assert_eq!(
        CategoryMutation.delete_category(id(9), &Ok(Some(category(9, "y")))),
        Some(CategoryChanged { mutation_type: MutationType::Deleted, id: id(9) })
    );
    assert_eq!(CategoryMutation.delete_category(id(9), &Err(CoreError::Unreachable)), None);
}

#[test]
fn announcements_show_their_content() {
    let event = ListingChanged {
        mutation_type: MutationType::Deleted,
        id: id(0x0190_0000_0000_7000_8000_0000_0000_0001),
    };
    assert_eq!(event.mutation_type(), MutationType::Deleted);
    assert_eq!(event.id(), "01900000-0000-7000-8000-000000000001");
    let event = CategoryChanged { mutation_type: MutationType::Created, id: id(1) };
    assert_eq!(event.mutation_type(), MutationType::Created);
    assert_eq!(event.id(), "00000000-0000-0000-0000-000000000001");
}

#[test]
fn subscribers_receive_what_they_asked_for() {
    let created = ListingChanged { mutation_type: MutationType::Created, id: id(1) };
    assert!(ListingSubscription.listings(None, &created));
    assert!(ListingSubscription.listings(Some(MutationType::Created), &created));
    assert!(!ListingSubscription.listings(Some(MutationType::Updated), &created));
    assert!(!ListingSubscription.listings(Some(MutationType::Deleted), &created));
    let deleted = CategoryChanged { mutation_type: MutationType::Deleted, id: id(1) };
    assert!(CategorySubscription.categories(None, &deleted));
    assert!(CategorySubscription.categories(Some(MutationType::Deleted), &deleted));
    assert!(!CategorySubscription.categories(Some(MutationType::Created), &deleted));
}

#[test]
fn uploads_hand_out_one_file_for_each_object() {
    let stored = vec![
        ("id-1".to_string(), "url-1".to_string()),
        ("id-2".to_string(), "url-2".to_string()),
    ];
    assert_eq!(
        UploadMutation.upload_images(stored),
        vec![
            FileInfo { id: "id-1".to_string(), url: "url-1".to_string() },
            FileInfo { id: "id-2".to_string(), url: "url-2".to_string() },
        ]
    );
    assert_eq!(UploadMutation.upload_images(vec![]), vec![]);
}

#[test]
fn merged_roots_have_defaults() {
    let Mutation(_listings, _tags) = Mutation::default();
    let Subscription(_listing_events) = Subscription::default();
    let _ = TagMutation::default();
}

fn drive(
    start: (CollectionRead, CollectionAction),
    events: &[CollectionEvent],
) -> Vec<CollectionAction> {
    let (mut flow, action) = start;
    let mut actions = vec![action];
    for event in events {
        actions.push(flow.step(*event));
    }
    actions
}

#[test]
fn collection_read_supplies_the_index() {
    let actions = drive(
        CollectionRead::start(Some(60), true, false),
        &[
            CollectionEvent::Read(ReadEvent::Miss),
            CollectionEvent::Read(ReadEvent::Fetched),
            CollectionEvent::Read(ReadEvent::Stored),
            CollectionEvent::Upserted,
        ],
    );
    assert_eq!(
        actions,
        vec![
            CollectionAction::Read(ReadAction::Lookup),
            CollectionAction::Read(ReadAction::Fetch),
            CollectionAction::Read(ReadAction::Store { ttl: 60 }),
            CollectionAction::Upsert,
            CollectionAction::Return { indexed: true },
        ]
    );
}

#[test]
fn collection_read_waits_for_the_index_when_asked() {
    let actions = drive(
        CollectionRead::start(Some(60), true, true),
        &[
            CollectionEvent::Read(ReadEvent::Hit),
            CollectionEvent::Upserted,
            CollectionEvent::Settled,
        ],
    );
    assert_eq!(
        actions,
        vec![
            CollectionAction::Read(ReadAction::Lookup),
            CollectionAction::Upsert,
            CollectionAction::AwaitIndexing,
            CollectionAction::Return { indexed: true },
        ]
    );
}

#[test]
fn collection_read_without_index_or_cache() {
    let actions = drive(
        CollectionRead::start(None, false, true),
        &[CollectionEvent::Read(ReadEvent::Fetched)],
    );
    assert_eq!(
        actions,
        vec![
            CollectionAction::Read(ReadAction::Fetch),
            CollectionAction::Return { indexed: false },
        ]
    );
}

#[test]
fn index_refusing_the_collection_does_not_fail_the_read() {
    let (mut flow, _) = CollectionRead::start(None, true, true);
    assert_eq!(flow.step(CollectionEvent::Read(ReadEvent::Fetched)), CollectionAction::Upsert);
    assert_eq!(flow.state, CollectionState::Upserting);
    assert!(!flow.is_finished());
    assert_eq!(
        flow.step(CollectionEvent::UpsertFailed),
        CollectionAction::Return { indexed: false }
    );
    assert!(flow.is_finished());
}

#[test]
fn store_failure_fails_the_collection_read() {
    let (mut flow, _) = CollectionRead::start(Some(1), true, false);
    assert_eq!(
        flow.step(CollectionEvent::Read(ReadEvent::LookupFailed)),
        CollectionAction::Read(ReadAction::Fetch)
    );
    assert_eq!(
        flow.step(CollectionEvent::Read(ReadEvent::FetchFailed)),
        CollectionAction::Fail(ReadError::FetchFailed)
    );
    assert!(flow.is_finished());
    assert_eq!(
        flow.step(CollectionEvent::Upserted),
        CollectionAction::Fail(ReadError::OutOfTurn)
    );
}

#[test]
fn collection_event_out_of_turn_ends_the_read() {
    let (mut flow, _) = CollectionRead::start(Some(1), true, false);
    assert_eq!(
        flow.step(CollectionEvent::Settled),
        CollectionAction::Fail(ReadError::OutOfTurn)
    );
    assert!(flow.is_finished());
    let (mut flow, _) = CollectionRead::start(Some(1), true, false);
    assert_eq!(
        flow.step(CollectionEvent::Read(ReadEvent::Stored)),
        CollectionAction::Fail(ReadError::OutOfTurn)
    );
    assert!(flow.is_finished());
}
