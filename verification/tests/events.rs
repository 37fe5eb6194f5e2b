use listings_api::events::{Event, EventBus, Topic};
use listings_api::graphql::{CategoryChanged, ListingChanged};
use listings_api::ident::EntityId;
use listings_api::mutation::MutationType;

fn listing_event(n: u128, kind: MutationType) -> Event {
    Event::Listing(ListingChanged { mutation_type: kind, id: EntityId::from_u128(n) })
}

fn category_event(n: u128) -> Event {
    Event::Category(CategoryChanged {
        mutation_type: MutationType::Created,
        id: EntityId::from_u128(n),
    })
}

#[test]
fn events_have_topics() {
    assert_eq!(listing_event(1, MutationType::Created).topic(), Topic::Listings);
    assert_eq!(category_event(1).topic(), Topic::Categories);
}

#[test]
fn subscribers_receive_events_in_order() {
    let mut bus = EventBus::new();
    let s = bus.subscribe(Topic::Listings).unwrap();
    let a = listing_event(1, MutationType::Created);
    let b = listing_event(2, MutationType::Updated);
    let c = listing_event(1, MutationType::Deleted);
    bus.publish(a);
    bus.publish(b);
    bus.publish(c);
    assert_eq!(bus.pending(s), Some(3));
    assert_eq!(bus.take(s), Some(a));
    assert_eq!(bus.take(s), Some(b));
    assert_eq!(bus.pending(s), Some(1));
    assert_eq!(bus.take(s), Some(c));
    assert_eq!(bus.take(s), None);
    assert_eq!(bus.pending(s), Some(0));
}

#[test]
fn each_subscriber_has_its_own_buffer() {
    let mut bus = EventBus::new();
    let fast = bus.subscribe(Topic::Listings).unwrap();
    let slow = bus.subscribe(Topic::Listings).unwrap();
    assert_ne!(fast, slow);
    let a = listing_event(1, MutationType::Created);
    let b = listing_event(2, MutationType::Created);
    bus.publish(a);
    assert_eq!(bus.take(fast), Some(a));
    bus.publish(b);
    assert_eq!(bus.take(fast), Some(b));
    assert_eq!(bus.take(fast), None);
    assert_eq!(bus.pending(slow), Some(2));
    assert_eq!(bus.take(slow), Some(a));
    assert_eq!(bus.take(slow), Some(b));
}

#[test]
fn events_go_to_their_topic_only() {
    let mut bus = EventBus::new();
    let listings = bus.subscribe(Topic::Listings).unwrap();
    let categories = bus.subscribe(Topic::Categories).unwrap();
    bus.publish(category_event(9));
    assert_eq!(bus.pending(listings), Some(0));
    assert_eq!(bus.take(listings), None);
    assert_eq!(bus.take(categories), Some(category_event(9)));
}

#[test]
fn events_published_before_subscribing_are_not_received() {
    let mut bus = EventBus::new();
    bus.publish(listing_event(1, MutationType::Created));
    let s = bus.subscribe(Topic::Listings).unwrap();
    assert_eq!(bus.take(s), None);
    bus.publish(listing_event(2, MutationType::Created));
    assert_eq!(bus.take(s), Some(listing_event(2, MutationType::Created)));
}

#[test]
fn cancelled_subscriber_is_gone() {
    let mut bus = EventBus::new();
    let s = bus.subscribe(Topic::Listings).unwrap();
    let t = bus.subscribe(Topic::Listings).unwrap();
    bus.publish(listing_event(1, MutationType::Created));
    assert!(bus.cancel(s));
    assert!(!bus.cancel(s));
    assert_eq!(bus.pending(s), None);
    assert_eq!(bus.take(s), None);
    bus.publish(listing_event(2, MutationType::Created));
    assert_eq!(bus.pending(t), Some(2));
    let u = bus.subscribe(Topic::Listings).unwrap();
    assert_ne!(u, s);
    assert_ne!(u, t);
    assert!(!bus.cancel(12345));
}

#[test]
fn publishing_without_subscribers_is_fine() {
    let mut bus = EventBus::new();
    bus.publish(listing_event(1, MutationType::Created));
    assert_eq!(bus.take(0), None);
    assert_eq!(bus.pending(0), None);
}

#[test]
fn identifiers_are_handed_out_in_sequence() {
    let mut bus = EventBus::new();
    assert_eq!(bus.subscribe(Topic::Listings), Some(0));
    assert_eq!(bus.subscribe(Topic::Categories), Some(1));
    bus.publish(listing_event(1, MutationType::Created));
    assert!(bus.cancel(0));
    assert_eq!(bus.take(1), None);
    assert_eq!(bus.subscribe(Topic::Listings), Some(2));
    assert_eq!(bus.pending(2), Some(0));
    assert_eq!(bus.pending(0), None);
}
