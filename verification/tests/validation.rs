use listings_api::ident::EntityId;
use listings_api::validation::{
    Reference, ReferenceKind, ReferenceSet, TransportError, ValidationError,
};

fn id(n: u128) -> EntityId {
    EntityId::from_u128(n)
}

fn down(message: &str) -> Result<bool, TransportError> {
    Err(TransportError {
        message: message.to_string(),
    })
}

#[test]
fn all_references_found() {
    let set = ReferenceSet::for_listing(id(1), id(2), &vec![id(3), id(4)]);
    assert_eq!(set.len(), 4);
    let outcomes = vec![Ok(true), Ok(true), Ok(true), Ok(true)];
    assert_eq!(set.validate(&outcomes), Ok(()));
}

#[test]
fn listing_references_are_tags_then_category_then_owner() {
    let set = ReferenceSet::for_listing(id(1), id(2), &vec![id(3), id(4)]);
    assert_eq!(
        set.references,
        vec![
            Reference { kind: ReferenceKind::Tag, id: id(3) },
            Reference { kind: ReferenceKind::Tag, id: id(4) },
            Reference { kind: ReferenceKind::Category, id: id(1) },
            Reference { kind: ReferenceKind::Owner, id: id(2) },
        ]
    );
}

#[test]
fn missing_tag_is_reported() {
    let set = ReferenceSet::for_listing(id(1), id(2), &vec![id(3), id(4)]);
    let outcomes = vec![Ok(true), Ok(false), Ok(true), Ok(true)];
    assert_eq!(
        set.validate(&outcomes),
        Err(ValidationError::MissingReference { kind: ReferenceKind::Tag, id: id(4) })
    );
}

#[test]
fn missing_category_without_tags() {
    let set = ReferenceSet::for_listing(id(1), id(2), &vec![]);
    let outcomes = vec![Ok(false), Ok(true)];
    assert_eq!(
        set.validate(&outcomes),
        Err(ValidationError::MissingReference { kind: ReferenceKind::Category, id: id(1) })
    );
}

#[test]
fn missing_owner_is_reported_last() {
    let set = ReferenceSet::for_listing(id(1), id(2), &vec![id(3)]);
    let outcomes = vec![Ok(true), Ok(true), Ok(false)];
    assert_eq!(
        set.validate(&outcomes),
        Err(ValidationError::MissingReference { kind: ReferenceKind::Owner, id: id(2) })
    );
}

#[test]
fn tag_wins_over_category_and_category_over_owner() {
    let set = ReferenceSet::for_listing(id(1), id(2), &vec![id(3)]);
    let outcomes = vec![Ok(false), Ok(false), Ok(false)];
    assert_eq!(
        set.validate(&outcomes),
        Err(ValidationError::MissingReference { kind: ReferenceKind::Tag, id: id(3) })
    );
    let outcomes = vec![Ok(true), Ok(false), Ok(false)];
    assert_eq!(
        set.validate(&outcomes),
        Err(ValidationError::MissingReference { kind: ReferenceKind::Category, id: id(1) })
    );
}

#[test]
fn precedence_goes_by_kind_not_by_position() {
    let mut set = ReferenceSet::new();
    set.insert(ReferenceKind::Owner, id(2));
    set.insert(ReferenceKind::Category, id(1));
    set.insert(ReferenceKind::Tag, id(3));
    let outcomes = vec![Ok(false), Ok(false), Ok(false)];
    assert_eq!(
        set.validate(&outcomes),
        Err(ValidationError::MissingReference { kind: ReferenceKind::Tag, id: id(3) })
    );
    let outcomes = vec![Ok(false), Ok(false), Ok(true)];
    assert_eq!(
        set.validate(&outcomes),
        Err(ValidationError::MissingReference { kind: ReferenceKind::Category, id: id(1) })
    );
}

#[test]
fn first_missing_tag_is_named() {
    let set = ReferenceSet::for_listing(id(1), id(2), &vec![id(3), id(4), id(5)]);
    let outcomes = vec![Ok(true), Ok(false), Ok(false), Ok(true), Ok(true)];
    assert_eq!(
        set.validate(&outcomes),
        Err(ValidationError::MissingReference { kind: ReferenceKind::Tag, id: id(4) })
    );
}

#[test]
fn transport_failure_wins_over_missing_references() {
    let set = ReferenceSet::for_listing(id(1), id(2), &vec![id(3)]);
    let outcomes = vec![Ok(false), Ok(false), down("users service unreachable")];
    assert_eq!(
        set.validate(&outcomes),
        Err(ValidationError::Transport(TransportError {
            message: "users service unreachable".to_string()
        }))
    );
}

#[test]
fn first_transport_failure_in_set_order_is_reported() {
    let set = ReferenceSet::for_listing(id(1), id(2), &vec![]);
    let outcomes = vec![down("categories down"), down("users down")];
    assert_eq!(
        set.validate(&outcomes),
        Err(ValidationError::Transport(TransportError {
            message: "categories down".to_string()
        }))
    );
}

#[test]
fn outcomes_must_match_the_references() {
    let set = ReferenceSet::for_listing(id(1), id(2), &vec![]);
    assert_eq!(set.validate(&vec![Ok(true)]), Err(ValidationError::Incomplete));
    assert_eq!(
        set.validate(&vec![Ok(true), Ok(true), Ok(true)]),
        Err(ValidationError::Incomplete)
    );
    assert_eq!(set.validate(&vec![]), Err(ValidationError::Incomplete));
}

#[test]
fn empty_set_is_valid() {
    let set = ReferenceSet::new();
    assert_eq!(set.len(), 0);
    assert_eq!(set.validate(&vec![]), Ok(()));
}
