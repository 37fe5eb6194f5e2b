//! The entities of the catalog as the API hands them out.

use vstd::prelude::*;
use crate::ident::EntityId;

verus! {

/// `rust_decimal::Decimal`, a price. The core carries it and never looks
/// inside.
#[verifier::external_type_specification]
#[verifier::external_body]
pub struct ExDecimal(rust_decimal::Decimal);

/// `time::OffsetDateTime`, an instant with its offset. The core carries it
/// and never looks inside.
#[verifier::external_type_specification]
#[verifier::external_body]
pub struct ExOffsetDateTime(time::OffsetDateTime);

/// `Clone` of `rust_decimal::Decimal`, which the crate derives beside `Copy`:
/// the clone is the value itself.
pub assume_specification[ <rust_decimal::Decimal as Clone>::clone ](
    value: &rust_decimal::Decimal,
) -> (copy: rust_decimal::Decimal)
    ensures
        copy == *value,
;

/// `Clone` of `time::OffsetDateTime`, which the crate derives beside `Copy`:
/// the clone is the value itself.
pub assume_specification[ <time::OffsetDateTime as Clone>::clone ](
    value: &time::OffsetDateTime,
) -> (copy: time::OffsetDateTime)
    ensures
        copy == *value,
;

/// Something offered for sale.
#[derive(Debug, PartialEq, PartialOrd, Clone)]
pub struct Listing {
    pub id: EntityId,
    /// The category that the listing is filed under.
    pub category_id: EntityId,
    pub title: String,
    pub description: String,
    pub price: rust_decimal::Decimal,
    pub image_url: String,
    pub other_images: Vec<String>,
    pub published: bool,
    pub negotiable: bool,
    pub created: time::OffsetDateTime,
    pub expires: Option<time::OffsetDateTime>,
    pub updated: time::OffsetDateTime,
    pub deleted: Option<time::OffsetDateTime>,
}

/// The state that a listed item is in, such as new or used.
#[derive(Debug, Clone, Eq, PartialEq, PartialOrd)]
pub struct ListingCondition {
    pub id: EntityId,
    pub condition: String,
}

/// A label on listings.
#[derive(Debug, Clone, Eq, PartialEq, PartialOrd)]
pub struct Tag {
    pub id: EntityId,
    pub name: String,
}

/// A category of listings, with its place in the tree of categories.
#[derive(Debug, Clone, Eq, PartialEq, PartialOrd)]
pub struct Category {
    pub id: EntityId,
    pub name: String,
    /// The categories below this one; absent where there are none.
    pub sub_categories: Option<Vec<EntityId>>,
    pub image_url: Option<String>,
    pub parent_id: Option<EntityId>,
}

} // verus!
