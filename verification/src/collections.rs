//! The collections of the primary store.

use vstd::prelude::*;
use vstd::string::*;

verus! {

/// A collection of the primary store.
#[non_exhaustive]
#[derive(Debug, Clone, Copy, PartialEq, Eq, Structural)]
pub enum Collection {
    Listing,
    User,
    Tag,
    ListingCondition,
    Category,
}

impl Collection {
    /// The name of the collection's table.
    pub open spec fn name(self) -> Seq<char> {
        match self {
            Collection::Listing => "listing"@,
            Collection::Tag => "tag"@,
            Collection::User => "user"@,
            Collection::ListingCondition => "listing_condition"@,
            Collection::Category => "category"@,
        }
    }

    /// The name of the collection's table.
    pub fn as_str(&self) -> (name: &'static str)
        ensures
            name@ == self.name(),
    {
        match self {
            Collection::Listing => "listing",
            Collection::Tag => "tag",
            Collection::User => "user",
            Collection::ListingCondition => "listing_condition",
            Collection::Category => "category",
        }
    }

    /// The name of the collection's table, owned.
    pub fn to_string(&self) -> (name: String)
        ensures
            name@ == self.name(),
    {
        String::from_str(self.as_str())
    }

    /// The collection with the given table name, if there is one.
    pub fn from_name(name: &str) -> (r: Option<Collection>)
        ensures
            match r {
                Some(c) => c.name() == name@,
                None => forall|c: Collection| c.name() != name@,
            },
    {
        proof {
            reveal_strlit("listing");
            reveal_strlit("tag");
            reveal_strlit("user");
            reveal_strlit("listing_condition");
            reveal_strlit("category");
        }
        if str_eq(name, "listing") {
            Some(Collection::Listing)
        } else if str_eq(name, "tag") {
            Some(Collection::Tag)
        } else if str_eq(name, "user") {
            Some(Collection::User)
        } else if str_eq(name, "listing_condition") {
            Some(Collection::ListingCondition)
        } else if str_eq(name, "category") {
            Some(Collection::Category)
        } else {
            None
        }
    }
}

/// Whether two texts are the same, character by character.
pub(crate) fn str_eq(a: &str, b: &str) -> (r: bool)
    ensures
        r == (a@ == b@),
{
    let n = a.unicode_len();
    if n != b.unicode_len() {
        return false;
    }
    let mut i: usize = 0;
    while i < n
        invariant
            n == a@.len(),
            n == b@.len(),
            0 <= i <= n,
            forall|k: int| 0 <= k < i ==> a@[k] == b@[k],
        decreases n - i,
    {
        if a.get_char(i) != b.get_char(i) {
            return false;
        }
        i += 1;
    }
    assert(a@ =~= b@);
    true
}

} // verus!
