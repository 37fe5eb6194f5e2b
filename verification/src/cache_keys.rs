//! Keys under which query results are cached.
//!
//! A key is made of the query's kind and, where the query has one, the
//! identifier that it asks about. Its text is a function of these alone, so
//! two requests for the same data always meet at the same cache entry.

use vstd::prelude::*;
use vstd::string::*;
use crate::ident::{lemma_hyphenated_shape, lemma_hyphenated_text_injective, EntityId};

verus! {

/// The cached queries.
#[derive(Debug, Clone, Copy, PartialEq, Eq)]
pub enum CacheKey<'a> {
    /// Every listing.
    AllListings,
    /// Every tag.
    AllTags,
    /// Every listing condition.
    AllConditions,
    /// The listings of one user.
    UserListing { user_id: &'a EntityId },
    /// One listing.
    Listing { id: &'a EntityId },
    /// One tag.
    Tag { id: &'a EntityId },
}

impl CacheKey<'_> {
    /// The qualifier of the key: what follows the namespace.
    pub open spec fn qualifier(self) -> Seq<char> {
        match self {
            CacheKey::AllListings => "all"@,
            CacheKey::AllTags => "all_tags"@,
            CacheKey::AllConditions => "all_conditions"@,
            CacheKey::UserListing { user_id } => "from_user="@ + user_id.text(),
            CacheKey::Listing { id } => "id="@ + id.text(),
            CacheKey::Tag { id } => "tag="@ + id.text(),
        }
    }

    /// The text of the key: the namespace, then the qualifier.
    pub open spec fn text(self) -> Seq<char> {
        "listings:"@ + self.qualifier()
    }

    /// Writes the key as the cache backend receives it.
    pub fn to_string(&self) -> (text: String)
        ensures
            text@ == self.text(),
    {
        let mut text = String::from_str("listings:");
        match self {
            CacheKey::AllListings => {
                text.append("all");
            },
            CacheKey::AllTags => {
                text.append("all_tags");
            },
            CacheKey::AllConditions => {
                text.append("all_conditions");
            },
            CacheKey::UserListing { user_id } => {
                text.append("from_user=");
                text.append(user_id.to_string().as_str());
            },
            CacheKey::Listing { id } => {
                text.append("id=");
                text.append(id.to_string().as_str());
            },
            CacheKey::Tag { id } => {
                text.append("tag=");
                text.append(id.to_string().as_str());
            },
        }
        assert(text@ =~= self.text());
        text
    }
}

/// The length of a key's text tells what kind of query it is for.
pub proof fn lemma_key_text_len(key: CacheKey<'_>)
    ensures
        key.text().len() == match key {
            CacheKey::AllListings => 12nat,
            CacheKey::AllTags => 17nat,
            CacheKey::AllConditions => 23nat,
            CacheKey::UserListing { .. } => 55nat,
            CacheKey::Listing { .. } => 48nat,
            CacheKey::Tag { .. } => 49nat,
        },
{
    reveal_strlit("listings:");
    reveal_strlit("all");
    reveal_strlit("all_tags");
    reveal_strlit("all_conditions");
    reveal_strlit("from_user=");
    reveal_strlit("id=");
    reveal_strlit("tag=");
    match key {
        CacheKey::UserListing { user_id } => {
            lemma_hyphenated_shape(user_id.value);
        },
        CacheKey::Listing { id } => {
            lemma_hyphenated_shape(id.value);
        },
        CacheKey::Tag { id } => {
            lemma_hyphenated_shape(id.value);
        },
        _ => {},
    }
}

/// Two texts behind the same head are the same.
proof fn lemma_same_tail(head: Seq<char>, a: Seq<char>, b: Seq<char>)
    requires
        head + a == head + b,
    ensures
        a == b,
{
    assert(a.len() == b.len()) by {
        assert((head + a).len() == head.len() + a.len());
        assert((head + b).len() == head.len() + b.len());
    }
    assert forall|i: int| 0 <= i < a.len() implies a[i] == b[i] by {
        assert((head + a)[head.len() + i] == a[i]);
        assert((head + b)[head.len() + i] == b[i]);
    }
    assert(a =~= b);
}

/// No two queries share a cache entry: keys with one text are for one kind
/// of query about one identifier.
pub proof fn lemma_key_text_injective(a: CacheKey<'_>, b: CacheKey<'_>)
    requires
        a.text() == b.text(),
    ensures
        match (a, b) {
            (CacheKey::AllListings, CacheKey::AllListings) => true,
            (CacheKey::AllTags, CacheKey::AllTags) => true,
            (CacheKey::AllConditions, CacheKey::AllConditions) => true,
            (CacheKey::UserListing { user_id: x }, CacheKey::UserListing { user_id: y }) => *x
                == *y,
            (CacheKey::Listing { id: x }, CacheKey::Listing { id: y }) => *x == *y,
            (CacheKey::Tag { id: x }, CacheKey::Tag { id: y }) => *x == *y,
            _ => false,
        },
{
    lemma_key_text_len(a);
    lemma_key_text_len(b);
    lemma_same_tail("listings:"@, a.qualifier(), b.qualifier());
    match (a, b) {
        (CacheKey::UserListing { user_id: x }, CacheKey::UserListing { user_id: y }) => {
            lemma_same_tail("from_user="@, x.text(), y.text());
            lemma_hyphenated_text_injective(x.value, y.value);
        },
        (CacheKey::Listing { id: x }, CacheKey::Listing { id: y }) => {
            lemma_same_tail("id="@, x.text(), y.text());
            lemma_hyphenated_text_injective(x.value, y.value);
        },
        (CacheKey::Tag { id: x }, CacheKey::Tag { id: y }) => {
            lemma_same_tail("tag="@, x.text(), y.text());
            lemma_hyphenated_text_injective(x.value, y.value);
        },
        _ => {},
    }
}

} // verus!
