//! The queries, mutations and subscriptions of the API, as far as they
//! decide anything: how a query cuts its page, what a mutation announces,
//! and which announcements a subscriber receives.

use vstd::prelude::*;
use crate::error::CoreError;
use crate::ident::EntityId;
use crate::model::{Category, Listing, ListingCondition, Tag};
use crate::mutation::MutationType;
use crate::pagination::{
    page_window,
    paginate,
    Page,
    PageError,
    PageRequest,
    Window,
    MAX_PAGE_SIZE,
};

verus! {

/// Cuts the page that the request of a query selects out of `items`, with
/// the largest page at `MAX_PAGE_SIZE`.
pub fn connection<T>(items: Vec<T>, request: &PageRequest) -> (r: Result<Page<T>, PageError>)
    ensures
        match r {
            Ok(page) => page_window(items@.len(), *request, MAX_PAGE_SIZE) matches Ok(w)
                && page.is_slice_of(items@, w),
            Err(e) => page_window(items@.len(), *request, MAX_PAGE_SIZE) == Err::<
                Window,
                PageError,
            >(e),
        },
{
    paginate(items, request, MAX_PAGE_SIZE)
}

/// The queries for listings.
#[derive(Default, Debug)]
pub struct ListingQuery;

/// The queries for tags.
#[derive(Default, Debug)]
pub struct TagQuery;

/// The queries for categories.
#[derive(Default, Debug)]
pub struct CategoryQuery;

/// The queries for listing conditions.
#[derive(Default, Debug)]
pub struct ListingConditionQuery;

/// A category found by a search, with the name of the category above it.
#[derive(Debug, Clone)]
pub struct SearchResult {
    pub category: Category,
    pub parent_name: Option<String>,
}

impl ListingQuery {
    /// A page of all listings.
    pub fn listings(&self, listings: Vec<Listing>, request: &PageRequest) -> (r: Result<
        Page<Listing>,
        PageError,
    >)
        ensures
            match r {
                Ok(page) => page_window(listings@.len(), *request, MAX_PAGE_SIZE) matches Ok(w)
                    && page.is_slice_of(listings@, w),
                Err(e) => page_window(listings@.len(), *request, MAX_PAGE_SIZE) == Err::<
                    Window,
                    PageError,
                >(e),
            },
    {
        connection(listings, request)
    }

    /// A page of the listings in one category.
    pub fn listing_in_category(&self, listings: Vec<Listing>, request: &PageRequest) -> (r: Result<
        Page<Listing>,
        PageError,
    >)
        ensures
            match r {
                Ok(page) => page_window(listings@.len(), *request, MAX_PAGE_SIZE) matches Ok(w)
                    && page.is_slice_of(listings@, w),
                Err(e) => page_window(listings@.len(), *request, MAX_PAGE_SIZE) == Err::<
                    Window,
                    PageError,
                >(e),
            },
    {
        connection(listings, request)
    }

    /// A page of the listings that a search found.
    pub fn search(&self, hits: Vec<Listing>, request: &PageRequest) -> (r: Result<
        Page<Listing>,
        PageError,
    >)
        ensures
            match r {
                Ok(page) => page_window(hits@.len(), *request, MAX_PAGE_SIZE) matches Ok(w)
                    && page.is_slice_of(hits@, w),
                Err(e) => page_window(hits@.len(), *request, MAX_PAGE_SIZE) == Err::<
                    Window,
                    PageError,
                >(e),
            },
    {
        connection(hits, request)
    }
}

impl TagQuery {
    /// A page of all tags.
    pub fn tags(&self, tags: Vec<Tag>, request: &PageRequest) -> (r: Result<
        Page<Tag>,
        PageError,
    >)
        ensures
            match r {
                Ok(page) => page_window(tags@.len(), *request, MAX_PAGE_SIZE) matches Ok(w)
                    && page.is_slice_of(tags@, w),
                Err(e) => page_window(tags@.len(), *request, MAX_PAGE_SIZE) == Err::<
                    Window,
                    PageError,
                >(e),
            },
    {
        connection(tags, request)
    }

    /// A page of the tags that a search found.
    pub fn search(&self, hits: Vec<Tag>, request: &PageRequest) -> (r: Result<
        Page<Tag>,
        PageError,
    >)
        ensures
            match r {
                Ok(page) => page_window(hits@.len(), *request, MAX_PAGE_SIZE) matches Ok(w)
                    && page.is_slice_of(hits@, w),
                Err(e) => page_window(hits@.len(), *request, MAX_PAGE_SIZE) == Err::<
                    Window,
                    PageError,
                >(e),
            },
    {
        connection(hits, request)
    }
}

impl ListingConditionQuery {
    /// A page of all listing conditions.
    pub fn conditions(&self, conditions: Vec<ListingCondition>, request: &PageRequest) -> (r: Result<
        Page<ListingCondition>,
        PageError,
    >)
        ensures
            match r {
                Ok(page) => page_window(conditions@.len(), *request, MAX_PAGE_SIZE) matches Ok(w)
                    && page.is_slice_of(conditions@, w),
                Err(e) => page_window(conditions@.len(), *request, MAX_PAGE_SIZE) == Err::<
                    Window,
                    PageError,
                >(e),
            },
    {
        connection(conditions, request)
    }
}

/// The search results that pairs of a category and the name of the
/// category above it stand for, in their order.
pub open spec fn search_results(found: Seq<(Category, Option<String>)>) -> Seq<SearchResult> {
    Seq::new(
        found.len(),
        |i: int| SearchResult { category: found[i].0, parent_name: found[i].1 },
    )
}

impl CategoryQuery {
    /// A page of all categories.
    pub fn categories(&self, categories: Vec<Category>, request: &PageRequest) -> (r: Result<
        Page<Category>,
        PageError,
    >)
        ensures
            match r {
                Ok(page) => page_window(categories@.len(), *request, MAX_PAGE_SIZE) matches Ok(w)
                    && page.is_slice_of(categories@, w),
                Err(e) => page_window(categories@.len(), *request, MAX_PAGE_SIZE) == Err::<
                    Window,
                    PageError,
                >(e),
            },
    {
        connection(categories, request)
    }

    /// A page of the categories below one category.
    pub fn sub_categories(&self, categories: Vec<Category>, request: &PageRequest) -> (r: Result<
        Page<Category>,
        PageError,
    >)
        ensures
            match r {
                Ok(page) => page_window(categories@.len(), *request, MAX_PAGE_SIZE) matches Ok(w)
                    && page.is_slice_of(categories@, w),
                Err(e) => page_window(categories@.len(), *request, MAX_PAGE_SIZE) == Err::<
                    Window,
                    PageError,
                >(e),
            },
    {
        connection(categories, request)
    }

    /// A page of the categories that a search found.
    pub fn search(&self, hits: Vec<Category>, request: &PageRequest) -> (r: Result<
        Page<Category>,
        PageError,
    >)
        ensures
            match r {
                Ok(page) => page_window(hits@.len(), *request, MAX_PAGE_SIZE) matches Ok(w)
                    && page.is_slice_of(hits@, w),
                Err(e) => page_window(hits@.len(), *request, MAX_PAGE_SIZE) == Err::<
                    Window,
                    PageError,
                >(e),
            },
    {
        connection(hits, request)
    }

    /// A page of the categories that a search found, each with the name of
    /// the category above it.
    pub fn search_with_parent_name(
        &self,
        found: Vec<(Category, Option<String>)>,
        request: &PageRequest,
    ) -> (r: Result<Page<SearchResult>, PageError>)
        ensures
            match r {
                Ok(page) => page_window(found@.len(), *request, MAX_PAGE_SIZE) matches Ok(w)
                    && page.is_slice_of(search_results(found@), w),
                Err(e) => page_window(found@.len(), *request, MAX_PAGE_SIZE) == Err::<
                    Window,
                    PageError,
                >(e),
            },
    {
        let mut results: Vec<SearchResult> = Vec::new();
        for pair in iter: found
            invariant
                iter.seq() == found@,
                results@ == search_results(found@.take(iter.index())),
        {
            let ghost at = iter.index();
            let (category, parent_name) = pair;
            results.push(SearchResult { category, parent_name });
            assert(results@ =~= search_results(found@.take(at + 1)));
        }
        assert(found@.take(found@.len() as int) =~= found@);
        connection(results, request)
    }
}

/// The announcement that a listing was mutated.
#[derive(Debug, Clone, Copy, PartialEq, Eq, Structural)]
pub struct ListingChanged {
    pub mutation_type: MutationType,
    pub id: EntityId,
}

/// The announcement that a category was mutated.
#[derive(Debug, Clone, Copy, PartialEq, Eq, Structural)]
pub struct CategoryChanged {
    pub mutation_type: MutationType,
    pub id: EntityId,
}

impl ListingChanged {
    /// What was done to the listing.
    pub fn mutation_type(&self) -> (kind: MutationType)
        ensures
            kind == self.mutation_type,
    {
        self.mutation_type
    }

    /// The identifier of the listing, as text.
    pub fn id(&self) -> (text: String)
        ensures
            text@ == self.id.text(),
    {
        self.id.to_string()
    }
}

impl CategoryChanged {
    /// What was done to the category.
    pub fn mutation_type(&self) -> (kind: MutationType)
        ensures
            kind == self.mutation_type,
    {
        self.mutation_type
    }

    /// The identifier of the category, as text.
    pub fn id(&self) -> (text: String)
        ensures
            text@ == self.id.text(),
    {
        self.id.to_string()
    }
}

/// The mutations of listings.
#[derive(Default, Debug)]
pub struct ListingMutation;

/// The mutations of categories.
#[derive(Default, Debug)]
pub struct CategoryMutation;

/// The mutations of tags.
#[derive(Default, Debug)]
pub struct TagMutation;

/// The upload of images.
#[derive(Default, Debug)]
pub struct UploadMutation;

/// All mutations of the API.
#[derive(Default, Debug)]
pub struct Mutation(pub ListingMutation, pub TagMutation);

/// A stored file.
#[derive(Clone, Debug, PartialEq, Eq)]
pub struct FileInfo {
    pub id: String,
    pub url: String,
}

impl ListingMutation {
    /// What a create announces: that the listing which the store handed
    /// back was created, and nothing where the create failed.
    pub fn create_listing(&self, outcome: &Result<Listing, CoreError>) -> (r: Option<ListingChanged>)
        ensures
            r == match *outcome {
                Ok(listing) => Some(
                    ListingChanged { mutation_type: MutationType::Created, id: listing.id },
                ),
                Err(_) => None,
            },
    {
        match outcome {
            Ok(listing) => Some(
                ListingChanged { mutation_type: MutationType::Created, id: listing.id },
            ),
            Err(_) => None,
        }
    }

    /// What an update announces: that the listing `id` was updated, and
    /// nothing where the update failed.
    pub fn update_listing(&self, id: EntityId, outcome: &Result<Option<Listing>, CoreError>) -> (r:
        Option<ListingChanged>)
        ensures
            r == (if outcome is Ok {
                Some(ListingChanged { mutation_type: MutationType::Updated, id })
            } else {
                None
            }),
    {
        match outcome {
            Ok(_) => Some(ListingChanged { mutation_type: MutationType::Updated, id }),
            Err(_) => None,
        }
    }

    /// What a delete announces: that the listing `id` was deleted, and
    /// nothing where the delete failed.
    pub fn delete_listing(&self, id: EntityId, outcome: &Result<Option<Listing>, CoreError>) -> (r:
        Option<ListingChanged>)
        ensures
            r == (if outcome is Ok {
                Some(ListingChanged { mutation_type: MutationType::Deleted, id })
            } else {
                None
            }),
    {
        match outcome {
            Ok(_) => Some(ListingChanged { mutation_type: MutationType::Deleted, id }),
            Err(_) => None,
        }
    }
}

impl CategoryMutation {
    /// What a create announces: that the category which the store handed
    /// back was created, and nothing where the create failed.
    pub fn create_category(&self, outcome: &Result<Category, CoreError>) -> (r: Option<
        CategoryChanged,
    >)
        ensures
            r == match *outcome {
                Ok(category) => Some(
                    CategoryChanged { mutation_type: MutationType::Created, id: category.id },
                ),
                Err(_) => None,
            },
    {
        match outcome {
            Ok(category) => Some(
                CategoryChanged { mutation_type: MutationType::Created, id: category.id },
            ),
            Err(_) => None,
        }
    }

    /// What an update announces: that the category `id` was updated, and
    /// nothing where the update failed.
    pub fn update_category(&self, id: EntityId, outcome: &Result<Option<Category>, CoreError>) -> (r:
        Option<CategoryChanged>)
        ensures
            r == (if outcome is Ok {
                Some(CategoryChanged { mutation_type: MutationType::Updated, id })
            } else {
                None
            }),
    {
        match outcome {
            Ok(_) => Some(CategoryChanged { mutation_type: MutationType::Updated, id }),
            Err(_) => None,
        }
    }

    /// What a delete announces: that the category `id` was deleted, and
    /// nothing where the delete failed.
    pub fn delete_category(&self, id: EntityId, outcome: &Result<Option<Category>, CoreError>) -> (r:
        Option<CategoryChanged>)
        ensures
            r == (if outcome is Ok {
                Some(CategoryChanged { mutation_type: MutationType::Deleted, id })
            } else {
                None
            }),
    {
        match outcome {
            Ok(_) => Some(CategoryChanged { mutation_type: MutationType::Deleted, id }),
            Err(_) => None,
        }
    }
}

/// The files that pairs of an identifier and an address stand for, in
/// their order.
pub open spec fn file_infos(stored: Seq<(String, String)>) -> Seq<FileInfo> {
    Seq::new(stored.len(), |i: int| FileInfo { id: stored[i].0, url: stored[i].1 })
}

impl UploadMutation {
    /// What an upload hands out: one file for each stored object, in the
    /// order of the upload.
    pub fn upload_images(&self, stored: Vec<(String, String)>) -> (files: Vec<FileInfo>)
        ensures
            files@ == file_infos(stored@),
    {
        let mut files: Vec<FileInfo> = Vec::new();
        for pair in iter: stored
            invariant
                iter.seq() == stored@,
                files@ == file_infos(stored@.take(iter.index())),
        {
            let ghost at = iter.index();
            let (id, url) = pair;
            files.push(FileInfo { id, url });
            assert(files@ =~= file_infos(stored@.take(at + 1)));
        }
        assert(stored@.take(stored@.len() as int) =~= stored@);
        files
    }
}

/// The subscription to mutations of listings.
#[derive(Default, Debug)]
pub struct ListingSubscription;

/// The subscription to mutations of categories.
#[derive(Default, Debug)]
pub struct CategorySubscription;

/// All subscriptions of the API.
#[derive(Default, Debug)]
pub struct Subscription(pub ListingSubscription);

/// Whether a subscriber who asked for `wanted` receives an announcement of
/// `actual`: one who asked for no kind in particular receives all.
pub open spec fn is_wanted(wanted: Option<MutationType>, actual: MutationType) -> bool {
    match wanted {
        Some(kind) => kind == actual,
        None => true,
    }
}

impl ListingSubscription {
    /// Whether a subscriber receives the announcement.
    pub fn listings(&self, mutation_type: Option<MutationType>, event: &ListingChanged) -> (r: bool)
        ensures
            r == is_wanted(mutation_type, event.mutation_type),
    {
        match mutation_type {
            Some(kind) => kind == event.mutation_type,
            None => true,
        }
    }
}

impl CategorySubscription {
    /// Whether a subscriber receives the announcement.
    pub fn categories(&self, mutation_type: Option<MutationType>, event: &CategoryChanged) -> (r:
        bool)
        ensures
            r == is_wanted(mutation_type, event.mutation_type),
    {
        match mutation_type {
            Some(kind) => kind == event.mutation_type,
            None => true,
        }
    }
}

} // verus!
