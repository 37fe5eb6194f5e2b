//! The errors that the data-access core reports to its callers.

use vstd::prelude::*;
use vstd::string::*;
use crate::cache::ReadError;
use crate::ident::EntityId;
use crate::pagination::PageError;
use crate::search::SearchError;
use crate::validation::{ReferenceKind, ValidationError};

verus! {

/// Why a request was not carried out.
#[derive(Debug, Clone, PartialEq, Eq)]
pub enum CoreError {
    /// The primary store reported an error, or what it stored could not be
    /// read as an entity.
    Database(String),
    /// A text that should be an identifier is none.
    InvalidId(String),
    /// A page was asked for with a count out of range.
    InvalidArgument,
    /// A page was asked for with a cursor that is none.
    InvalidCursor,
    /// An entity that the mutation refers to does not exist.
    MissingReference { kind: ReferenceKind, id: EntityId },
    /// A sibling service could not be reached.
    Transport(String),
    /// The search index could not be opened.
    IndexUnavailable,
    /// No search backend is configured.
    SearchNotConfigured,
    /// The primary store reported success and delivered no entity.
    Unreachable,
    /// Any other failure, by its message.
    Other(String),
}

impl CoreError {
    /// The error that stands for a refused page request.
    pub open spec fn of_page(e: PageError) -> CoreError {
        match e {
            PageError::InvalidArgument => CoreError::InvalidArgument,
            PageError::InvalidCursor => CoreError::InvalidCursor,
        }
    }

    /// The error that stands for an unfavourable verdict on a mutation's
    /// references. Outcomes that do not match the references are a fault of
    /// the caller's own making and count as unreachable.
    pub open spec fn of_validation(e: ValidationError) -> CoreError {
        match e {
            ValidationError::Incomplete => CoreError::Unreachable,
            ValidationError::Transport(t) => CoreError::Transport(t.message),
            ValidationError::MissingReference { kind, id } => CoreError::MissingReference {
                kind,
                id,
            },
        }
    }

    /// The error that stands for a failed search, where the search itself
    /// names one: a failure of the store or of the query is the caller's to
    /// report, with the error that it holds.
    pub open spec fn of_search(e: SearchError) -> Option<CoreError> {
        match e {
            SearchError::SearchNotConfigured => Some(CoreError::SearchNotConfigured),
            SearchError::IndexUnavailable => Some(CoreError::IndexUnavailable),
            SearchError::OutOfTurn => Some(CoreError::Unreachable),
            SearchError::FetchFailed => None,
            SearchError::QueryFailed => None,
        }
    }

    /// The error that stands for a failed read, where the read itself names
    /// one: a failure of the source of truth is the caller's to report.
    pub open spec fn of_read(e: ReadError) -> Option<CoreError> {
        match e {
            ReadError::OutOfTurn => Some(CoreError::Unreachable),
            ReadError::FetchFailed => None,
        }
    }

    /// Turns a refused page request into an error of the core.
    pub fn from_page(e: PageError) -> (r: CoreError)
        ensures
            r == CoreError::of_page(e),
    {
        match e {
            PageError::InvalidArgument => CoreError::InvalidArgument,
            PageError::InvalidCursor => CoreError::InvalidCursor,
        }
    }

    /// Turns an unfavourable verdict into an error of the core.
    pub fn from_validation(e: ValidationError) -> (r: CoreError)
        ensures
            r == CoreError::of_validation(e),
    {
        match e {
            ValidationError::Incomplete => CoreError::Unreachable,
            ValidationError::Transport(t) => CoreError::Transport(t.message),
            ValidationError::MissingReference { kind, id } => CoreError::MissingReference {
                kind,
                id,
            },
        }
    }

    /// Turns a failed search into an error of the core, where the search
    /// names one.
    pub fn from_search(e: SearchError) -> (r: Option<CoreError>)
        ensures
            r == CoreError::of_search(e),
    {
        match e {
            SearchError::SearchNotConfigured => Some(CoreError::SearchNotConfigured),
            SearchError::IndexUnavailable => Some(CoreError::IndexUnavailable),
            SearchError::OutOfTurn => Some(CoreError::Unreachable),
            SearchError::FetchFailed => None,
            SearchError::QueryFailed => None,
        }
    }

    /// Turns a failed read into an error of the core, where the read names
    /// one.
    pub fn from_read(e: ReadError) -> (r: Option<CoreError>)
        ensures
            r == CoreError::of_read(e),
    {
        match e {
            ReadError::OutOfTurn => Some(CoreError::Unreachable),
            ReadError::FetchFailed => None,
        }
    }

    /// The error that a failed search is reported with: the one that the
    /// search names, or else the one that the caller holds from the store or
    /// from the index.
    pub open spec fn of_failed_search(e: SearchError, held: Option<CoreError>) -> CoreError {
        match CoreError::of_search(e) {
            Some(named) => named,
            None => match held {
                Some(held) => held,
                None => CoreError::Unreachable,
            },
        }
    }

    /// The error that a failed read is reported with: the one that the
    /// caller holds from the source of truth, where that failed.
    pub open spec fn of_failed_read(e: ReadError, held: Option<CoreError>) -> CoreError {
        match CoreError::of_read(e) {
            Some(named) => named,
            None => match held {
                Some(held) => held,
                None => CoreError::Unreachable,
            },
        }
    }

    /// Makes the error that a failed search is reported with.
    pub fn failed_search(e: SearchError, held: Option<CoreError>) -> (r: CoreError)
        ensures
            r == CoreError::of_failed_search(e, held),
    {
        match CoreError::from_search(e) {
            Some(named) => named,
            None => match held {
                Some(held) => held,
                None => CoreError::Unreachable,
            },
        }
    }

    /// Makes the error that a failed read is reported with.
    pub fn failed_read(e: ReadError, held: Option<CoreError>) -> (r: CoreError)
        ensures
            r == CoreError::of_failed_read(e, held),
    {
        match CoreError::from_read(e) {
            Some(named) => named,
            None => match held {
                Some(held) => held,
                None => CoreError::Unreachable,
            },
        }
    }

    /// The name by which a missing reference is reported.
    pub open spec fn kind_name(kind: ReferenceKind) -> Seq<char> {
        match kind {
            ReferenceKind::Tag => "tag"@,
            ReferenceKind::Category => "category"@,
            ReferenceKind::Owner => "user"@,
        }
    }

    /// The message of this error, as a user reads it.
    pub open spec fn message(self) -> Seq<char> {
        match self {
            CoreError::Database(m) => m@,
            CoreError::InvalidId(text) => "invalid identifier: "@ + text@,
            CoreError::InvalidArgument => "page size out of range"@,
            CoreError::InvalidCursor => "invalid cursor"@,
            CoreError::MissingReference { kind, id } => CoreError::kind_name(kind) + ": "@
                + id.text() + " does not exist"@,
            CoreError::Transport(m) => m@,
            CoreError::IndexUnavailable => "items could not be indexed for search"@,
            CoreError::SearchNotConfigured => "no client configured for search"@,
            CoreError::Unreachable => "unreachable"@,
            CoreError::Other(m) => m@,
        }
    }

    /// Writes the message of this error. A missing reference is named by
    /// its kind and its identifier.
    pub fn to_string(&self) -> (text: String)
        ensures
            text@ == self.message(),
    {
        match self {
            CoreError::Database(m) => m.clone(),
            CoreError::InvalidId(t) => {
                let mut text = String::from_str("invalid identifier: ");
                text.append(t.as_str());
                text
            },
            CoreError::InvalidArgument => String::from_str("page size out of range"),
            CoreError::InvalidCursor => String::from_str("invalid cursor"),
            CoreError::MissingReference { kind, id } => {
                let mut text = String::from_str(
                    match kind {
                        ReferenceKind::Tag => "tag",
                        ReferenceKind::Category => "category",
                        ReferenceKind::Owner => "user",
                    },
                );
                text.append(": ");
                text.append(id.to_string().as_str());
                text.append(" does not exist");
                text
            },
            CoreError::Transport(m) => m.clone(),
            CoreError::IndexUnavailable => String::from_str(
                "items could not be indexed for search",
            ),
            CoreError::SearchNotConfigured => String::from_str("no client configured for search"),
            CoreError::Unreachable => String::from_str("unreachable"),
            CoreError::Other(m) => m.clone(),
        }
    }
}

} // verus!
