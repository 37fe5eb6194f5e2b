//! Requests to the sibling services that own users and categories, and
//! what their answers say about whether an entity exists.

use vstd::prelude::*;
use crate::ident::EntityId;
use crate::validation::TransportError;

verus! {

/// The query for a category by its identifier.
#[allow(non_camel_case_types)]
#[derive(Debug, Clone, Copy, PartialEq, Eq)]
pub struct categoryById;

/// The query for a user by its identifier.
#[allow(non_camel_case_types)]
#[derive(Debug, Clone, Copy, PartialEq, Eq)]
pub struct userById;

/// The body of an answer: its data, if the service sent any, and in the
/// data the identifier of the entity, if the service found it.
#[derive(Debug, Clone, Copy, PartialEq, Eq, Structural)]
pub struct ResponseData {
    pub data: Option<Option<EntityId>>,
}

/// Whether an answer says that the entity exists: it carries data, and the
/// data carries the entity.
pub open spec fn is_located(response: ResponseData) -> bool {
    response.data matches Some(Some(_))
}

impl categoryById {
    /// The name of the operation.
    pub const OPERATION_NAME: &'static str = "categoryById";

    /// Whether the answer of the service says that the category exists.
    pub fn located(response: &ResponseData) -> (found: bool)
        ensures
            found == is_located(*response),
    {
        match response.data {
            Some(Some(_)) => true,
            _ => false,
        }
    }
}

impl userById {
    /// The name of the operation.
    pub const OPERATION_NAME: &'static str = "userById";

    /// Whether the answer of the service says that the user exists.
    pub fn located(response: &ResponseData) -> (found: bool)
        ensures
            found == is_located(*response),
    {
        match response.data {
            Some(Some(_)) => true,
            _ => false,
        }
    }
}

/// What an exchange with a service says about an entity: whether it
/// exists, or that the service could not be reached, with the message of
/// the failure.
pub open spec fn lookup_outcome(exchange: Result<ResponseData, String>) -> Result<
    bool,
    TransportError,
> {
    match exchange {
        Ok(response) => Ok(is_located(response)),
        Err(message) => Err(TransportError { message }),
    }
}

/// Reads the exchange with the service that owns the categories.
pub fn find_category_by_id(exchange: Result<ResponseData, String>) -> (r: Result<
    bool,
    TransportError,
>)
    ensures
        r == lookup_outcome(exchange),
{
    match exchange {
        Ok(response) => Ok(categoryById::located(&response)),
        Err(message) => Err(TransportError { message }),
    }
}

/// Reads the exchange with the service that owns the users.
pub fn find_user_by_id(exchange: Result<ResponseData, String>) -> (r: Result<bool, TransportError>)
    ensures
        r == lookup_outcome(exchange),
{
    match exchange {
        Ok(response) => Ok(userById::located(&response)),
        Err(message) => Err(TransportError { message }),
    }
}

} // verus!
