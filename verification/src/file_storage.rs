//! Object storage for the images of listings: where it is, and under which
//! names objects are stored.

use vstd::prelude::*;
use vstd::string::*;
use crate::ident::EntityId;

verus! {

/// Where the bucket is and how to sign in to it.
#[derive(Clone, Debug)]
pub struct S3Config {
    pub bucket_name: String,
    pub region: String,
    pub access_key: Option<String>,
    pub secret_key: Option<String>,
    pub endpoint: String,
}

/// The path of the object with the identifier `id`: a slash, then the
/// identifier.
pub open spec fn object_path_text(id: EntityId) -> Seq<char> {
    "/"@ + id.text()
}

/// The path under which the object with the identifier `id` is stored.
pub fn object_path(id: &EntityId) -> (path: String)
    ensures
        path@ == object_path_text(*id),
{
    let mut path = String::from_str("/");
    path.append(id.to_string().as_str());
    path
}

/// What is reported of a stored object: its identifier, and its identifier
/// again in the place of its address.
pub fn stored_object(id: &EntityId) -> (r: (String, String))
    ensures
        r.0@ == id.text(),
        r.1@ == id.text(),
{
    (id.to_string(), id.to_string())
}

} // verus!
