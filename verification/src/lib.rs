//! Data-access core of a catalog API: cursor pagination over materialised
//! result sets, cache-aside reads, reference validation before mutations and
//! search-index synchronisation, each with a machine-checked contract.

pub mod cache;
pub mod cache_keys;
pub mod collections;
pub mod config;
pub mod cursor;
pub mod entity;
pub mod error;
pub mod events;
pub mod file_storage;
pub mod graphql;
pub mod graphql_requests;
pub mod ident;
pub mod model;
pub mod mutation;
pub mod pagination;
pub mod query;
pub mod search;
pub mod validation;
