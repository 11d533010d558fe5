//! Core of a lending-library service: typed identifiers with a canonical
//! string form, opaque access tokens and the codec that turns them into
//! store-facing keys and values, a typed key-value token store, a pagination
//! envelope, and the ownership-aware repository contract for book records.

pub mod errors;
pub mod id;
pub mod auth;
pub mod store;
pub mod list;
pub mod book;
pub mod repository;
