//! A verified data-access core for a document-oriented service.
//!
//! The crate gives a persisted entity a uniform operation set — create with
//! validation, point lookup, filtered and paginated reads, atomic
//! find-and-update, bulk update and delete, counting and aggregation — over
//! an in-memory document store whose behaviour is stated and proved against
//! a mathematical view (a sequence of documents). Around that core stand the
//! pieces every handler needs: a pagination resolver that clamps
//! client-supplied offsets and limits, a closed error taxonomy with its
//! status-code mapping, and a response envelope builder.

pub mod cats;
pub mod errors;
pub mod model;
pub mod oid;
pub mod pages;
pub mod pagination;
pub mod query;
pub mod response;
pub mod settings;
pub mod store;
