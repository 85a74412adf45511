//! A full-text index over documents keyed by a 64-bit id, backed by tantivy.
//!
//! The verified part of the crate keeps the schema rules, the pending and
//! committed mutations as the index writer holds them, the ranking of query
//! hits, and a table of open indexes behind integer handles. The calls into tantivy stand behind the
//! small trusted items of `tantivy_calls`.

pub mod model;
pub mod schema;
pub mod tantivy_calls;
pub mod ranking;
pub mod engine;
pub mod registry;

pub use model::{FtError, Mutation};
pub use schema::{validate_field_names, ID_FIELD_NAME};
pub use ranking::{rank_hits, IdScore};
pub use engine::{
    ft_add_document, ft_commit, ft_delete_document, ft_query, new_ftindex, FTIndex, QueryOptions,
};
pub use registry::IndexRegistry;


