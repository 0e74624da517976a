//! An immutable store of fragments, over an object store for payloads and a catalog for metadata.
//!
//! A payload is stored under its hash. The catalog says which repositories and contexts a payload is
//! stored for. The two cannot be changed together: a payload is written before the catalog is told of
//! it, and deleted only once the catalog says that nothing refers to it.

pub mod action;
pub mod copy;
pub mod delete;
pub mod get;
pub mod kept;
pub mod laws;
pub mod obliterate;
pub mod payload;
pub mod put;
pub mod settings;
pub mod types;
