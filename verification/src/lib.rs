//! Lore: the verified core of a content-addressed version store.

pub mod command;
pub mod drive;
pub mod laws;
pub mod profile;
pub mod props;
pub mod stamp;
pub mod store;
pub mod text;
pub mod types;
pub mod version;
