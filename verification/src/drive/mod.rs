//! A workspace served as a browsable tree of files and folders, with writes that go through the
//! working directory.
//!
//! In drive mode a mutation replaces the one staged revision and never commits. In versioned mode
//! each mutation makes one commit on the active branch, unless nothing is staged.
//!
//! A request is a machine: it says what to do next, an [`action::Action`], and takes what came of
//! it, an [`action::Event`], until it has a reply.

pub mod action;
pub mod api;
pub mod archive;
pub mod browse;
pub mod delete;
pub mod download;
pub mod effective;
pub mod epilogue;
pub mod header;
pub mod laws;
pub mod mkdir;
pub mod open;
pub mod patch;
pub mod path;
pub mod read;
pub mod record;
pub mod upload;
pub mod verbs;
pub mod workspace;
