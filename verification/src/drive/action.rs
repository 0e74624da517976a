//! What a request has done for it, and what came of it.
//!
//! Paths are relative to the workspace, unless they are said to be virtual.

use vstd::prelude::*;

use super::api::{ApiError, ChildInfo, NodeInfo};
use crate::text::texts;
use crate::types::{Address, ContentHash, Context, RepositoryId};

verus! {

/// What to do next.
#[derive(Debug)]
pub enum Action {
    /// Fetch the record of a node of the served tree.
    NodeInfo { node: u32 },
    /// Fetch the virtual path of a node.
    NodePath { node: u32 },
    /// List the children of a directory.
    Children { node: u32 },
    /// Find the node at a path of the served tree.
    Resolve { path: String },
    /// Look whether there is anything at a path of the working directory.
    Exists { path: String },
    /// Create a scratch directory for the request.
    CreateScratch,
    /// Take up the next field of the upload.
    NextPart,
    /// Read the content of the field at hand.
    ReadPart,
    /// Keep the content of the field at hand in the scratch directory.
    KeepPart { part: usize },
    /// Create a directory.
    CreateDir { path: String },
    /// Create every directory on the way to a path that is missing.
    CreateParents { path: String },
    /// Copy an uploaded part to a path.
    Place { part: usize, path: String },
    /// Write an empty file.
    WriteEmpty { path: String },
    /// Rename a file or a directory.
    Rename { from: String, to: String },
    /// Remove a directory and all that is in it.
    RemoveTree { path: String },
    /// Remove a file.
    RemoveFile { path: String },
    /// Remove files, as far as that works.
    RemoveFiles { paths: Vec<String> },
    /// Remove what the mutable store holds under a key, if it holds anything.
    RemoveEntry { key: ContentHash },
    /// Stage paths.
    Stage { paths: Vec<String> },
    /// Stage a move.
    StageMove { from: String, to: String },
    /// Commit what is staged.
    Commit { message: String },
    /// Look up the staged revision.
    StagedRevision,
    /// Look up the revision that the active branch is at.
    Anchor,
    /// Load the tree of a revision.
    LoadTree { revision: ContentHash },
    /// Serve a tree in place of the one that is served.
    SwapTree { tree: u64, revision: ContentHash },
    /// Look up the address that is remembered for a node.
    Cached { node: u32 },
    /// Store the content of a file for a context.
    PutFile { context: Context, path: String },
    /// Remember the address of a node.
    Remember { node: u32, address: Address },
    /// Fetch stored content into a scratch file.
    Fetch { repository: RepositoryId, address: Address },
    /// Read the scratch file that content was fetched into.
    ReadFetched,
    /// Read a file of the working directory.
    ReadFile { path: String },
    /// Nothing: the request has its reply.
    Finish,
}

/// What an [`Action`] says.
pub enum Step {
    NodeInfo { node: u32 },
    NodePath { node: u32 },
    Children { node: u32 },
    Resolve { path: Seq<char> },
    Exists { path: Seq<char> },
    CreateScratch,
    NextPart,
    ReadPart,
    KeepPart { part: int },
    CreateDir { path: Seq<char> },
    CreateParents { path: Seq<char> },
    Place { part: int, path: Seq<char> },
    WriteEmpty { path: Seq<char> },
    Rename { from: Seq<char>, to: Seq<char> },
    RemoveTree { path: Seq<char> },
    RemoveFile { path: Seq<char> },
    RemoveFiles { paths: Seq<Seq<char>> },
    RemoveEntry { key: Seq<u8> },
    Stage { paths: Seq<Seq<char>> },
    StageMove { from: Seq<char>, to: Seq<char> },
    Commit { message: Seq<char> },
    StagedRevision,
    Anchor,
    LoadTree { revision: ContentHash },
    SwapTree { tree: u64, revision: ContentHash },
    Cached { node: u32 },
    PutFile { context: Context, path: Seq<char> },
    Remember { node: u32, address: Address },
    Fetch { repository: RepositoryId, address: Address },
    ReadFetched,
    ReadFile { path: Seq<char> },
    Finish,
}

impl View for Action {
    type V = Step;

    open spec fn view(&self) -> Step {
        match *self {
            Action::NodeInfo { node } => Step::NodeInfo { node },
            Action::NodePath { node } => Step::NodePath { node },
            Action::Children { node } => Step::Children { node },
            Action::Resolve { path } => Step::Resolve { path: path@ },
            Action::Exists { path } => Step::Exists { path: path@ },
            Action::CreateScratch => Step::CreateScratch,
            Action::NextPart => Step::NextPart,
            Action::ReadPart => Step::ReadPart,
            Action::KeepPart { part } => Step::KeepPart { part: part as int },
            Action::CreateDir { path } => Step::CreateDir { path: path@ },
            Action::CreateParents { path } => Step::CreateParents { path: path@ },
            Action::Place { part, path } => Step::Place { part: part as int, path: path@ },
            Action::WriteEmpty { path } => Step::WriteEmpty { path: path@ },
            Action::Rename { from, to } => Step::Rename { from: from@, to: to@ },
            Action::RemoveTree { path } => Step::RemoveTree { path: path@ },
            Action::RemoveFile { path } => Step::RemoveFile { path: path@ },
            Action::RemoveFiles { paths } => Step::RemoveFiles { paths: texts(paths@) },
            Action::RemoveEntry { key } => Step::RemoveEntry { key: key.data@ },
            Action::Stage { paths } => Step::Stage { paths: texts(paths@) },
            Action::StageMove { from, to } => Step::StageMove { from: from@, to: to@ },
            Action::Commit { message } => Step::Commit { message: message@ },
            Action::StagedRevision => Step::StagedRevision,
            Action::Anchor => Step::Anchor,
            Action::LoadTree { revision } => Step::LoadTree { revision },
            Action::SwapTree { tree, revision } => Step::SwapTree { tree, revision },
            Action::Cached { node } => Step::Cached { node },
            Action::PutFile { context, path } => Step::PutFile { context, path: path@ },
            Action::Remember { node, address } => Step::Remember { node, address },
            Action::Fetch { repository, address } => Step::Fetch { repository, address },
            Action::ReadFetched => Step::ReadFetched,
            Action::ReadFile { path } => Step::ReadFile { path: path@ },
            Action::Finish => Step::Finish,
        }
    }
}

/// What came of an action. Where an action can fail for a reason that lies outside, its outcome
/// holds what is said of the failure.
pub enum Event {
    NodeInfo(Result<NodeInfo, ApiError>),
    NodePath(Result<String, ApiError>),
    Children(Result<(RepositoryId, ContentHash, Vec<ChildInfo>), ApiError>),
    Resolved(Option<u32>),
    Exists(bool),
    /// The next field of an upload: none is left, or one with the file name it carries, if any.
    Part(Result<Option<Option<String>>, String>),
    /// The size of the content of a field.
    PartRead(Result<u64, String>),
    Done(Result<(), String>),
    Staged(Result<ContentHash, String>),
    Committed(Result<Option<ContentHash>, String>),
    StagedRevision(Option<ContentHash>),
    Anchor(Result<ContentHash, String>),
    Tree(Result<u64, String>),
    Cached(Option<Address>),
    Stored(Result<Address, String>),
    Content(Result<Vec<u8>, String>),
}

/// Whether `event` is what can come of `step`.
pub open spec fn answers(event: Event, step: Step) -> bool {
    match step {
        Step::NodeInfo { .. } => event is NodeInfo,
        Step::NodePath { .. } => event is NodePath,
        Step::Children { .. } => event is Children,
        Step::Resolve { .. } => event is Resolved,
        Step::Exists { .. } => event is Exists,
        Step::NextPart => event is Part,
        Step::ReadPart => event is PartRead,
        Step::Stage { .. } | Step::StageMove { .. } => event is Staged,
        Step::Commit { .. } => event is Committed,
        Step::StagedRevision => event is StagedRevision,
        Step::Anchor => event is Anchor,
        Step::LoadTree { .. } => event is Tree,
        Step::Cached { .. } => event is Cached,
        Step::PutFile { .. } => event is Stored,
        Step::ReadFetched | Step::ReadFile { .. } => event is Content,
        Step::Finish => false,
        _ => event is Done,
    }
}

} // verus!
