//! What requests are answered with.

use vstd::prelude::*;

use crate::text::{number_of, parse_number, texts};
use crate::types::Address;

verus! {

/// The status of an answer.
#[derive(Clone, Copy, Debug, PartialEq, Eq, Structural)]
pub enum Status {
    Success,
    Created,
    BadRequest,
    NotFound,
    Conflict,
    InternalServerError,
}

impl Status {
    /// The HTTP status code.
    pub fn code(&self) -> (code: u16)
        ensures
            code == match *self {
                Status::Success => 200u16,
                Status::Created => 201u16,
                Status::BadRequest => 400u16,
                Status::NotFound => 404u16,
                Status::Conflict => 409u16,
                Status::InternalServerError => 500u16,
            },
    {
        match self {
            Status::Success => 200,
            Status::Created => 201,
            Status::BadRequest => 400,
            Status::NotFound => 404,
            Status::Conflict => 409,
            Status::InternalServerError => 500,
        }
    }
}

/// What a request that fails is answered with: a status, what is said, and the paths that are in the
/// way where some are.
#[derive(Debug)]
pub struct ApiError {
    pub status: Status,
    pub error: String,
    pub conflicts: Option<Vec<String>>,
}

/// What an [`ApiError`] says.
pub struct Refusal {
    pub status: Status,
    pub error: Seq<char>,
    pub conflicts: Option<Seq<Seq<char>>>,
}

impl View for ApiError {
    type V = Refusal;

    open spec fn view(&self) -> Refusal {
        Refusal {
            status: self.status,
            error: self.error@,
            conflicts: match self.conflicts {
                Some(list) => Some(texts(list@)),
                None => None,
            },
        }
    }
}

impl ApiError {
    /// Another error that says the same.
    pub fn duplicate(&self) -> (same: ApiError)
        ensures
            same@ == self@,
    {
        ApiError {
            status: self.status,
            error: self.error.clone(),
            conflicts: match &self.conflicts {
                Some(list) => {
                    let copy: Vec<String> = list.clone();
                    proof {
                        assert(texts(copy@) =~= texts(list@));
                    }
                    Some(copy)
                },
                None => None,
            },
        }
    }
}

/// A refusal without conflicts.
pub open spec fn refusal(status: Status, error: Seq<char>) -> Refusal {
    Refusal { status, error, conflicts: None }
}

/// An error without conflicts.
pub fn err_resp(status: Status, message: &str) -> (error: ApiError)
    ensures
        error@ == refusal(status, message@),
{
    ApiError { status, error: message.to_owned(), conflicts: None }
}

/// The error that says which paths are in the way.
pub fn conflict_resp(message: &str, conflicts: Vec<String>) -> (error: ApiError)
    ensures
        error@ == (Refusal {
            status: Status::Conflict,
            error: message@,
            conflicts: Some(texts(conflicts@)),
        }),
{
    ApiError { status: Status::Conflict, error: message.to_owned(), conflicts: Some(conflicts) }
}

/// What a node of the tree is.
#[derive(Clone, Copy, Debug, PartialEq, Eq, Structural)]
pub enum NodeKind {
    File,
    Directory,
    Link,
    Other,
}

/// The name of a kind, as answers hold it.
pub open spec fn kind_text(kind: NodeKind) -> Seq<char> {
    match kind {
        NodeKind::File => "file"@,
        NodeKind::Link => "link"@,
        _ => "directory"@,
    }
}

/// The name of a kind, as answers hold it.
pub fn kind_str(kind: NodeKind) -> (text: &'static str)
    ensures
        text@ == kind_text(kind),
{
    match kind {
        NodeKind::File => "file",
        NodeKind::Link => "link",
        _ => "directory",
    }
}

/// Whether a node is a file.
pub fn is_file(kind: NodeKind) -> (answer: bool)
    ensures
        answer == (kind == NodeKind::File),
{
    matches!(kind, NodeKind::File)
}

/// Whether a node is a directory.
pub fn is_dir(kind: NodeKind) -> (answer: bool)
    ensures
        answer == (kind == NodeKind::Directory),
{
    matches!(kind, NodeKind::Directory)
}

/// Whether a node is a link.
pub fn is_link(kind: NodeKind) -> (answer: bool)
    ensures
        answer == (kind == NodeKind::Link),
{
    matches!(kind, NodeKind::Link)
}

/// The address that an answer holds for a node: none for a directory.
pub open spec fn address_text(kind: NodeKind, address: Address) -> Option<Seq<char>> {
    if kind == NodeKind::Directory {
        None
    } else {
        Some(address.text())
    }
}

/// `None` for a directory, the text of `address` for any other node.
pub fn address_opt(kind: NodeKind, address: Address) -> (text: Option<String>)
    ensures
        match text {
            Some(text) => address_text(kind, address) == Some(text@),
            None => address_text(kind, address) is None,
        },
{
    if is_dir(kind) {
        None
    } else {
        Some(address.to_text())
    }
}

/// The name of the serving mode.
pub open spec fn mode_text(versioned: bool) -> Seq<char> {
    if versioned {
        "versioned"@
    } else {
        "drive"@
    }
}

/// The name of the serving mode.
pub fn mode_str(versioned: bool) -> (mode: &'static str)
    ensures
        mode@ == mode_text(versioned),
{
    if versioned {
        "versioned"
    } else {
        "drive"
    }
}

/// The node ids that stand for no node of their own: the root, and no node at all.
#[derive(Clone, Copy, Debug)]
pub struct NodeIds {
    pub root: u32,
    pub invalid: u32,
}

/// The node that a request names, or why it names none.
pub open spec fn node_named(raw: u64, ids: NodeIds) -> Result<u32, Refusal> {
    if raw > u32::MAX {
        Err(refusal(Status::BadRequest, "node_id out of u32 range"@))
    } else if raw == ids.invalid {
        Err(refusal(Status::BadRequest, "node_id is the invalid sentinel"@))
    } else {
        Ok(raw as u32)
    }
}

/// Whether an outcome that carries an error is the one that is stated.
pub open spec fn is_outcome<T>(outcome: Result<T, ApiError>, stated: Result<T, Refusal>) -> bool {
    match outcome {
        Ok(value) => stated == Ok::<T, Refusal>(value),
        Err(error) => stated == Err::<T, Refusal>(error@),
    }
}

/// The node that a request names: an id of 32 bits that is not the invalid one.
pub fn parse_node_id(raw: u64, ids: NodeIds) -> (named: Result<u32, ApiError>)
    ensures
        is_outcome(named, node_named(raw, ids)),
{
    if raw > u32::MAX as u64 {
        return Err(err_resp(Status::BadRequest, "node_id out of u32 range"));
    }
    let id: u32 = raw as u32;
    if id == ids.invalid {
        return Err(err_resp(Status::BadRequest, "node_id is the invalid sentinel"));
    }
    Ok(id)
}

/// The node that the text of a request names, or why it names none.
pub open spec fn node_written(text: Seq<char>, ids: NodeIds) -> Result<u32, Refusal> {
    match number_of(text) {
        Some(raw) => node_named(raw, ids),
        None => Err(refusal(Status::BadRequest, "node_id must be a u64"@)),
    }
}

/// The node that the text of a request names.
pub fn parse_node_text(text: &str, ids: NodeIds) -> (named: Result<u32, ApiError>)
    ensures
        is_outcome(named, node_written(text@, ids)),
{
    match parse_number(text) {
        Some(raw) => parse_node_id(raw, ids),
        None => Err(err_resp(Status::BadRequest, "node_id must be a u64")),
    }
}

/// What is known of a node.
#[derive(Debug)]
pub struct NodeInfo {
    pub node_id: u32,
    pub parent_id: u32,
    pub name: String,
    pub kind: NodeKind,
    pub mode: u16,
    pub size: u64,
    pub address: Address,
}

/// One child of a directory.
#[derive(Debug)]
pub struct ChildInfo {
    pub node_id: u32,
    pub name: String,
    pub kind: NodeKind,
    pub mode: u16,
    pub size: u64,
    pub address: Address,
}

} // verus!
