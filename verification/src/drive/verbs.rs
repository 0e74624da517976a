//! What the verbs of the version store report, as values.
//!
//! A verb ends with a status and tells what it found through events. Each function here takes the
//! status and what was told, and says what the verb came to.

use vstd::prelude::*;

use super::api::{
    err_resp, is_outcome, refusal, ApiError, ChildInfo, NodeIds, NodeInfo, Refusal, Status,
};
use crate::text::{
    ascii_lower, ascii_lowercase, contains_text, decimal_signed, holds_part, join_texts,
    joined_texts, signed_digits, texts,
};
use crate::types::{Address, ContentHash, RepositoryId};

verus! {

/// The code that an event carries: no error, or which one.
#[derive(Debug)]
pub enum ErrorCode {
    NoError,
    InvalidArguments,
    Other(String),
}

/// The name of an error code.
pub open spec fn code_text(code: ErrorCode) -> Seq<char> {
    match code {
        ErrorCode::NoError => "None"@,
        ErrorCode::InvalidArguments => "InvalidArguments"@,
        ErrorCode::Other(name) => name@,
    }
}

/// The name of an error code.
fn code_name(code: &ErrorCode) -> (name: String)
    ensures
        name@ == code_text(*code),
{
    match code {
        ErrorCode::NoError => "None".to_owned(),
        ErrorCode::InvalidArguments => "InvalidArguments".to_owned(),
        ErrorCode::Other(name) => name.clone(),
    }
}

/// The record of a node, from what the verb for it reported.
pub open spec fn node_info_found(status: i32, reported: Option<(NodeInfo, ErrorCode)>) -> Result<
    NodeInfo,
    Refusal,
> {
    match reported {
        Some((info, ErrorCode::NoError)) if status == 0 => Ok(info),
        Some((_, ErrorCode::InvalidArguments)) => Err(
            refusal(Status::NotFound, "node not found"@),
        ),
        _ => Err(refusal(Status::InternalServerError, "node_info failed"@)),
    }
}

/// The record of a node, from what the verb for it reported.
pub fn fetch_node_info(status: i32, reported: Option<(NodeInfo, ErrorCode)>) -> (found: Result<
    NodeInfo,
    ApiError,
>)
    ensures
        is_outcome(found, node_info_found(status, reported)),
{
    match reported {
        Some((info, ErrorCode::NoError)) => if status == 0 {
            Ok(info)
        } else {
            Err(err_resp(Status::InternalServerError, "node_info failed"))
        },
        Some((_, ErrorCode::InvalidArguments)) => Err(
            err_resp(Status::NotFound, "node not found"),
        ),
        _ => Err(err_resp(Status::InternalServerError, "node_info failed")),
    }
}

/// The virtual path of a node, from what the verb for it reported: `/` for the root.
pub open spec fn node_path_found(status: i32, reported: Option<(String, ErrorCode)>) -> Result<
    Seq<char>,
    Refusal,
> {
    match reported {
        Some((raw, ErrorCode::NoError)) if status == 0 => Ok("/"@ + raw@),
        _ => Err(refusal(Status::InternalServerError, "node_path failed"@)),
    }
}

/// Whether an outcome with a text is the one that is stated.
pub open spec fn is_text_outcome(
    outcome: Result<String, ApiError>,
    stated: Result<Seq<char>, Refusal>,
) -> bool {
    match outcome {
        Ok(text) => stated == Ok::<Seq<char>, Refusal>(text@),
        Err(error) => stated == Err::<Seq<char>, Refusal>(error@),
    }
}

/// The virtual path of a node, from what the verb for it reported: `/` for the root.
pub fn fetch_node_path(status: i32, reported: Option<(String, ErrorCode)>) -> (found: Result<
    String,
    ApiError,
>)
    ensures
        is_text_outcome(found, node_path_found(status, reported)),
{
    match reported {
        Some((raw, ErrorCode::NoError)) => if status == 0 {
            Ok("/".to_owned().concat(raw.as_str()))
        } else {
            Err(err_resp(Status::InternalServerError, "node_path failed"))
        },
        _ => Err(err_resp(Status::InternalServerError, "node_path failed")),
    }
}

/// One thing that listing a directory tells.
pub enum ListEvent {
    /// The listing starts.
    Begin { repository_id: RepositoryId, revision: ContentHash, error: ErrorCode },
    /// A child of the directory.
    Child(ChildInfo),
    /// Anything else.
    Other,
}

/// What a listing has told so far.
pub struct Listing {
    pub repository_id: RepositoryId,
    pub revision: ContentHash,
    pub begin_error: ErrorCode,
    pub children: Vec<ChildInfo>,
}

impl Listing {
    /// A listing that has told nothing.
    pub fn new() -> (listing: Listing)
        ensures
            listing.repository_id.is_zero(),
            listing.revision.is_zero(),
            listing.begin_error == ErrorCode::NoError,
            listing.children@ == Seq::<ChildInfo>::empty(),
    {
        Listing {
            repository_id: RepositoryId::default(),
            revision: ContentHash::default(),
            begin_error: ErrorCode::NoError,
            children: Vec::new(),
        }
    }

    /// Takes one thing that the listing tells.
    pub fn take(&mut self, event: ListEvent)
        ensures
            match event {
                ListEvent::Begin { repository_id, revision, error } => {
                    &&& final(self).repository_id == repository_id
                    &&& final(self).revision == revision
                    &&& final(self).begin_error == error
                    &&& final(self).children@ == old(self).children@
                },
                ListEvent::Child(child) => {
                    &&& final(self).repository_id == old(self).repository_id
                    &&& final(self).revision == old(self).revision
                    &&& final(self).begin_error == old(self).begin_error
                    &&& final(self).children@ == old(self).children@.push(child)
                },
                ListEvent::Other => *final(self) == *old(self),
            },
    {
        match event {
            ListEvent::Begin { repository_id, revision, error } => {
                self.repository_id = repository_id;
                self.revision = revision;
                self.begin_error = error;
            },
            ListEvent::Child(child) => {
                self.children.push(child);
            },
            ListEvent::Other => {},
        }
    }
}

/// The children of a directory, with the repository and the revision they belong to, from what
/// listing them told.
pub fn fetch_children(status: i32, listing: Listing) -> (found: Result<
    (RepositoryId, ContentHash, Vec<ChildInfo>),
    ApiError,
>)
    ensures
        match found {
            Ok(found) => {
                &&& status == 0 && listing.begin_error == ErrorCode::NoError
                &&& found.0 == listing.repository_id
                &&& found.1 == listing.revision
                &&& found.2@ == listing.children@
            },
            Err(error) => {
                &&& status != 0 || listing.begin_error != ErrorCode::NoError
                &&& error@ == refusal(Status::BadRequest, "node_id is not a valid directory node"@)
            },
        },
{
    let begun: bool = match listing.begin_error {
        ErrorCode::NoError => true,
        _ => false,
    };
    if status != 0 || !begun {
        return Err(err_resp(Status::BadRequest, "node_id is not a valid directory node"));
    }
    Ok((listing.repository_id, listing.revision, listing.children))
}

/// The node at a path, if there is one, from what resolving the path reported.
pub fn try_resolve_path(
    status: i32,
    reported: Option<(u32, ErrorCode)>,
    ids: NodeIds,
) -> (node: Option<u32>)
    ensures
        node == match reported {
            Some((node, ErrorCode::NoError)) if status == 0 && node != ids.invalid => Some(node),
            _ => None,
        },
{
    match reported {
        Some((node, ErrorCode::NoError)) => if status == 0 && node != ids.invalid {
            Some(node)
        } else {
            None
        },
        _ => None,
    }
}

/// Whether an outcome whose failure is a text is the one that is stated.
pub open spec fn is_verb_outcome<T>(
    outcome: Result<T, String>,
    stated: Result<T, Seq<char>>,
) -> bool {
    match outcome {
        Ok(value) => stated == Ok::<T, Seq<char>>(value),
        Err(text) => stated == Err::<T, Seq<char>>(text@),
    }
}

/// How fetching content from the store into a file ended.
pub fn cas_fetch_to_file(status: i32, completed: Option<ErrorCode>) -> (fetched: Result<
    (),
    String,
>)
    ensures
        is_verb_outcome(
            fetched,
            match completed {
                Some(ErrorCode::NoError) if status == 0 => Ok(()),
                Some(code) => Err("get_file failed: "@ + code_text(code)),
                None => Err(
                    "get_file emitted no completion (status "@ + signed_digits(status as int)
                        + ")"@,
                ),
            },
        ),
{
    match completed {
        Some(code) => {
            let stored: bool = status == 0 && (match code {
                ErrorCode::NoError => true,
                _ => false,
            });
            if stored {
                Ok(())
            } else {
                Err("get_file failed: ".to_owned().concat(code_name(&code).as_str()))
            }
        },
        None => Err(
            "get_file emitted no completion (status ".to_owned().concat(
                decimal_signed(status).as_str(),
            ).concat(")"),
        ),
    }
}

/// The address that content was stored at, from what storing a file reported.
pub fn cas_put_file(status: i32, completed: Option<(Address, ErrorCode)>) -> (stored: Result<
    Address,
    String,
>)
    ensures
        is_verb_outcome(
            stored,
            match completed {
                Some((address, ErrorCode::NoError)) if status == 0 => Ok(address),
                Some((_, code)) => Err("put_file failed: "@ + code_text(code)),
                None => Err(
                    "put_file emitted no completion (status "@ + signed_digits(status as int)
                        + ")"@,
                ),
            },
        ),
{
    match completed {
        Some((address, code)) => {
            let done: bool = status == 0 && (match code {
                ErrorCode::NoError => true,
                _ => false,
            });
            if done {
                Ok(address)
            } else {
                Err("put_file failed: ".to_owned().concat(code_name(&code).as_str()))
            }
        },
        None => Err(
            "put_file emitted no completion (status ".to_owned().concat(
                decimal_signed(status).as_str(),
            ).concat(")"),
        ),
    }
}

/// One thing that staging or committing tells.
pub enum RevisionEvent {
    /// The revision that was made.
    Revision(ContentHash),
    /// An error.
    Error(String),
    /// Anything else.
    Other,
}

/// What staging or committing has told so far: the last revision, and every error.
pub struct Told {
    pub revision: Option<ContentHash>,
    pub errors: Vec<String>,
}

impl Told {
    /// Nothing is told.
    pub fn new() -> (told: Told)
        ensures
            told.revision is None,
            told.errors@ == Seq::<String>::empty(),
    {
        Told { revision: None, errors: Vec::new() }
    }

    /// Takes one thing that is told.
    pub fn take(&mut self, event: RevisionEvent)
        ensures
            match event {
                RevisionEvent::Revision(revision) => final(self).revision == Some(revision)
                    && final(self).errors@ == old(self).errors@,
                RevisionEvent::Error(error) => final(self).revision == old(self).revision && final(
                    self).errors@ == old(self).errors@.push(error),
                RevisionEvent::Other => *final(self) == *old(self),
            },
    {
        match event {
            RevisionEvent::Revision(revision) => {
                self.revision = Some(revision);
            },
            RevisionEvent::Error(error) => {
                self.errors.push(error);
            },
            RevisionEvent::Other => {},
        }
    }
}

/// The revision that the staging verb called `verb` made, or why there is none.
pub open spec fn revision_staged(verb: Seq<char>, status: i32, told: Told) -> Result<
    ContentHash,
    Seq<char>,
> {
    match told.revision {
        Some(revision) if status == 0 => Ok(revision),
        _ if status == 0 => Err(verb + " emitted no staged revision"@),
        _ => Err(
            verb + " failed (status "@ + signed_digits(status as int) + "): "@ + joined_texts(
                texts(told.errors@),
                "; "@,
            ),
        ),
    }
}

/// The revision that a staging verb made, or why there is none.
fn staged_by(verb: &str, status: i32, told: &Told) -> (staged: Result<ContentHash, String>)
    ensures
        is_verb_outcome(staged, revision_staged(verb@, status, *told)),
{
    if status == 0 {
        match told.revision {
            Some(revision) => Ok(revision),
            None => Err(verb.to_owned().concat(" emitted no staged revision")),
        }
    } else {
        Err(
            verb.to_owned().concat(" failed (status ").concat(
                decimal_signed(status).as_str(),
            ).concat("): ").concat(join_texts(&told.errors, "; ").as_str()),
        )
    }
}

/// The staged revision that staging paths made.
pub fn stage_paths(status: i32, told: &Told) -> (staged: Result<ContentHash, String>)
    ensures
        is_verb_outcome(staged, revision_staged("stage"@, status, *told)),
{
    staged_by("stage", status, told)
}

/// The staged revision that staging a move made.
pub fn stage_move_path(status: i32, told: &Told) -> (staged: Result<ContentHash, String>)
    ensures
        is_verb_outcome(staged, revision_staged("stage_move"@, status, *told)),
{
    staged_by("stage_move", status, told)
}

/// Whether an error says that there was nothing to commit.
pub open spec fn says_nothing_staged(error: Seq<char>) -> bool {
    let lower = ascii_lower(error);
    holds_part(lower, "nothingstaged"@) || (holds_part(lower, "nothing"@) && holds_part(
        lower,
        "staged"@,
    ))
}

/// Whether one of the errors of a commit says that there was nothing to commit.
pub fn is_nothing_staged(errors: &Vec<String>) -> (answer: bool)
    ensures
        answer == exists|i: int|
            0 <= i < errors@.len() && says_nothing_staged(#[trigger] texts(errors@)[i]),
{
    let count: usize = errors.len();
    let mut i: usize = 0;
    while i < count
        invariant
            i <= count == errors@.len(),
            forall|j: int| 0 <= j < i ==> !says_nothing_staged(#[trigger] texts(errors@)[j]),
        decreases count - i,
    {
        let lower = ascii_lowercase(errors[i].as_str());
        if contains_text(lower.as_str(), "nothingstaged") || (contains_text(
            lower.as_str(),
            "nothing",
        ) && contains_text(lower.as_str(), "staged")) {
            proof {
                assert(says_nothing_staged(texts(errors@)[i as int]));
            }
            return true;
        }
        i = i + 1;
    }
    false
}

/// What a commit came to: the revision that it made, none if there was nothing to commit, or why it
/// failed.
pub open spec fn commit_made(status: i32, told: Told) -> Result<Option<ContentHash>, Seq<char>> {
    match told.revision {
        Some(revision) if status == 0 => Ok(Some(revision)),
        _ => if exists|i: int|
            0 <= i < told.errors@.len() && says_nothing_staged(#[trigger] texts(told.errors@)[i]) {
            Ok(None)
        } else {
            Err(
                "commit failed (status "@ + signed_digits(status as int) + "): "@ + (
                if told.errors@.len() == 0 {
                    "unknown error"@
                } else {
                    joined_texts(texts(told.errors@), "; "@)
                }),
            )
        },
    }
}

/// What a commit came to. A commit with nothing to commit is no failure: a mutation that changes
/// nothing, such as uploading the same content again, succeeds.
pub fn commit_staged(status: i32, told: &Told) -> (made: Result<Option<ContentHash>, String>)
    ensures
        is_verb_outcome(made, commit_made(status, *told)),
{
    if status == 0 {
        if let Some(revision) = told.revision {
            return Ok(Some(revision));
        }
    }
    if is_nothing_staged(&told.errors) {
        return Ok(None);
    }
    let errors: String = if told.errors.len() == 0 {
        "unknown error".to_owned()
    } else {
        join_texts(&told.errors, "; ")
    };
    Err(
        "commit failed (status ".to_owned().concat(decimal_signed(status).as_str()).concat(
            "): ",
        ).concat(errors.as_str()),
    )
}

/// The handle of a tree that was loaded again, or why there is none.
pub fn reloaded_tree(status: i32, loaded: Option<u64>) -> (tree: Result<u64, String>)
    ensures
        is_verb_outcome(
            tree,
            match loaded {
                Some(tree) if status == 0 => Ok(tree),
                _ => Err(
                    "revision tree reload failed (status "@ + signed_digits(status as int) + ")"@,
                ),
            },
        ),
{
    if status == 0 {
        if let Some(tree) = loaded {
            return Ok(tree);
        }
    }
    Err(
        "revision tree reload failed (status ".to_owned().concat(
            decimal_signed(status).as_str(),
        ).concat(")"),
    )
}

} // verus!
