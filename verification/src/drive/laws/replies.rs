//! What the requests are told, and what they tell.

use vstd::prelude::*;
use vstd::utf8::encode_utf8;

use super::super::action::{answers, Event, Step};
use super::super::api::{
    address_text, is_outcome, kind_text, mode_text, node_named, node_written, refusal, ApiError,
    NodeIds, NodeInfo, NodeKind, Refusal, Status,
};
use super::super::delete::{delete_requested, DeleteState};
use super::super::header::{disposition_of, is_header_text, without_quotes};
use super::super::mkdir::{mkdir_requested, MkdirState};
use super::super::patch::{patch_requested, PatchState};
use super::super::path::is_valid_name;
use super::super::verbs::{
    code_text, commit_made, is_text_outcome, is_verb_outcome, node_info_found, node_path_found, revision_staged, says_nothing_staged,
    ErrorCode, Told,
};
use crate::text::{
    ascii_lower, decimal_digits, holds_part, joined_texts, number_of, signed_digits, texts,
};
use crate::types::{Address, ContentHash};

verus! {

/// What a request is refused with for its own sake.
pub open spec fn bad_request(text: Seq<char>) -> Refusal {
    Refusal { status: Status::BadRequest, error: text, conflicts: None }
}

/// A number names a node where it has no more than 32 bits and is not the one that names none; it then
/// names the node with that number.
pub proof fn a_number_names_its_node(raw: u64, ids: NodeIds)
    ensures
        raw > 0xffff_ffff ==> node_named(raw, ids) == Err::<u32, Refusal>(
            bad_request("node_id out of u32 range"@),
        ),
        raw <= 0xffff_ffff && raw == ids.invalid ==> node_named(raw, ids) == Err::<u32, Refusal>(
            bad_request("node_id is the invalid sentinel"@),
        ),
        raw <= 0xffff_ffff && raw != ids.invalid ==> (node_named(raw, ids) matches Ok(node) && node
            == raw),
{
}

/// A text names a node where it is the number of one, and is refused where it is no number.
pub proof fn a_text_names_its_node(node: u32, text: Seq<char>, ids: NodeIds)
    ensures
        node != ids.invalid ==> node_written(decimal_digits(node as nat), ids) == Ok::<u32, Refusal>(
            node,
        ),
        text.len() == 0 || (!('0' <= text[0] <= '9') && text[0] != '+') ==> node_written(text, ids)
            == Err::<u32, Refusal>(bad_request("node_id must be a u64"@)),
        number_of(text) is None ==> node_written(text, ids) == Err::<u32, Refusal>(
            bad_request("node_id must be a u64"@),
        ),
        number_of(text) matches Some(raw) ==> node_written(text, ids) == node_named(raw, ids),
{
    crate::laws::a_number_that_is_written_is_read(node as nat, text, 0);
    a_number_names_its_node(node as u64, ids);
}

/// A node is said to be a file, a link or a directory, and every one that is neither file nor link is a
/// directory. Each but a directory has an address. A workspace is in versioned mode or in drive mode.
pub proof fn a_node_is_shown_by_its_kind(kind: NodeKind, address: Address, versioned: bool)
    ensures
        kind == NodeKind::File <==> kind_text(kind) == "file"@,
        kind == NodeKind::Link <==> kind_text(kind) == "link"@,
        kind != NodeKind::File && kind != NodeKind::Link <==> kind_text(kind) == "directory"@,
        address_text(kind, address) is None <==> kind == NodeKind::Directory,
        address_text(kind, address) matches Some(text) ==> text == address.text(),
        versioned <==> mode_text(versioned) == "versioned"@,
        !versioned <==> mode_text(versioned) == "drive"@,
{
    reveal_strlit("file");
    reveal_strlit("link");
    reveal_strlit("directory");
    reveal_strlit("versioned");
    reveal_strlit("drive");
    assert("file"@[0] == 'f' && "link"@[0] == 'l' && "directory"@[0] == 'd');
    assert("versioned"@[0] == 'v' && "drive"@[0] == 'd');
}

/// A directory is asked for under a valid name in a node that is named, and nothing else is refused.
pub proof fn a_mkdir_starts_with_a_valid_name(
    name: Seq<char>,
    parent_id: u64,
    ids: NodeIds,
    versioned: bool,
    served: ContentHash,
)
    ensures
        ({
            let requested = mkdir_requested(name, parent_id, ids, versioned, served);
            &&& !is_valid_name(name) ==> requested == Err::<MkdirState, Refusal>(
                bad_request("invalid directory name"@),
            )
            &&& is_valid_name(name) ==> match node_named(parent_id, ids) {
                Err(refused) => requested == Err::<MkdirState, Refusal>(refused),
                Ok(parent) => requested matches Ok(state) && state.name == name && state.parent
                    == parent && state.versioned == versioned && state.served == served
                    && !state.created && state.valid() && (state.step() is Resolve <==> parent
                    == ids.root) && (parent != ids.root ==> state.step() == Step::NodeInfo {
                    node: parent,
                }),
            }
        }),
{
}

/// Any node that is named can be deleted but the root.
pub proof fn a_deletion_spares_the_root(
    text: Seq<char>,
    ids: NodeIds,
    versioned: bool,
    served: ContentHash,
)
    ensures
        match node_written(text, ids) {
            Err(refused) => delete_requested(text, ids, versioned, served) == Err::<
                DeleteState,
                Refusal,
            >(refused),
            Ok(node) => if node == ids.root {
                delete_requested(text, ids, versioned, served) == Err::<DeleteState, Refusal>(
                    bad_request("cannot delete the root"@),
                )
            } else {
                delete_requested(text, ids, versioned, served) matches Ok(state) && state.node
                    == node && state.versioned == versioned && state.served == served && state.step()
                    == Step::NodeInfo { node } && state.valid()
            },
        },
{
}

/// Any node that is named can be renamed or moved but the root, where a name or a directory is given
/// and the name is valid.
pub proof fn a_move_spares_the_root(
    text: Seq<char>,
    ids: NodeIds,
    name: Option<Seq<char>>,
    parent_id: Option<u64>,
    versioned: bool,
    served: ContentHash,
)
    ensures
        ({
            let requested = patch_requested(text, ids, name, parent_id, versioned, served);
            match node_written(text, ids) {
                Err(refused) => requested == Err::<PatchState, Refusal>(refused),
                Ok(node) => {
                    &&& node == ids.root ==> requested == Err::<PatchState, Refusal>(
                        bad_request("cannot rename or move the root"@),
                    )
                    &&& node != ids.root && name is None && parent_id is None ==> requested == Err::<
                        PatchState,
                        Refusal,
                    >(bad_request("provide name and/or parent_id"@))
                    &&& node != ids.root && (name matches Some(name) && !is_valid_name(name))
                        ==> requested == Err::<PatchState, Refusal>(bad_request("invalid name"@))
                    &&& node != ids.root && (name is Some || parent_id is Some) && (
                    name matches Some(name) ==> is_valid_name(name)) ==> (
                    requested matches Ok(state) && state.node == node && state.ids == ids
                        && state.name == name && state.parent_id == parent_id && state.versioned
                        == versioned && state.served == served && state.step() == Step::NodeInfo {
                        node,
                    } && state.valid())
                },
            }
        }),
{
}

/// A download is named by its file name, each quote in it an underscore, and by a plain word where the
/// name holds what a header cannot; either way it holds no quote but the two around the name.
pub proof fn a_download_is_named_by_its_file(filename: Seq<char>, at: int)
    ensures
        without_quotes(filename).len() == filename.len(),
        0 <= at < filename.len() ==> without_quotes(filename)[at] == (if filename[at] == '"' {
            '_'
        } else {
            filename[at]
        }),
        ({
            let named = "attachment; filename=\""@ + without_quotes(filename) + "\""@;
            disposition_of(filename) == (if is_header_text(named) {
                named
            } else {
                "attachment; filename=\"download\""@
            })
        }),
{
}

/// A header holds tabs and what is not a control character.
pub proof fn a_header_holds_no_control_characters(text: Seq<char>, at: int)
    ensures
        is_header_text(text) && 0 <= at < encode_utf8(text).len() ==> encode_utf8(text)[at] == 9 || (
        encode_utf8(text)[at] >= 32 && encode_utf8(text)[at] != 127),
        0 <= at < encode_utf8(text).len() && ((encode_utf8(text)[at] < 32 && encode_utf8(text)[at]
            != 9) || encode_utf8(text)[at] == 127) ==> !is_header_text(text),
{
}

/// The record of a node is the one that was reported without an error and with status zero. A node that
/// is reported as wrongly named is not found, and anything else is a failure.
pub proof fn a_record_is_the_one_reported(
    status: i32,
    info: NodeInfo,
    name: Seq<char>,
    code: ErrorCode,
)
    ensures
        status == 0 ==> node_info_found(status, Some((info, ErrorCode::NoError))) == Ok::<
            NodeInfo,
            Refusal,
        >(info),
        node_info_found(status, Some((info, ErrorCode::InvalidArguments))) == Err::<
            NodeInfo,
            Refusal,
        >(Refusal { status: Status::NotFound, error: "node not found"@, conflicts: None }),
        status != 0 ==> node_info_found(status, Some((info, ErrorCode::NoError))) == Err::<
            NodeInfo,
            Refusal,
        >(
            Refusal {
                status: Status::InternalServerError,
                error: "node_info failed"@,
                conflicts: None,
            },
        ),
        code is Other ==> node_info_found(status, Some((info, code))) == Err::<NodeInfo, Refusal>(
            Refusal {
                status: Status::InternalServerError,
                error: "node_info failed"@,
                conflicts: None,
            },
        ),
        node_info_found(status, None) == Err::<NodeInfo, Refusal>(
            Refusal {
                status: Status::InternalServerError,
                error: "node_info failed"@,
                conflicts: None,
            },
        ),
{
}

/// The virtual path of a node is the path that was reported without an error and with status zero,
/// behind a slash, and anything else is a failure.
pub proof fn a_path_is_the_one_reported(status: i32, raw: String, code: ErrorCode)
    ensures
        status == 0 ==> node_path_found(status, Some((raw, ErrorCode::NoError))) == Ok::<
            Seq<char>,
            Refusal,
        >("/"@ + raw@),
        status != 0 || code != ErrorCode::NoError ==> node_path_found(status, Some((raw, code)))
            == Err::<Seq<char>, Refusal>(
            Refusal {
                status: Status::InternalServerError,
                error: "node_path failed"@,
                conflicts: None,
            },
        ),
        node_path_found(status, None) == Err::<Seq<char>, Refusal>(
            Refusal {
                status: Status::InternalServerError,
                error: "node_path failed"@,
                conflicts: None,
            },
        ),
{
}

/// What is staged is the revision that was told, with status zero. Without one, or with another status,
/// staging failed, and is said so with the errors that were told.
pub proof fn what_is_staged_is_what_was_told(verb: Seq<char>, status: i32, told: Told)
    ensures
        status == 0 ==> match told.revision {
            Some(revision) => revision_staged(verb, status, told) == Ok::<ContentHash, Seq<char>>(
                revision,
            ),
            None => revision_staged(verb, status, told) == Err::<ContentHash, Seq<char>>(
                verb + " emitted no staged revision"@,
            ),
        },
        status != 0 ==> revision_staged(verb, status, told) == Err::<ContentHash, Seq<char>>(
            verb + " failed (status "@ + signed_digits(status as int) + "): "@ + joined_texts(
                texts(told.errors@),
                "; "@,
            ),
        ),
{
}

/// A commit was made where its revision was told, with status zero. Else none was made: because nothing
/// was staged, where one of the errors says so, and else for the errors that were told.
pub proof fn a_commit_is_the_one_told(status: i32, told: Told, at: int)
    ensures
        ({
            let errors = texts(told.errors@);
            let missing = status != 0 || told.revision is None;
            &&& !missing ==> (commit_made(status, told) matches Ok(Some(made)) && told.revision
                == Some(made))
            &&& missing && 0 <= at < errors.len() && says_nothing_staged(errors[at])
                ==> commit_made(status, told) == Ok::<Option<ContentHash>, Seq<char>>(None)
            &&& missing && (forall|i: int|
                0 <= i < errors.len() ==> !says_nothing_staged(#[trigger] errors[i]))
                ==> commit_made(status, told) == Err::<Option<ContentHash>, Seq<char>>(
                "commit failed (status "@ + signed_digits(status as int) + "): "@ + (
                if errors.len() == 0 {
                    "unknown error"@
                } else {
                    joined_texts(errors, "; "@)
                }),
            )
        }),
{
}

/// An error says that nothing is staged where it holds the one word, or the two, whatever their case.
pub proof fn nothing_staged_is_said_in_any_case(
    before: Seq<char>,
    between: Seq<char>,
    after: Seq<char>,
    error: Seq<char>,
)
    ensures
        ascii_lower(error) == before + "nothingstaged"@ + after ==> says_nothing_staged(error),
        ascii_lower(error) == before + "nothing"@ + between + "staged"@ + after
            ==> says_nothing_staged(error),
        says_nothing_staged(error) ==> holds_part(ascii_lower(error), "nothingstaged"@) || (
        holds_part(ascii_lower(error), "nothing"@) && holds_part(ascii_lower(error), "staged"@)),
        !holds_part(ascii_lower(error), "nothing"@) && !holds_part(
            ascii_lower(error),
            "nothingstaged"@,
        ) ==> !says_nothing_staged(error),
        !holds_part(ascii_lower(error), "staged"@) && !holds_part(
            ascii_lower(error),
            "nothingstaged"@,
        ) ==> !says_nothing_staged(error),
{
    crate::laws::a_text_holds_its_parts(before, "nothingstaged"@, after);
    crate::laws::a_text_holds_its_parts(before, "nothing"@, between + "staged"@ + after);
    crate::laws::a_text_holds_its_parts(before + "nothing"@ + between, "staged"@, after);
    assert(before + "nothing"@ + (between + "staged"@ + after) =~= before + "nothing"@ + between
        + "staged"@ + after);
}

/// An error is told by its name.
pub proof fn an_error_is_told_by_its_name(name: String)
    ensures
        code_text(ErrorCode::NoError) == "None"@,
        code_text(ErrorCode::InvalidArguments) == "InvalidArguments"@,
        code_text(ErrorCode::Other(name)) == name@,
{
}

/// A refusal tells its status and its error, and no conflicts.
pub proof fn a_refusal_tells_its_error(status: Status, error: Seq<char>)
    ensures
        refusal(status, error) == (Refusal { status, error, conflicts: None }),
{
}

/// What is handed on is what was stated: the same value, or the same refusal, and one exactly where the
/// other is.
pub proof fn what_is_stated_is_handed_on(
    outcome: Result<u32, ApiError>,
    stated: Result<u32, Refusal>,
    text: Result<String, ApiError>,
    text_stated: Result<Seq<char>, Refusal>,
    verb: Result<u64, String>,
    verb_stated: Result<u64, Seq<char>>,
)
    ensures
        is_outcome(outcome, stated) <==> match (outcome, stated) {
            (Ok(value), Ok(told)) => value == told,
            (Err(error), Err(told)) => error.status == told.status && error.error@ == told.error
                && error@.conflicts == told.conflicts,
            _ => false,
        },
        is_text_outcome(text, text_stated) <==> match (text, text_stated) {
            (Ok(value), Ok(told)) => value@ == told,
            (Err(error), Err(told)) => error@ == told,
            _ => false,
        },
        is_verb_outcome(verb, verb_stated) <==> match (verb, verb_stated) {
            (Ok(value), Ok(told)) => value == told,
            (Err(error), Err(told)) => error@ == told,
            _ => false,
        },
{
}

/// Each step of a request is answered by its own kind of event: what is looked up by what was found, and
/// what is done by how it ended. A request that has its reply takes no answer.
pub proof fn each_step_has_its_answer(event: Event, step: Step)
    ensures
        step is NodeInfo ==> (answers(event, step) <==> event is NodeInfo),
        step is NodePath ==> (answers(event, step) <==> event is NodePath),
        step is Children ==> (answers(event, step) <==> event is Children),
        step is Resolve ==> (answers(event, step) <==> event is Resolved),
        step is Exists ==> (answers(event, step) <==> event is Exists),
        step is NextPart ==> (answers(event, step) <==> event is Part),
        step is ReadPart ==> (answers(event, step) <==> event is PartRead),
        step is Stage || step is StageMove ==> (answers(event, step) <==> event is Staged),
        step is Commit ==> (answers(event, step) <==> event is Committed),
        step is StagedRevision ==> (answers(event, step) <==> event is StagedRevision),
        step is Anchor ==> (answers(event, step) <==> event is Anchor),
        step is LoadTree ==> (answers(event, step) <==> event is Tree),
        step is Cached ==> (answers(event, step) <==> event is Cached),
        step is PutFile ==> (answers(event, step) <==> event is Stored),
        step is ReadFetched || step is ReadFile ==> (answers(event, step) <==> event is Content),
        step is Finish ==> !answers(event, step),
        step is CreateScratch || step is KeepPart || step is CreateDir || step is CreateParents
            || step is Place || step is WriteEmpty || step is Rename || step is RemoveTree
            || step is RemoveFile || step is RemoveFiles || step is RemoveEntry || step is SwapTree
            || step is Remember || step is Fetch ==> (answers(event, step) <==> event is Done),
{
}

} // verus!
