use lore::drive::action::{Action, Event};
use lore::drive::api::{ApiError, ChildInfo, NodeIds, NodeInfo, NodeKind, Status};
use lore::drive::browse::Browse;
use lore::drive::delete::Delete;
use lore::drive::download::Download;
use lore::drive::effective::Effective;
use lore::drive::epilogue::{CommitOutcome, Epilogue, EpilogueStage};
use lore::drive::mkdir::Mkdir;
use lore::drive::patch::Patch;
use lore::drive::read::{Read, ReadStage};
use lore::drive::record::Record;
use lore::drive::upload::Upload;
use lore::props::props_key;
use lore::types::{Address, ContentHash, Context, RepositoryId};

const IDS: NodeIds = NodeIds { root: 0, invalid: u32::MAX };

fn hash(byte: u8) -> ContentHash {
    ContentHash { data: [byte; 32] }
}

fn address(byte: u8) -> Address {
    Address { hash: hash(byte), context: Context { data: [0xcc; 16] } }
}

fn info(node_id: u32, parent_id: u32, name: &str, kind: NodeKind, stored: u8) -> NodeInfo {
    NodeInfo {
        node_id,
        parent_id,
        name: name.to_string(),
        kind,
        mode: 0o644,
        size: 3,
        address: address(stored),
    }
}

fn child(node_id: u32, name: &str, kind: NodeKind, stored: u8) -> ChildInfo {
    ChildInfo {
        node_id,
        name: name.to_string(),
        kind,
        mode: 0o644,
        size: 3,
        address: address(stored),
    }
}

fn repository() -> RepositoryId {
    RepositoryId { data: [5; 16] }
}

fn done() -> Event {
    Event::Done(Ok(()))
}

fn failed(text: &str) -> Event {
    Event::Done(Err(text.to_string()))
}

fn found(error: ApiError) -> (Status, String) {
    (error.status, error.error)
}

fn shown(action: &Action) -> String {
    format!("{action:?}")
}

fn mkdir(name: &str, parent: u64, versioned: bool) -> Mkdir {
    Mkdir::start(name.to_string(), parent, IDS, versioned, hash(1)).unwrap()
}

/// Takes a mkdir in the root to the point where its directory is created.
fn created(versioned: bool) -> Mkdir {
    let mut request = mkdir("docs", 0, versioned);
    assert_eq!(shown(&request.action()), "Resolve { path: \"docs\" }");
    request.advance(Event::Resolved(None));
    assert_eq!(shown(&request.action()), "Exists { path: \"docs\" }");
    request.advance(Event::Exists(false));
    assert_eq!(shown(&request.action()), "CreateDir { path: \"docs\" }");
    request.advance(done());
    assert_eq!(shown(&request.action()), "Stage { paths: [\"docs\"] }");
    request
}

#[test]
fn a_directory_is_created_staged_and_served() {
    let mut request = created(false);
    request.advance(Event::Staged(Ok(hash(2))));
    assert!(matches!(request.action(), Action::StagedRevision));
    request.advance(Event::StagedRevision(Some(hash(2))));
    assert!(matches!(request.action(), Action::LoadTree { revision } if revision == hash(2)));
    request.advance(Event::Tree(Ok(9)));
    assert!(matches!(request.action(), Action::SwapTree { tree: 9, .. }));
    request.advance(done());
    assert_eq!(shown(&request.action()), "Resolve { path: \"docs\" }");
    request.advance(Event::Resolved(Some(12)));
    assert!(matches!(request.action(), Action::Finish));
    assert_eq!((request.status(), request.status().code()), (Status::Created, 201));
    let reply = request.reply().unwrap();
    assert_eq!(reply.node_id, Some(12));
    assert_eq!(reply.path, "/docs");
    assert_eq!(reply.revision, "02".repeat(32));
}

#[test]
fn an_empty_directory_that_stages_nothing_gets_a_placeholder() {
    let mut request = created(false);
    request.advance(Event::Staged(Ok(hash(1))));
    assert_eq!(shown(&request.action()), "WriteEmpty { path: \"docs/.lorekeep\" }");
    request.advance(done());
    assert_eq!(shown(&request.action()), "Stage { paths: [\"docs/.lorekeep\"] }");
    request.advance(Event::Staged(Ok(hash(2))));
    request.advance(Event::StagedRevision(None));
    request.advance(Event::Anchor(Ok(hash(1))));
    request.advance(Event::Resolved(None));
    assert_eq!(request.reply().unwrap().node_id, None);
}

#[test]
fn an_empty_directory_that_commits_nothing_gets_a_placeholder() {
    let mut request = created(true);
    request.advance(Event::Staged(Ok(hash(1))));
    request.advance(Event::Committed(Ok(None)));
    assert_eq!(shown(&request.action()), "WriteEmpty { path: \"docs/.lorekeep\" }");
    request.advance(done());
    assert_eq!(shown(&request.action()), "Stage { paths: [\"docs/.lorekeep\"] }");
    request.advance(Event::Staged(Ok(hash(2))));
    assert_eq!(
        shown(&request.action()),
        "Commit { message: \"lore-drive: mkdir /docs\" }"
    );
    request.advance(Event::Committed(Ok(Some(hash(2)))));
    assert_eq!(request.epilogue.commit, CommitOutcome::Made);
    request.advance(Event::Anchor(Ok(hash(2))));
    request.advance(Event::Tree(Ok(9)));
    request.advance(done());
    request.advance(Event::Resolved(Some(12)));
    let reply = request.reply().unwrap();
    assert_eq!((reply.node_id, reply.revision), (Some(12), "02".repeat(32)));
}

#[test]
fn a_directory_that_is_committed_gets_no_placeholder() {
    let mut request = created(true);
    request.advance(Event::Staged(Ok(hash(1))));
    request.advance(Event::Committed(Ok(Some(hash(2)))));
    assert!(matches!(request.action(), Action::Anchor));
    request.advance(Event::Anchor(Ok(hash(1))));
    request.advance(Event::Resolved(Some(12)));
    assert_eq!(request.reply().unwrap().node_id, Some(12));
}

#[test]
fn a_directory_is_committed_once_at_most() {
    for (event, failure) in [
        (Event::Anchor(Err("no anchor".to_string())), "no anchor"),
        (Event::Tree(Err("no tree".to_string())), "no tree"),
    ] {
        let mut request = created(true);
        request.advance(Event::Staged(Ok(hash(1))));
        request.advance(Event::Committed(Ok(Some(hash(2)))));
        if let Event::Tree(_) = &event {
            request.advance(Event::Anchor(Ok(hash(2))));
        }
        request.advance(event);
        assert_eq!(shown(&request.action()), "RemoveTree { path: \"docs\" }");
        request.advance(done());
        assert_eq!(request.status(), Status::InternalServerError);
        assert_eq!(
            found(request.reply().unwrap_err()),
            (Status::InternalServerError, failure.to_string())
        );
    }
}

#[test]
fn a_mkdir_that_fails_removes_its_directory() {
    let mut request = created(true);
    request.advance(Event::Staged(Ok(hash(1))));
    assert_eq!(
        shown(&request.action()),
        "Commit { message: \"lore-drive: mkdir /docs\" }"
    );
    request.advance(Event::Committed(Err("locked".to_string())));
    request.advance(done());
    request.advance(Event::Staged(Ok(hash(2))));
    request.advance(Event::Committed(Ok(None)));
    request.advance(Event::Anchor(Err("no anchor".to_string())));
    assert_eq!(shown(&request.action()), "RemoveTree { path: \"docs\" }");
    request.advance(failed("ignored"));
    assert_eq!(
        found(request.reply().unwrap_err()),
        (Status::InternalServerError, "no anchor".to_string())
    );

    let mut request = created(false);
    request.advance(Event::Staged(Err("x".to_string())));
    request.advance(failed("denied"));
    request.advance(done());
    assert_eq!(
        request.reply().unwrap_err().error,
        "write .lorekeep: denied"
    );
}

#[test]
fn a_mkdir_is_refused_before_anything_is_created() {
    assert_eq!(
        found(
            Mkdir::start("a/b".to_string(), 0, IDS, false, hash(1))
                .err()
                .unwrap()
        ),
        (Status::BadRequest, "invalid directory name".to_string())
    );
    assert!(Mkdir::start("a".to_string(), 1 << 40, IDS, false, hash(1)).is_err());

    let mut request = mkdir("a", 7, false);
    request.advance(Event::NodeInfo(Ok(info(7, 0, "f", NodeKind::File, 1))));
    assert_eq!(request.reply().unwrap_err().error, "node is not a directory");

    let mut request = mkdir("a", 7, false);
    request.advance(Event::NodeInfo(Ok(info(7, 0, "d", NodeKind::Directory, 1))));
    assert!(matches!(request.action(), Action::NodePath { node: 7 }));
    request.advance(Event::NodePath(Ok("/d".to_string())));
    request.advance(Event::Resolved(Some(3)));
    let error = request.reply().unwrap_err();
    assert_eq!(error.status, Status::Conflict);
    assert_eq!(error.error, "an entry with that name already exists");
    assert_eq!(error.conflicts, Some(vec!["/d/a".to_string()]));

    let mut request = mkdir("a", 0, false);
    request.advance(Event::Resolved(None));
    request.advance(Event::Exists(true));
    assert_eq!(request.reply().unwrap_err().status, Status::Conflict);

    let mut request = mkdir("a", 0, false);
    request.advance(Event::Resolved(None));
    request.advance(Event::Exists(false));
    request.advance(failed("denied"));
    assert_eq!(request.reply().unwrap_err().error, "create_dir: denied");
}

/// Takes an upload of given names to the root to the point where all parts are kept.
fn gathered(names: &[&str], overwrite: bool, versioned: bool) -> Upload {
    let mut request = Upload::start(0, IDS, overwrite, versioned, hash(1)).unwrap();
    assert!(matches!(request.action(), Action::CreateScratch));
    request.advance(done());
    for (i, name) in names.iter().enumerate() {
        assert!(matches!(request.action(), Action::NextPart));
        request.advance(Event::Part(Ok(Some(Some(name.to_string())))));
        assert!(matches!(request.action(), Action::ReadPart));
        request.advance(Event::PartRead(Ok(10 + i as u64)));
        assert!(matches!(request.action(), Action::KeepPart { part } if part == i));
        request.advance(done());
    }
    request.advance(Event::Part(Ok(Some(None))));
    assert!(matches!(request.action(), Action::NextPart));
    request.advance(Event::Part(Ok(None)));
    request
}

#[test]
fn an_upload_is_placed_staged_stored_and_reported() {
    let mut request = gathered(&["a.txt", "d/b.txt"], false, false);
    assert_eq!(shown(&request.action()), "Resolve { path: \"a.txt\" }");
    request.advance(Event::Resolved(None));
    assert_eq!(shown(&request.action()), "Resolve { path: \"d/b.txt\" }");
    request.advance(Event::Resolved(None));
    assert_eq!(shown(&request.action()), "CreateParents { path: \"a.txt\" }");
    request.advance(done());
    assert_eq!(shown(&request.action()), "Place { part: 0, path: \"a.txt\" }");
    request.advance(done());
    request.advance(done());
    assert_eq!(shown(&request.action()), "Place { part: 1, path: \"d/b.txt\" }");
    request.advance(done());
    assert_eq!(
        shown(&request.action()),
        "Stage { paths: [\"a.txt\", \"d/b.txt\"] }"
    );
    request.advance(Event::Staged(Ok(hash(2))));
    request.advance(Event::StagedRevision(Some(hash(2))));
    request.advance(Event::Tree(Ok(1)));
    request.advance(done());
    assert_eq!(shown(&request.action()), "Resolve { path: \"a.txt\" }");
    request.advance(Event::Resolved(Some(4)));
    request.advance(Event::NodeInfo(Ok(info(4, 0, "a.txt", NodeKind::File, 0))));
    assert!(matches!(request.action(), Action::PutFile { context, .. }
        if context == Context { data: [0xcc; 16] }));
    request.advance(Event::Stored(Ok(address(7))));
    assert!(matches!(request.action(), Action::Remember { node: 4, address: stored }
        if stored == address(7)));
    request.advance(done());
    request.advance(Event::Resolved(None));
    assert!(matches!(request.action(), Action::Finish));
    assert_eq!(request.status(), Status::Created);
    let (revision, files) = request.reply().unwrap();
    assert_eq!(revision, "02".repeat(32));
    assert_eq!(files.len(), 2);
    assert_eq!(
        (files[0].name.as_str(), files[0].path.as_str(), files[0].node_id, files[0].size),
        ("a.txt", "/a.txt", Some(4), 10)
    );
    assert_eq!(files[0].address.as_deref(), Some(address(7).to_text().as_str()));
    assert_eq!(
        (files[1].name.as_str(), files[1].path.as_str(), files[1].node_id, files[1].size),
        ("b.txt", "/d/b.txt", None, 11)
    );
    assert_eq!(files[1].address, None);
}

#[test]
fn an_upload_whose_content_is_not_stored_keeps_the_recorded_address() {
    for (versioned, stored) in [(false, true), (true, false)] {
        let mut request = gathered(&["a"], false, versioned);
        request.advance(Event::Resolved(None));
        request.advance(done());
        request.advance(done());
        request.advance(Event::Staged(Ok(hash(2))));
        if versioned {
            assert_eq!(
                shown(&request.action()),
                "Commit { message: \"lore-drive: upload 1 file(s) to /\" }"
            );
            request.advance(Event::Committed(Ok(Some(hash(2)))));
            request.advance(Event::Anchor(Ok(hash(1))));
        } else {
            request.advance(Event::StagedRevision(Some(hash(1))));
        }
        request.advance(Event::Resolved(Some(4)));
        request.advance(Event::NodeInfo(Ok(info(4, 0, "a", NodeKind::File, 3))));
        if stored {
            request.advance(Event::Stored(Err("no space".to_string())));
        }
        let (_, files) = request.reply().unwrap();
        assert_eq!(files[0].address.as_deref(), Some(address(3).to_text().as_str()));
    }
}

#[test]
fn an_upload_onto_existing_paths_is_refused_whole() {
    let mut request = gathered(&["a", "b", "c"], false, false);
    request.advance(Event::Resolved(Some(4)));
    assert!(matches!(request.action(), Action::NodeInfo { node: 4 }));
    request.advance(Event::NodeInfo(Ok(info(4, 0, "a", NodeKind::File, 1))));
    request.advance(Event::Resolved(None));
    request.advance(Event::Resolved(Some(5)));
    request.advance(Event::NodeInfo(Ok(info(5, 0, "c", NodeKind::Directory, 1))));
    let error = request.reply().unwrap_err();
    assert_eq!(error.status, Status::Conflict);
    assert_eq!(error.error, "2 path(s) already exist");
    assert_eq!(error.conflicts, Some(vec!["/a".to_string(), "/c".to_string()]));
}

#[test]
fn an_upload_may_overwrite_files_but_nothing_else() {
    let mut request = gathered(&["a"], true, false);
    request.advance(Event::Resolved(Some(4)));
    request.advance(Event::NodeInfo(Ok(info(4, 0, "a", NodeKind::File, 1))));
    assert_eq!(shown(&request.action()), "CreateParents { path: \"a\" }");

    let mut request = gathered(&["a"], true, false);
    request.advance(Event::Resolved(Some(4)));
    request.advance(Event::NodeInfo(Ok(info(4, 0, "a", NodeKind::Directory, 1))));
    assert_eq!(
        found(request.reply().unwrap_err()),
        (Status::BadRequest, "/a exists and is not a file".to_string())
    );

    let mut request = gathered(&["a"], false, false);
    request.advance(Event::Resolved(Some(4)));
    request.advance(Event::NodeInfo(Err(lore::drive::api::err_resp(
        Status::NotFound,
        "node not found",
    ))));
    assert_eq!(shown(&request.action()), "CreateParents { path: \"a\" }");
}

#[test]
fn an_upload_that_fails_removes_what_it_placed() {
    let mut request = gathered(&["a", "b"], false, false);
    request.advance(Event::Resolved(None));
    request.advance(Event::Resolved(None));
    request.advance(done());
    request.advance(done());
    request.advance(done());
    request.advance(failed("disk full"));
    assert_eq!(shown(&request.action()), "RemoveFiles { paths: [\"a\"] }");
    request.advance(done());
    assert_eq!(
        found(request.reply().unwrap_err()),
        (Status::InternalServerError, "disk full".to_string())
    );

    let mut request = gathered(&["a"], false, false);
    request.advance(Event::Resolved(None));
    request.advance(done());
    request.advance(done());
    request.advance(Event::Staged(Err("stage failed".to_string())));
    assert_eq!(shown(&request.action()), "RemoveFiles { paths: [\"a\"] }");
}

#[test]
fn an_upload_is_refused_for_what_it_holds() {
    let refused = |event: Event| {
        let mut request = Upload::start(0, IDS, false, false, hash(1)).unwrap();
        request.advance(done());
        request.advance(event);
        found(request.reply().unwrap_err())
    };
    assert_eq!(
        refused(Event::Part(Ok(None))),
        (Status::BadRequest, "no file parts in request".to_string())
    );
    assert_eq!(
        refused(Event::Part(Ok(Some(Some("../x".to_string()))))),
        (Status::BadRequest, "illegal path: ../x".to_string())
    );
    assert_eq!(
        refused(Event::Part(Err("cut off".to_string()))),
        (Status::BadRequest, "malformed multipart: cut off".to_string())
    );
    let mut request = Upload::start(0, IDS, false, false, hash(1)).unwrap();
    request.advance(failed("no room"));
    assert_eq!(request.reply().unwrap_err().error, "tempdir: no room");
    let mut request = Upload::start(0, IDS, false, false, hash(1)).unwrap();
    request.advance(done());
    request.advance(Event::Part(Ok(Some(Some("x".to_string())))));
    request.advance(Event::PartRead(Err("gone".to_string())));
    assert_eq!(request.reply().unwrap_err().error, "read part: gone");
}

fn patch(name: Option<&str>, parent: Option<u64>, versioned: bool) -> Patch {
    Patch::start(
        "4",
        IDS,
        name.map(str::to_string),
        parent,
        versioned,
        hash(1),
    )
    .unwrap()
}

#[test]
fn a_node_is_renamed_staged_and_shown() {
    let mut request = patch(Some("new"), None, false);
    assert!(matches!(request.action(), Action::NodeInfo { node: 4 }));
    request.advance(Event::NodeInfo(Ok(info(4, 0, "old", NodeKind::File, 3))));
    request.advance(Event::NodePath(Ok("/old".to_string())));
    assert_eq!(shown(&request.action()), "Resolve { path: \"new\" }");
    request.advance(Event::Resolved(None));
    request.advance(Event::Exists(false));
    assert_eq!(shown(&request.action()), "Rename { from: \"old\", to: \"new\" }");
    request.advance(done());
    assert_eq!(shown(&request.action()), "StageMove { from: \"old\", to: \"new\" }");
    request.advance(Event::Staged(Ok(hash(2))));
    request.advance(Event::StagedRevision(Some(hash(2))));
    request.advance(Event::Tree(Ok(8)));
    request.advance(done());
    request.advance(Event::Resolved(Some(5)));
    request.advance(Event::NodeInfo(Ok(info(5, 0, "new", NodeKind::File, 3))));
    request.advance(Event::NodePath(Ok("/new".to_string())));
    let (record, revision) = request.reply().unwrap();
    assert_eq!((record.node_id, record.path.as_str()), (5, "/new"));
    assert_eq!(record.kind, "file");
    assert_eq!(revision, "02".repeat(32));
}

#[test]
fn a_node_that_is_where_it_is_to_be_is_only_shown() {
    let mut request = patch(Some("same"), Some(7), true);
    request.advance(Event::NodeInfo(Ok(info(4, 7, "same", NodeKind::Directory, 3))));
    request.advance(Event::NodePath(Ok("/d/same".to_string())));
    assert!(matches!(request.action(), Action::NodeInfo { node: 7 }));
    request.advance(Event::NodeInfo(Ok(info(7, 0, "d", NodeKind::Directory, 3))));
    request.advance(Event::NodePath(Ok("/d".to_string())));
    assert!(matches!(request.action(), Action::NodeInfo { node: 4 }));
    request.advance(Event::NodeInfo(Ok(info(4, 7, "same", NodeKind::Directory, 3))));
    request.advance(Event::NodePath(Ok("/d/same".to_string())));
    let (record, revision) = request.reply().unwrap();
    assert_eq!(record.address, None);
    assert_eq!(revision, "01".repeat(32));
}

#[test]
fn a_directory_does_not_move_below_itself() {
    let mut request = patch(None, Some(9), false);
    request.advance(Event::NodeInfo(Ok(info(4, 0, "d", NodeKind::Directory, 3))));
    request.advance(Event::NodePath(Ok("/d".to_string())));
    request.advance(Event::NodeInfo(Ok(info(9, 4, "sub", NodeKind::Directory, 3))));
    request.advance(Event::NodePath(Ok("/d/sub".to_string())));
    assert_eq!(
        found(request.reply().unwrap_err()),
        (
            Status::BadRequest,
            "cannot move a directory inside itself".to_string()
        )
    );
}

#[test]
fn a_move_that_fails_is_undone() {
    let mut request = patch(Some("new"), None, true);
    request.advance(Event::NodeInfo(Ok(info(4, 0, "old", NodeKind::File, 3))));
    request.advance(Event::NodePath(Ok("/old".to_string())));
    request.advance(Event::Resolved(None));
    request.advance(Event::Exists(false));
    request.advance(done());
    request.advance(Event::Staged(Ok(hash(2))));
    assert_eq!(
        shown(&request.action()),
        "Commit { message: \"lore-drive: move /old -> /new\" }"
    );
    request.advance(Event::Committed(Err("locked".to_string())));
    assert_eq!(shown(&request.action()), "Rename { from: \"new\", to: \"old\" }");
    request.advance(done());
    assert_eq!(request.reply().unwrap_err().error, "locked");
}

#[test]
fn a_move_is_refused_for_what_it_asks() {
    let refused = |text: &str, name: Option<&str>, parent: Option<u64>| {
        let request = Patch::start(text, IDS, name.map(str::to_string), parent, false, hash(1));
        found(request.err().unwrap()).1
    };
    assert_eq!(refused("x", None, None), "node_id must be a u64");
    assert_eq!(refused("0", Some("a"), None), "cannot rename or move the root");
    assert_eq!(refused("4", None, None), "provide name and/or parent_id");
    assert_eq!(refused("4", Some(".."), None), "invalid name");

    let mut request = patch(None, Some(1 << 33), false);
    request.advance(Event::NodeInfo(Ok(info(4, 0, "f", NodeKind::File, 3))));
    request.advance(Event::NodePath(Ok("/f".to_string())));
    assert_eq!(request.reply().unwrap_err().error, "node_id out of u32 range");

    let mut request = patch(Some("g"), None, false);
    request.advance(Event::NodeInfo(Ok(info(4, 0, "f", NodeKind::File, 3))));
    request.advance(Event::NodePath(Ok("/f".to_string())));
    request.advance(Event::Resolved(Some(8)));
    let error = request.reply().unwrap_err();
    assert_eq!(error.error, "destination already exists");
    assert_eq!(error.conflicts, Some(vec!["/g".to_string()]));
}

#[test]
fn a_node_is_deleted_and_staged() {
    for (kind, action) in [
        (NodeKind::Directory, "RemoveTree { path: \"x\" }"),
        (NodeKind::File, "RemoveFile { path: \"x\" }"),
    ] {
        let mut request = Delete::start("4", IDS, true, hash(1)).unwrap();
        request.advance(Event::NodeInfo(Ok(info(4, 0, "x", kind, 3))));
        request.advance(Event::NodePath(Ok("/x".to_string())));
        if kind == NodeKind::Directory {
            assert_eq!(shown(&request.action()), "Children { node: 4 }");
            request.advance(Event::Children(Ok((repository(), hash(1), vec![]))));
        }
        assert_eq!(shown(&request.action()), action);
        request.advance(done());
        assert_eq!(shown(&request.action()), "Stage { paths: [\"x\"] }");
        request.advance(Event::Staged(Ok(hash(2))));
        assert_eq!(
            shown(&request.action()),
            "Commit { message: \"lore-drive: delete /x\" }"
        );
        request.advance(Event::Committed(Ok(None)));
        request.advance(Event::Anchor(Ok(hash(1))));
        assert!(matches!(request.action(), Action::RemoveEntry { key } if key == props_key(4)));
        request.advance(done());
        assert_eq!(request.reply().unwrap(), "01".repeat(32));
    }
    assert_eq!(
        Delete::start("0", IDS, true, hash(1)).err().unwrap().error,
        "cannot delete the root"
    );
    let mut request = Delete::start("4", IDS, false, hash(1)).unwrap();
    request.advance(Event::NodeInfo(Ok(info(4, 0, "x", NodeKind::File, 3))));
    request.advance(Event::NodePath(Ok("/x".to_string())));
    request.advance(failed("busy"));
    assert_eq!(request.reply().unwrap_err().error, "remove: busy");
}

#[test]
fn a_deletion_clears_the_properties_of_all_it_deletes() {
    let mut request = Delete::start("4", IDS, false, hash(1)).unwrap();
    request.advance(Event::NodeInfo(Ok(info(4, 0, "x", NodeKind::Directory, 3))));
    request.advance(Event::NodePath(Ok("/x".to_string())));
    for (folder, children) in [
        (
            4,
            vec![
                child(5, "a", NodeKind::Directory, 0),
                child(6, "f", NodeKind::File, 3),
                child(7, "b", NodeKind::Directory, 0),
                child(8, "l", NodeKind::Link, 3),
            ],
        ),
        (7, vec![]),
        (5, vec![child(9, "g", NodeKind::File, 3)]),
    ] {
        assert_eq!(shown(&request.action()), format!("Children {{ node: {folder} }}"));
        request.advance(Event::Children(Ok((repository(), hash(1), children))));
    }
    assert_eq!(shown(&request.action()), "RemoveTree { path: \"x\" }");
    request.advance(done());
    request.advance(Event::Staged(Ok(hash(2))));
    request.advance(Event::StagedRevision(Some(hash(2))));
    request.advance(Event::Tree(Ok(9)));
    request.advance(done());
    for node in [4, 5, 6, 7, 8, 9] {
        match request.action() {
            Action::RemoveEntry { key } => assert_eq!(key, props_key(node)),
            other => panic!("{other:?}"),
        }
        request.advance(done());
    }
    assert!(matches!(request.action(), Action::Finish));
    assert_eq!(request.reply().unwrap(), "02".repeat(32));
}

#[test]
fn a_deletion_that_does_not_clear_the_properties_is_no_success() {
    let mut request = Delete::start("4", IDS, false, hash(1)).unwrap();
    request.advance(Event::NodeInfo(Ok(info(4, 0, "x", NodeKind::File, 3))));
    request.advance(Event::NodePath(Ok("/x".to_string())));
    request.advance(done());
    request.advance(Event::Staged(Ok(hash(2))));
    request.advance(Event::StagedRevision(Some(hash(1))));
    request.advance(failed("locked"));
    assert_eq!(
        found(request.reply().unwrap_err()),
        (Status::InternalServerError, "props: locked".to_string())
    );

    let mut request = Delete::start("4", IDS, false, hash(1)).unwrap();
    request.advance(Event::NodeInfo(Ok(info(4, 0, "x", NodeKind::Directory, 3))));
    request.advance(Event::NodePath(Ok("/x".to_string())));
    request.advance(Event::Children(Err(ApiError {
        status: Status::BadRequest,
        error: "gone".to_string(),
        conflicts: None,
    })));
    assert_eq!(found(request.reply().unwrap_err()), (Status::BadRequest, "gone".to_string()));
}

#[test]
fn the_served_tree_stays_while_its_revision_does() {
    let mut epilogue = Epilogue::start(false, "m".to_string(), hash(1));
    epilogue.advance(Event::StagedRevision(Some(hash(1))));
    assert_eq!(epilogue.stage, EpilogueStage::Finished);
    assert_eq!(epilogue.revision, hash(1));

    let mut epilogue = Epilogue::start(true, "m".to_string(), hash(1));
    epilogue.advance(Event::Committed(Ok(Some(hash(2)))));
    epilogue.advance(Event::Anchor(Ok(hash(2))));
    epilogue.advance(Event::Tree(Err("reload failed".to_string())));
    assert_eq!(epilogue.stage, EpilogueStage::Failed);
    assert_eq!(epilogue.failure, "reload failed");
}

#[test]
fn a_staged_file_without_a_hash_is_stored_to_find_its_address() {
    let mut lookup = Effective::start(4, NodeKind::File, 3, address(0));
    assert!(matches!(lookup.action(), Action::Cached { node: 4 }));
    lookup.advance(Event::Cached(None));
    lookup.advance(Event::NodePath(Ok("/d/f".to_string())));
    assert!(matches!(lookup.action(), Action::PutFile { .. }));
    lookup.advance(Event::Stored(Ok(address(6))));
    lookup.advance(done());
    assert_eq!(lookup.answer, Some(address(6)));

    let mut lookup = Effective::start(4, NodeKind::File, 3, address(0));
    lookup.advance(Event::Cached(Some(address(7))));
    assert_eq!(lookup.answer, Some(address(7)));

    for (kind, size, recorded, answer) in [
        (NodeKind::Directory, 3, address(0), None),
        (NodeKind::File, 0, address(0), Some(address(0))),
        (NodeKind::File, 3, address(1), Some(address(1))),
        (NodeKind::Link, 3, address(0), Some(address(0))),
    ] {
        let lookup = Effective::start(4, kind, size, recorded);
        assert!(matches!(lookup.action(), Action::Finish));
        assert_eq!(lookup.answer, answer);
    }
}

#[test]
fn content_is_read_from_the_store_or_the_working_directory() {
    let start = |stored| Read::start(repository(), address(stored), "/f".to_string());
    let mut read = start(0);
    assert_eq!(shown(&read.action()), "ReadFile { path: \"f\" }");
    read.advance(Event::Content(Err("missing".to_string())));
    assert_eq!((read.stage, read.bytes.len()), (ReadStage::Finished, 0));

    let mut read = start(1);
    assert!(matches!(read.action(), Action::Fetch { .. }));
    read.advance(done());
    read.advance(Event::Content(Ok(vec![1])));
    assert_eq!(read.bytes, [1]);

    let mut read = start(1);
    read.advance(failed("miss"));
    assert_eq!(shown(&read.action()), "ReadFile { path: \"f\" }");
    read.advance(Event::Content(Err("gone".to_string())));
    assert_eq!(read.stage, ReadStage::Failed);
    assert_eq!(read.failure, "CAS: miss; workdir: gone");
}

#[test]
fn a_file_is_downloaded_under_its_name() {
    let mut request = Download::start("4", IDS, repository()).unwrap();
    request.advance(Event::NodeInfo(Ok(info(4, 0, "f.txt", NodeKind::File, 3))));
    request.advance(done());
    request.advance(Event::NodePath(Ok("/f.txt".to_string())));
    assert!(matches!(request.action(), Action::Fetch { .. }));
    request.advance(done());
    assert!(matches!(request.action(), Action::ReadFetched));
    request.advance(Event::Content(Ok(b"abc".to_vec())));
    let response = request.reply().unwrap();
    assert_eq!(response.bytes, b"abc");
    assert_eq!(response.disposition, "attachment; filename=\"f.txt\"");
    assert_eq!(response.content_type.as_deref(), Some("application/octet-stream"));
}

#[test]
fn a_folder_is_downloaded_with_all_that_is_in_it() {
    let mut request = Download::start("0", IDS, repository()).unwrap();
    request.advance(done());
    request.advance(Event::NodePath(Ok("/".to_string())));
    assert!(matches!(request.action(), Action::Children { node: 0 }));
    request.advance(Event::Children(Ok((
        repository(),
        hash(1),
        vec![
            child(1, "d", NodeKind::Directory, 0),
            child(2, "f", NodeKind::File, 2),
            child(3, "l", NodeKind::Link, 3),
            child(4, "e", NodeKind::Directory, 0),
        ],
    ))));
    assert!(matches!(request.action(), Action::Fetch { .. }));
    request.advance(done());
    request.advance(Event::Content(Ok(b"f".to_vec())));
    assert!(matches!(request.action(), Action::Children { node: 4 }));
    request.advance(Event::Children(Ok((repository(), hash(1), vec![]))));
    assert!(matches!(request.action(), Action::Children { node: 1 }));
    request.advance(Event::Children(Ok((
        repository(),
        hash(1),
        vec![child(5, "g", NodeKind::File, 0)],
    ))));
    assert_eq!(shown(&request.action()), "ReadFile { path: \"d/g\" }");
    request.advance(Event::Content(Ok(b"g".to_vec())));
    let response = request.reply().unwrap();
    assert_eq!(response.disposition, "attachment; filename=\"root.zip\"");
    let mut archive = zip::ZipArchive::new(std::io::Cursor::new(response.bytes)).unwrap();
    let names: Vec<String> = (0..archive.len())
        .map(|i| archive.by_index(i).unwrap().name().to_string())
        .collect();
    assert_eq!(names, ["d/", "e/", "f", "d/g"]);
}

#[test]
fn a_download_is_refused_for_links_and_failures() {
    let mut request = Download::start("4", IDS, repository()).unwrap();
    request.advance(Event::NodeInfo(Ok(info(4, 0, "l", NodeKind::Link, 3))));
    assert_eq!(
        request.reply().unwrap_err().error,
        "link download is not supported"
    );
    let mut request = Download::start("4", IDS, repository()).unwrap();
    request.advance(Event::NodeInfo(Ok(info(4, 0, "f", NodeKind::File, 3))));
    request.advance(done());
    request.advance(Event::NodePath(Ok("/f".to_string())));
    request.advance(failed("miss"));
    request.advance(Event::Content(Err("gone".to_string())));
    assert_eq!(
        found(request.reply().unwrap_err()),
        (
            Status::InternalServerError,
            "CAS: miss; workdir: gone".to_string()
        )
    );
    assert!(Download::start("x", IDS, repository()).is_err());
}

#[test]
fn a_listing_shows_every_child_of_a_directory() {
    let mut request = Browse::start(None, IDS, repository()).unwrap();
    assert!(matches!(request.action(), Action::Children { node: 0 }));
    request.advance(Event::Children(Ok((
        repository(),
        hash(1),
        vec![
            child(1, "d", NodeKind::Directory, 0),
            child(2, "f", NodeKind::File, 0),
            child(3, "g", NodeKind::File, 3),
        ],
    ))));
    assert!(matches!(request.action(), Action::Cached { node: 2 }));
    request.advance(Event::Cached(Some(address(8))));
    let reply = request.reply().unwrap();
    assert_eq!(reply.node_id, 0);
    assert_eq!(reply.repository_id, "05".repeat(16));
    let shown: Vec<(u64, String, Option<String>)> = reply
        .children
        .iter()
        .map(|entry| (entry.node_id, entry.kind.clone(), entry.address.clone()))
        .collect();
    assert_eq!(
        shown,
        vec![
            (1, "directory".to_string(), None),
            (2, "file".to_string(), Some(address(8).to_text())),
            (3, "file".to_string(), Some(address(3).to_text())),
        ]
    );
}

#[test]
fn children_of_another_repository_are_shown_as_recorded() {
    let other = RepositoryId { data: [6; 16] };
    let mut request = Browse::start(Some(7), IDS, repository()).unwrap();
    request.advance(Event::Children(Ok((
        other,
        hash(1),
        vec![child(2, "f", NodeKind::File, 0)],
    ))));
    let reply = request.reply().unwrap();
    assert_eq!(reply.children[0].address, Some(address(0).to_text()));
    assert_eq!(reply.repository_id, "06".repeat(16));
}

#[test]
fn a_record_is_shown_or_refused() {
    let mut record = Record::request("4", IDS).unwrap();
    record.advance(Event::NodeInfo(Ok(info(4, 2, "f", NodeKind::File, 3))));
    record.advance(Event::NodePath(Ok("/d/f".to_string())));
    let shown = record.reply().unwrap();
    assert_eq!((shown.node_id, shown.parent_id, shown.size), (4, 2, 3));
    assert_eq!(shown.address, Some(address(3).to_text()));

    let mut record = Record::request("4", IDS).unwrap();
    record.advance(Event::NodeInfo(Err(lore::drive::api::err_resp(
        Status::NotFound,
        "node not found",
    ))));
    assert_eq!(
        found(record.reply().unwrap_err()),
        (Status::NotFound, "node not found".to_string())
    );
    assert!(Record::request("", IDS).is_err());
}
