use lore::drive::api::{
    address_opt, conflict_resp, err_resp, is_dir, is_file, is_link, kind_str, mode_str,
    parse_node_id, parse_node_text, ChildInfo, NodeIds, NodeInfo, NodeKind, Status,
};
use lore::drive::archive::{build_zip, check_names, ArchiveFile};
use lore::drive::header::binary_response;
use lore::drive::open::{workspace_info, OpenEvent, OpenStage, Opening};
use lore::drive::path::{
    join_all, join_virtual, lies_below, rel_of, sanitize_rel_path, valid_name,
};
use lore::drive::verbs::{
    cas_fetch_to_file, cas_put_file, commit_staged, fetch_children, fetch_node_info,
    fetch_node_path, is_nothing_staged, reloaded_tree, stage_move_path, stage_paths,
    try_resolve_path, ErrorCode, ListEvent, Listing, RevisionEvent, Told,
};
use lore::drive::workspace::Workspace;
use lore::types::{Address, BranchId, ContentHash, Context, RepositoryId};
use std::io::Read;

const IDS: NodeIds = NodeIds { root: 0, invalid: u32::MAX };

fn hash(byte: u8) -> ContentHash {
    ContentHash { data: [byte; 32] }
}

fn address(byte: u8) -> Address {
    Address { hash: hash(byte), context: Context { data: [byte; 16] } }
}

fn info(node_id: u32, kind: NodeKind) -> NodeInfo {
    NodeInfo {
        node_id,
        parent_id: 0,
        name: "n".to_string(),
        kind,
        mode: 0o644,
        size: 3,
        address: address(1),
    }
}

fn names(values: &[&str]) -> Vec<String> {
    values.iter().map(|value| value.to_string()).collect()
}

#[test]
fn kinds_have_names() {
    assert_eq!(kind_str(NodeKind::File), "file");
    assert_eq!(kind_str(NodeKind::Link), "link");
    assert_eq!(kind_str(NodeKind::Directory), "directory");
    assert_eq!(kind_str(NodeKind::Other), "directory");
    assert!(is_file(NodeKind::File) && !is_file(NodeKind::Link));
    assert!(is_dir(NodeKind::Directory) && !is_dir(NodeKind::Other));
    assert!(is_link(NodeKind::Link) && !is_link(NodeKind::File));
    assert_eq!(mode_str(true), "versioned");
    assert_eq!(mode_str(false), "drive");
}

#[test]
fn addresses_are_shown_for_all_but_directories() {
    assert_eq!(address_opt(NodeKind::Directory, address(1)), None);
    assert_eq!(
        address_opt(NodeKind::File, address(0xab)),
        Some(format!("{}-{}", "ab".repeat(32), "ab".repeat(16)))
    );
    assert!(address_opt(NodeKind::Link, address(1)).is_some());
}

#[test]
fn errors_carry_a_status_and_conflicts() {
    let error = err_resp(Status::NotFound, "gone");
    assert_eq!(error.status.code(), 404);
    assert_eq!(error.error, "gone");
    assert_eq!(error.conflicts, None);
    let error = conflict_resp("in the way", names(&["/a"]));
    assert_eq!(error.status.code(), 409);
    assert_eq!(error.conflicts, Some(names(&["/a"])));
    assert_eq!(Status::Success.code(), 200);
    assert_eq!(Status::Created.code(), 201);
    assert_eq!(Status::BadRequest.code(), 400);
    assert_eq!(Status::InternalServerError.code(), 500);
}

#[test]
fn node_ids_have_32_bits_and_are_not_the_invalid_one() {
    assert_eq!(parse_node_id(7, IDS).unwrap(), 7);
    let error = parse_node_id(1 << 32, IDS).unwrap_err();
    assert_eq!(error.error, "node_id out of u32 range");
    let error = parse_node_id(u32::MAX as u64, IDS).unwrap_err();
    assert_eq!(error.error, "node_id is the invalid sentinel");
    assert_eq!(error.status, Status::BadRequest);
}

#[test]
fn node_ids_are_written_in_decimal() {
    assert_eq!(parse_node_text("12", IDS).unwrap(), 12);
    assert_eq!(parse_node_text("+0012", IDS).unwrap(), 12);
    for text in ["", "+", "-1", "1x", " 1", "18446744073709551616", "٣"] {
        assert_eq!(
            parse_node_text(text, IDS).unwrap_err().error,
            "node_id must be a u64",
            "{text}"
        );
        assert!(text.parse::<u64>().is_err());
    }
    assert_eq!(
        parse_node_text("18446744073709551615", IDS).unwrap_err().error,
        "node_id out of u32 range"
    );
}

#[test]
fn names_are_single_components() {
    for name in ["a", "a b", "...", ".a", "é"] {
        assert!(valid_name(name), "{name}");
    }
    for name in ["", ".", "..", "a/b", "a\\b", "a\0"] {
        assert!(!valid_name(name), "{name:?}");
    }
}

#[test]
fn upload_names_become_safe_segments() {
    assert_eq!(sanitize_rel_path(" a//b/c.txt \n"), Some(names(&["a", "b", "c.txt"])));
    assert_eq!(sanitize_rel_path("a/"), Some(names(&["a"])));
    for raw in [" a//b/c.txt \n", "x", "a b / c"] {
        let segments = sanitize_rel_path(raw).unwrap();
        assert_eq!(sanitize_rel_path(&segments.join("/")), Some(segments), "{raw:?}");
    }
    assert_eq!(sanitize_rel_path("a /"), Some(names(&["a "])));
    assert_eq!(sanitize_rel_path("a "), Some(names(&["a"])));
    for raw in ["", "  ", "/a", "a/../b", "..", "a/./b", "a\\b", "a/\0", "//"] {
        assert_eq!(sanitize_rel_path(raw), None, "{raw:?}");
    }
}

#[test]
fn virtual_paths_are_joined_and_made_relative() {
    assert_eq!(join_virtual("/", "a"), "/a");
    assert_eq!(join_virtual("/a", "b"), "/a/b");
    assert_eq!(join_all("/", &names(&["a", "b"])), "/a/b");
    assert_eq!(join_all("/x", &names(&["a", "b"])), "/x/a/b");
    assert_eq!(join_all("/x", &names(&[])), "/x");
    assert_eq!(rel_of("/"), "");
    assert_eq!(rel_of("//a/b"), "a/b");
    assert_eq!(rel_of("a/b/"), "a/b/");
    assert!(lies_below("/a/b", "/a"));
    assert!(!lies_below("/ab", "/a"));
    assert!(!lies_below("/a", "/a"));
}

#[test]
fn node_records_come_from_what_the_verb_reported() {
    let reported = |code| Some((info(4, NodeKind::File), code));
    assert_eq!(
        fetch_node_info(0, reported(ErrorCode::NoError)).unwrap().node_id,
        4
    );
    let error = fetch_node_info(0, reported(ErrorCode::InvalidArguments)).unwrap_err();
    assert_eq!((error.status, error.error.as_str()), (Status::NotFound, "node not found"));
    for (status, reported) in [
        (1, reported(ErrorCode::NoError)),
        (0, reported(ErrorCode::Other("Internal".to_string()))),
        (0, None),
    ] {
        let error = fetch_node_info(status, reported).unwrap_err();
        assert_eq!(error.error, "node_info failed");
        assert_eq!(error.status, Status::InternalServerError);
    }
}

#[test]
fn node_paths_start_with_a_slash() {
    let path = |status, raw: &str, code| fetch_node_path(status, Some((raw.to_string(), code)));
    assert_eq!(path(0, "", ErrorCode::NoError).unwrap(), "/");
    assert_eq!(path(0, "a/b", ErrorCode::NoError).unwrap(), "/a/b");
    assert_eq!(path(1, "a", ErrorCode::NoError).unwrap_err().error, "node_path failed");
    assert!(path(0, "a", ErrorCode::InvalidArguments).is_err());
    assert!(fetch_node_path(0, None).is_err());
}

#[test]
fn listings_gather_children() {
    let child = |id| ChildInfo {
        node_id: id,
        name: format!("c{id}"),
        kind: NodeKind::File,
        mode: 0,
        size: 0,
        address: address(1),
    };
    let repository = RepositoryId { data: [9; 16] };
    let mut listing = Listing::new();
    listing.take(ListEvent::Begin {
        repository_id: repository,
        revision: hash(2),
        error: ErrorCode::NoError,
    });
    listing.take(ListEvent::Child(child(1)));
    listing.take(ListEvent::Other);
    listing.take(ListEvent::Child(child(2)));
    let (owner, revision, children) = fetch_children(0, listing).unwrap();
    assert_eq!((owner, revision), (repository, hash(2)));
    let ids: Vec<u32> = children.iter().map(|child| child.node_id).collect();
    assert_eq!(ids, [1, 2]);

    assert!(fetch_children(1, Listing::new()).is_err());
    let mut refused = Listing::new();
    refused.take(ListEvent::Begin {
        repository_id: repository,
        revision: hash(2),
        error: ErrorCode::InvalidArguments,
    });
    let error = fetch_children(0, refused).unwrap_err();
    assert_eq!(error.error, "node_id is not a valid directory node");
    assert_eq!(error.status, Status::BadRequest);
}

#[test]
fn paths_resolve_to_valid_nodes_only() {
    assert_eq!(try_resolve_path(0, Some((3, ErrorCode::NoError)), IDS), Some(3));
    assert_eq!(try_resolve_path(1, Some((3, ErrorCode::NoError)), IDS), None);
    assert_eq!(try_resolve_path(0, Some((u32::MAX, ErrorCode::NoError)), IDS), None);
    assert_eq!(try_resolve_path(0, Some((3, ErrorCode::InvalidArguments)), IDS), None);
    assert_eq!(try_resolve_path(0, None, IDS), None);
}

#[test]
fn store_verbs_say_why_they_failed() {
    assert_eq!(cas_fetch_to_file(0, Some(ErrorCode::NoError)), Ok(()));
    assert_eq!(
        cas_fetch_to_file(0, Some(ErrorCode::Other("NotFound".to_string()))),
        Err("get_file failed: NotFound".to_string())
    );
    assert_eq!(
        cas_fetch_to_file(3, Some(ErrorCode::NoError)),
        Err("get_file failed: None".to_string())
    );
    assert_eq!(
        cas_fetch_to_file(-3, None),
        Err("get_file emitted no completion (status -3)".to_string())
    );
    assert_eq!(
        cas_put_file(0, Some((address(4), ErrorCode::NoError))),
        Ok(address(4))
    );
    assert_eq!(
        cas_put_file(0, Some((address(4), ErrorCode::InvalidArguments))),
        Err("put_file failed: InvalidArguments".to_string())
    );
    assert_eq!(
        cas_put_file(-2147483648, None),
        Err("put_file emitted no completion (status -2147483648)".to_string())
    );
}

#[test]
fn staging_tells_the_last_revision() {
    let mut told = Told::new();
    assert_eq!(
        stage_paths(0, &told),
        Err("stage emitted no staged revision".to_string())
    );
    told.take(RevisionEvent::Revision(hash(1)));
    told.take(RevisionEvent::Other);
    told.take(RevisionEvent::Revision(hash(2)));
    told.take(RevisionEvent::Error("x".to_string()));
    told.take(RevisionEvent::Error("y".to_string()));
    assert_eq!(stage_paths(0, &told), Ok(hash(2)));
    assert_eq!(stage_paths(2, &told), Err("stage failed (status 2): x; y".to_string()));
    assert_eq!(
        stage_move_path(2, &told),
        Err("stage_move failed (status 2): x; y".to_string())
    );
    assert_eq!(
        stage_move_path(0, &Told::new()),
        Err("stage_move emitted no staged revision".to_string())
    );
}

#[test]
fn a_commit_with_nothing_to_commit_is_no_failure() {
    let mut told = Told::new();
    assert_eq!(
        commit_staged(1, &told),
        Err("commit failed (status 1): unknown error".to_string())
    );
    told.take(RevisionEvent::Error("Nothing is Staged".to_string()));
    assert_eq!(commit_staged(1, &told), Ok(None));
    told.take(RevisionEvent::Revision(hash(1)));
    assert_eq!(commit_staged(0, &told), Ok(Some(hash(1))));
    assert_eq!(commit_staged(1, &told), Ok(None));

    assert!(is_nothing_staged(&names(&["a", "code: NothingStaged"])));
    assert!(!is_nothing_staged(&names(&["nothing", "staged"])));
    assert!(!is_nothing_staged(&names(&[])));

    let mut failed = Told::new();
    failed.take(RevisionEvent::Error("disk full".to_string()));
    assert_eq!(
        commit_staged(7, &failed),
        Err("commit failed (status 7): disk full".to_string())
    );
}

#[test]
fn a_tree_is_reloaded_or_not() {
    assert_eq!(reloaded_tree(0, Some(5)), Ok(5));
    for (status, loaded) in [(0, None), (4, Some(5))] {
        assert_eq!(
            reloaded_tree(status, loaded),
            Err(format!("revision tree reload failed (status {status})"))
        );
    }
}

#[test]
fn addresses_are_forgotten_with_their_tree() {
    let mut workspace = Workspace::new(1, hash(1));
    assert_eq!(workspace.cached(3), None);
    workspace.remember(3, address(4));
    assert_eq!(workspace.cached(3), Some(address(4)));
    assert_eq!(workspace.swap(2, hash(2)), 1);
    assert_eq!(workspace.cached(3), None);
    assert_eq!((workspace.tree(), workspace.revision()), (2, hash(2)));
}

#[test]
fn folders_become_archives() {
    let dirs = names(&["a", "a/b"]);
    let files = vec![
        ArchiveFile { path: "a/one.txt".to_string(), content: b"one".to_vec() },
        ArchiveFile { path: "é".to_string(), content: vec![7; 100_000] },
    ];
    assert!(check_names(&dirs, &files));
    let bytes = build_zip(&dirs, &files).unwrap();
    let mut archive = zip::ZipArchive::new(std::io::Cursor::new(bytes)).unwrap();
    let mut entries: Vec<(String, Vec<u8>)> = Vec::new();
    for i in 0..archive.len() {
        let mut entry = archive.by_index(i).unwrap();
        let method = if i < 2 {
            zip::CompressionMethod::Stored
        } else {
            zip::CompressionMethod::Deflated
        };
        assert_eq!(entry.compression(), method);
        let mut content = Vec::new();
        entry.read_to_end(&mut content).unwrap();
        entries.push((entry.name().to_string(), content));
    }
    assert_eq!(
        entries,
        vec![
            ("a/".to_string(), vec![]),
            ("a/b/".to_string(), vec![]),
            ("a/one.txt".to_string(), b"one".to_vec()),
            ("é".to_string(), vec![7; 100_000]),
        ]
    );
}

#[test]
fn an_archive_holds_no_name_twice() {
    let file = || ArchiveFile { path: "x".to_string(), content: vec![] };
    assert_eq!(
        build_zip(&names(&[]), &vec![file(), file()]).unwrap_err(),
        "invalid Zip archive: Duplicate filename: x"
    );
    assert_eq!(
        build_zip(&names(&["c", "d", "d/"]), &vec![file()]).unwrap_err(),
        "invalid Zip archive: Duplicate filename: d/"
    );
    let long = || "n".repeat(65535);
    assert!(check_names(
        &names(&[]),
        &vec![ArchiveFile { path: long(), content: vec![] }]
    ));
    assert!(!check_names(&vec![long()], &vec![]));
    assert!(!check_names(
        &names(&[]),
        &vec![ArchiveFile { path: "é".repeat(32768), content: vec![] }]
    ));
}

#[test]
fn downloads_carry_their_name() {
    let response = binary_response(vec![1, 2], "application/zip", "a \"b\".zip");
    assert_eq!(response.content_type.as_deref(), Some("application/zip"));
    assert_eq!(response.disposition, "attachment; filename=\"a _b_.zip\"");
    assert_eq!(response.bytes, [1, 2]);
    let response = binary_response(vec![], "a\nb", "x\u{7f}");
    assert_eq!(response.content_type, None);
    assert_eq!(response.disposition, "attachment; filename=\"download\"");
    assert_eq!(
        binary_response(vec![], "a", "é\t").disposition,
        "attachment; filename=\"é\t\""
    );
}

#[test]
fn opening_a_workspace_prefers_a_staged_revision_in_drive_mode() {
    let repository = RepositoryId { data: [1; 16] };
    let branch = BranchId { data: [2; 16] };
    let mut opening = Opening::start(false);
    opening.advance(OpenEvent::Connected(Ok(repository)));
    opening.advance(OpenEvent::Anchor(Ok((hash(1), branch))));
    assert_eq!(opening.stage, OpenStage::StagedRevision);
    opening.advance(OpenEvent::StagedRevision(Some(hash(2))));
    opening.advance(OpenEvent::BranchName(None));
    opening.advance(OpenEvent::StoreOpened(0, Some(5)));
    opening.advance(OpenEvent::TreeLoaded(0, Some(6)));
    assert_eq!(opening.stage, OpenStage::Finished);
    assert_eq!((opening.revision, opening.store, opening.tree), (hash(2), 5, 6));
    assert_eq!((opening.repository, opening.branch), (repository, branch));
    assert_eq!(opening.branch_name, "");
}

#[test]
fn opening_a_workspace_serves_its_anchor_otherwise() {
    for versioned in [true, false] {
        let mut opening = Opening::start(versioned);
        opening.advance(OpenEvent::Connected(Ok(RepositoryId { data: [1; 16] })));
        opening.advance(OpenEvent::Anchor(Ok((hash(1), BranchId { data: [2; 16] }))));
        if !versioned {
            opening.advance(OpenEvent::StagedRevision(None));
        }
        assert_eq!(opening.stage, OpenStage::ServedAnchor);
        opening.advance(OpenEvent::Anchor(Ok((hash(3), BranchId { data: [2; 16] }))));
        opening.advance(OpenEvent::BranchName(Some("main".to_string())));
        assert_eq!(opening.revision, hash(3));
        assert_eq!(opening.branch_name, "main");
        assert_eq!(opening.stage, OpenStage::OpenStore);
    }
}

#[test]
fn opening_a_workspace_says_why_it_fails() {
    let failure = |events: Vec<OpenEvent>| {
        let mut opening = Opening::start(true);
        for event in events {
            opening.advance(event);
        }
        assert_eq!(opening.stage, OpenStage::Failed);
        opening.failure
    };
    let start = || {
        vec![
            OpenEvent::Connected(Ok(RepositoryId { data: [1; 16] })),
            OpenEvent::Anchor(Ok((hash(1), BranchId { data: [2; 16] }))),
            OpenEvent::Anchor(Ok((hash(1), BranchId { data: [2; 16] }))),
            OpenEvent::BranchName(None),
        ]
    };
    assert_eq!(failure(vec![OpenEvent::Connected(Err("no".to_string()))]), "no");
    let mut events = start();
    events.push(OpenEvent::StoreOpened(2, None));
    assert_eq!(failure(events), "lore_storage_open failed (status 2)");
    let mut events = start();
    events.push(OpenEvent::StoreOpened(0, None));
    assert_eq!(
        failure(events),
        "lore_storage_open succeeded but emitted no handle"
    );
    let mut events = start();
    events.push(OpenEvent::StoreOpened(0, Some(1)));
    events.push(OpenEvent::TreeLoaded(3, None));
    assert_eq!(failure(events), "lore_revision_tree_load failed (status 3)");
    let mut events = start();
    events.push(OpenEvent::StoreOpened(0, Some(1)));
    events.push(OpenEvent::TreeLoaded(0, None));
    assert_eq!(failure(events), "load succeeded but emitted no tree handle");
}

#[test]
fn a_workspace_is_described() {
    let info = workspace_info(
        RepositoryId { data: [1; 16] },
        BranchId { data: [2; 16] },
        "main",
        hash(3),
        "/w",
        false,
    );
    assert_eq!(info.repository_id, "01".repeat(16));
    assert_eq!(info.branch_id, "02".repeat(16));
    assert_eq!(info.revision, "03".repeat(32));
    assert_eq!(
        (info.branch_name.as_str(), info.workdir.as_str(), info.mode.as_str()),
        ("main", "/w", "drive")
    );
}
