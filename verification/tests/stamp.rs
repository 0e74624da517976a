use lore::stamp::field::{build_field, check_build_name, is_mach_o, is_token_byte};
use lore::stamp::run::{
    parse_arguments, Action, Argument, ArgumentText, Event, Run,
};
use lore::stamp::sign::{sign_ad_hoc, signed_ad_hoc};
use lore::stamp::slot::{locate_build_field, ReadOutcome, SlotSearch};
use lore::stamp::{in_file, StampError, READ_BUFFER_SIZE, USAGE};
use lore::version::{
    build_name, library_version, version_name, STAMP_BUILD_CAPACITY, STAMP_MARKER, STAMP_MARKER_LEN,
};

const UNSTAMPED: [u8; STAMP_BUILD_CAPACITY] = [0; STAMP_BUILD_CAPACITY];
const LEADING: &[u8] = b"leading bytes";
const FIELD_OFFSET: u64 = 13 + 32;

fn arguments(values: &[&str]) -> Vec<Argument<String>> {
    values
        .iter()
        .map(|value| Argument {
            text: ArgumentText::Unicode(value.to_string()),
            file: value.to_string(),
        })
        .collect()
}

/// An artifact whose one slot holds `field`, with other bytes on either side.
fn artifact(field: &[u8; STAMP_BUILD_CAPACITY]) -> Vec<u8> {
    [LEADING, &STAMP_MARKER[..], &field[..], b"trailing bytes"].concat()
}

fn locate(artifact: &[u8], buffer_size: usize) -> Result<u64, StampError> {
    locate_build_field(artifact, &mut vec![0; buffer_size])
}

/// Stamps an artifact that is held in memory.
fn stamp(artifact: &mut Vec<u8>, build: &str) {
    let mut run = Run::start(build.to_string(), vec!["artifact".to_string()], false).unwrap();
    loop {
        let event = match run.action() {
            Action::Locate { .. } => Event::Located(locate(artifact, READ_BUFFER_SIZE)),
            Action::Write { offset, field, .. } => {
                let offset = offset as usize;
                artifact[offset..offset + field.len()].copy_from_slice(&field);
                Event::Written(Ok(()))
            }
            Action::Report { .. } => Event::Reported,
            Action::Finish => return,
            other => panic!("{other:?}"),
        };
        run.advance(event).unwrap();
    }
}

#[test]
fn arguments_take_a_build_name_and_files() {
    let parsed = parse_arguments(arguments(&["--build", "1171", "lore", "liblore.so"])).unwrap();
    assert_eq!(parsed.build, "1171");
    assert_eq!(parsed.files, vec!["lore".to_string(), "liblore.so".to_string()]);
}

#[test]
fn arguments_without_a_build_name_or_files_are_refused() {
    for values in [
        &[][..],
        &["lore"][..],
        &["--build"][..],
        &["--build", "1171"][..],
        &["--name", "1171", "lore"][..],
    ] {
        assert!(
            matches!(parse_arguments(arguments(values)), Err(StampError::Usage)),
            "{values:?}"
        );
    }
}

#[test]
fn a_build_name_that_is_not_unicode_is_refused_before_missing_files() {
    let mut given = arguments(&["--build"]);
    given.push(Argument {
        text: ArgumentText::Lossy("bad\u{fffd}".to_string()),
        file: "bad".to_string(),
    });
    match parse_arguments(given) {
        Err(StampError::InvalidBuildName(name)) => assert_eq!(name, "bad\u{fffd}"),
        _ => panic!("expected an invalid build name"),
    }
}

#[test]
fn a_build_name_of_token_characters_is_accepted() {
    for build in ["1171", "20260924.3", "ci-1171", "A_b~c", "!#$%&'*+-.^_`|~"] {
        assert!(check_build_name(build).is_ok(), "{build}");
    }
}

#[test]
fn a_build_name_outside_the_token_characters_is_refused() {
    for build in [
        "",
        "has space",
        "quote\"",
        "back\\slash",
        "slash/1",
        "semi;colon",
        "é",
        "tab\t",
        "nul\0",
    ] {
        assert!(
            matches!(
                check_build_name(build),
                Err(StampError::InvalidBuildName(_))
            ),
            "{build:?}"
        );
    }
}

#[test]
fn a_build_name_must_leave_room_for_its_terminating_nul() {
    assert!(check_build_name(&"9".repeat(STAMP_BUILD_CAPACITY - 1)).is_ok());
    assert!(matches!(
        check_build_name(&"9".repeat(STAMP_BUILD_CAPACITY)),
        Err(StampError::BuildNameTooLong(_))
    ));
}

#[test]
fn token_bytes_are_those_of_the_token_grammar() {
    for byte in 0..=255u8 {
        let expected = byte.is_ascii_alphanumeric() || b"!#$%&'*+-.^_`|~".contains(&byte);
        assert_eq!(is_token_byte(byte), expected, "{byte}");
    }
}

#[test]
fn a_slot_is_found_once_wherever_the_reads_split_it() {
    let artifact = artifact(&UNSTAMPED);
    for buffer_size in STAMP_MARKER.len()..=artifact.len() + 1 {
        assert_eq!(
            locate(&artifact, buffer_size).unwrap(),
            FIELD_OFFSET,
            "{buffer_size}"
        );
    }
}

#[test]
fn a_slot_opening_a_file_that_its_field_ends_is_found() {
    let artifact = [&STAMP_MARKER[..], &UNSTAMPED[..]].concat();
    assert_eq!(
        locate(&artifact, READ_BUFFER_SIZE).unwrap(),
        STAMP_MARKER.len() as u64
    );
}

#[test]
fn an_artifact_without_a_slot_is_refused() {
    for artifact in [
        &b"no slot here"[..],
        &STAMP_MARKER[..STAMP_MARKER.len() - 1],
    ] {
        assert!(matches!(
            locate(artifact, READ_BUFFER_SIZE),
            Err(StampError::NoSlot)
        ));
    }
}

#[test]
fn an_artifact_with_two_slots_is_refused_wherever_the_reads_split_it() {
    let artifact = artifact(&UNSTAMPED).repeat(2);
    for buffer_size in STAMP_MARKER.len()..=artifact.len() + 1 {
        assert!(
            matches!(
                locate(&artifact, buffer_size),
                Err(StampError::SeveralSlots(2))
            ),
            "{buffer_size}"
        );
    }
}

#[test]
fn a_slot_cut_off_by_the_end_of_the_file_is_refused() {
    let artifact = [&STAMP_MARKER[..], &UNSTAMPED[1..]].concat();
    assert!(matches!(
        locate(&artifact, READ_BUFFER_SIZE),
        Err(StampError::TruncatedSlot)
    ));
}

#[test]
fn reads_of_any_length_find_the_same_slot() {
    let artifact = artifact(&build_field("1171"));
    for length in 1..artifact.len() {
        let mut buffer = vec![0u8; STAMP_MARKER_LEN + length];
        let mut search = SlotSearch::new();
        for piece in artifact.chunks(length) {
            let kept = search.kept();
            buffer[kept..kept + piece.len()].copy_from_slice(piece);
            search.absorb(&mut buffer, piece.len());
        }
        assert_eq!(search.finish().unwrap(), FIELD_OFFSET, "{length}");
    }
}

#[test]
fn interrupted_reads_are_made_again_and_failed_ones_end_the_search() {
    let artifact = artifact(&build_field("1171"));
    for length in [1, 7, 32, 100] {
        let mut buffer = vec![0x5au8; STAMP_MARKER_LEN + length];
        let mut search = SlotSearch::new();
        for piece in artifact.chunks(length) {
            assert!(search.take(&mut buffer, ReadOutcome::Interrupted).is_none());
            let kept = search.kept();
            buffer[kept..kept + piece.len()].copy_from_slice(piece);
            assert!(search.take(&mut buffer, ReadOutcome::Bytes(piece.len())).is_none());
        }
        let located = search.take(&mut buffer, ReadOutcome::Bytes(0)).unwrap();
        assert_eq!(located.unwrap(), FIELD_OFFSET, "{length}");
    }
    let mut search = SlotSearch::new();
    let outcome = ReadOutcome::Failed("gone".to_string());
    match search.take(&mut vec![0; STAMP_MARKER_LEN], outcome) {
        Some(Err(StampError::Io(error))) => assert_eq!(error, "gone"),
        other => panic!("{other:?}"),
    }
}

/// Stamps every file of a batch with what the batch asks for.
fn stamp_batch(build: &str, files: &mut [Vec<u8>]) {
    let names = (0..files.len()).map(|i| format!("file {i}")).collect();
    let mut run = Run::start(build.to_string(), names, false).unwrap();
    loop {
        let event = match run.action() {
            Action::Locate { file } => Event::Located(locate(&files[file], READ_BUFFER_SIZE)),
            Action::Write { file, offset, field } => {
                let offset = offset as usize;
                files[file][offset..offset + field.len()].copy_from_slice(&field);
                Event::Written(Ok(()))
            }
            Action::Report { .. } => Event::Reported,
            Action::Finish => return,
            other => panic!("{other:?}"),
        };
        run.advance(event).unwrap();
    }
}

#[test]
fn a_batch_that_is_stamped_again_holds_the_later_name_alone() {
    let plain = vec![artifact(&UNSTAMPED), [b"x", &artifact(&UNSTAMPED)[..]].concat()];
    let mut twice = plain.clone();
    stamp_batch("a-much-longer-name.1", &mut twice);
    assert_eq!(twice[0], artifact(&build_field("a-much-longer-name.1")));
    stamp_batch("2", &mut twice);
    let mut once = plain.clone();
    stamp_batch("2", &mut once);
    assert_eq!(twice, once);
    assert_eq!(twice[0], artifact(&build_field("2")));
    assert_eq!(twice[1].len(), plain[1].len());
}

#[test]
fn mach_o_files_are_told_from_other_artifacts() {
    for magic in [
        [0xcf, 0xfa, 0xed, 0xfe],
        [0xce, 0xfa, 0xed, 0xfe],
        [0xca, 0xfe, 0xba, 0xbe],
        [0xca, 0xfe, 0xba, 0xbf],
    ] {
        assert!(is_mach_o(&magic), "{magic:x?}");
    }
    for other in [*b"\x7fELF", *b"MZ\x90\x00", *b"!<ar"] {
        assert!(!is_mach_o(&other), "{other:x?}");
    }
}

#[test]
fn stamping_a_file_writes_only_the_build_name_field() {
    let mut file = artifact(&UNSTAMPED);
    stamp(&mut file, "1171");
    assert_eq!(file, artifact(&build_field("1171")));
}

#[test]
fn stamping_again_replaces_a_longer_build_name() {
    let mut file = artifact(&UNSTAMPED);
    stamp(&mut file, "a-long-build-name");
    stamp(&mut file, "2");
    assert_eq!(file, artifact(&build_field("2")));
}

#[test]
fn a_stamped_binary_reports_the_stamped_version() {
    let mut file = artifact(&UNSTAMPED);
    let field = |file: &[u8]| {
        let offset = locate(file, READ_BUFFER_SIZE).unwrap() as usize;
        file[offset..offset + STAMP_BUILD_CAPACITY].to_vec()
    };
    assert_eq!(library_version(&field(&file)), version_name("local"));

    stamp(&mut file, "e2e.1");
    assert_eq!(library_version(&field(&file)), version_name("e2e.1"));

    stamp(&mut file, "2");
    assert_eq!(library_version(&field(&file)), version_name("2"));
}

#[test]
fn a_batch_holding_a_file_without_a_slot_changes_no_file() {
    let names = vec!["binary".to_string(), "unstampable".to_string()];
    let mut run = Run::start("e2e.1".to_string(), names, false).unwrap();
    assert!(matches!(run.action(), Action::Locate { file: 0 }));
    run.advance(Event::Located(locate(&artifact(&UNSTAMPED), READ_BUFFER_SIZE)))
        .unwrap();
    // The first file is planned, and none is written.
    assert!(matches!(run.action(), Action::Locate { file: 1 }));
    let message = run
        .advance(Event::Located(locate(b"no version slot here", READ_BUFFER_SIZE)))
        .unwrap_err();
    assert_eq!(message, "unstampable: no version slot found");
}

#[test]
fn a_batch_plans_every_file_before_it_writes_one() {
    let names = vec!["a".to_string(), "b".to_string()];
    let mut run = Run::start("7".to_string(), names, false).unwrap();
    run.advance(Event::Located(Ok(40))).unwrap();
    run.advance(Event::Located(Ok(50))).unwrap();
    match run.action() {
        Action::Write { file: 0, offset: 40, field } => assert_eq!(field, build_field("7")),
        other => panic!("{other:?}"),
    }
    run.advance(Event::Written(Ok(()))).unwrap();
    match run.action() {
        Action::Report { line } => assert_eq!(line, "a: +7"),
        other => panic!("{other:?}"),
    }
    run.advance(Event::Reported).unwrap();
    assert!(matches!(run.action(), Action::Write { file: 1, offset: 50, .. }));
    run.advance(Event::Written(Ok(()))).unwrap();
    run.advance(Event::Reported).unwrap();
    assert!(matches!(run.action(), Action::Finish));
}

#[test]
fn a_mach_o_file_signed_ad_hoc_is_signed_again() {
    let mut run = Run::start("7".to_string(), vec!["a".to_string()], true).unwrap();
    run.advance(Event::Located(Ok(40))).unwrap();
    assert!(matches!(run.action(), Action::Magic { file: 0 }));
    run.advance(Event::Magic(Ok([0xcf, 0xfa, 0xed, 0xfe]))).unwrap();
    assert!(matches!(run.action(), Action::Signature { file: 0 }));
    run.advance(Event::Signature(Ok((true, b"a\nSignature=adhoc\n".to_vec()))))
        .unwrap();
    run.advance(Event::Written(Ok(()))).unwrap();
    assert!(matches!(run.action(), Action::Sign { file: 0 }));
    let message = run
        .advance(Event::Signed(Ok((false, b"  no identity \n".to_vec()))))
        .unwrap_err();
    assert_eq!(message, "a: codesign failed: no identity");
}

#[test]
fn a_file_that_is_no_mach_o_file_is_not_signed() {
    let mut run = Run::start("7".to_string(), vec!["a".to_string()], true).unwrap();
    run.advance(Event::Located(Ok(40))).unwrap();
    run.advance(Event::Magic(Ok(*b"\x7fELF"))).unwrap();
    run.advance(Event::Written(Ok(()))).unwrap();
    assert!(matches!(run.action(), Action::Report { .. }));
}

#[test]
fn signatures_are_read_line_by_line() {
    assert!(!signed_ad_hoc(false, b"code object is not signed at all").unwrap());
    assert!(signed_ad_hoc(true, b"Signature=adhoc").unwrap());
    assert!(signed_ad_hoc(true, b"x\r\nSignature=adhoc\r\ny").unwrap());
    for stderr in [
        &b""[..],
        b"Signature=adhoc2",
        b"xSignature=adhoc",
        b"Signature=adhoc\r",
        b"Authority=Apple",
    ] {
        assert!(matches!(
            signed_ad_hoc(true, stderr),
            Err(StampError::SignedWithIdentity)
        ));
    }
}

#[test]
fn a_failed_signing_says_what_codesign_said() {
    assert!(sign_ad_hoc(true, b"ignored").is_ok());
    match sign_ad_hoc(false, b"\t bad \xff\n") {
        Err(StampError::CodesignFailed(output)) => assert_eq!(output, "bad \u{fffd}"),
        other => panic!("{other:?}"),
    }
}

#[test]
fn errors_say_what_is_wrong() {
    for (error, text) in [
        (StampError::Usage, USAGE),
        (
            StampError::InvalidBuildName("a b".to_string()),
            "build name \"a b\" is empty or holds a character other than a letter, a digit or one of !#$%&'*+-.^_`|~",
        ),
        (
            StampError::BuildNameTooLong("9".to_string()),
            "build name \"9\" does not fit the 96-byte build name field",
        ),
        (StampError::NoSlot, "no version slot found"),
        (StampError::SeveralSlots(12), "12 version slots found, expected one"),
        (
            StampError::TruncatedSlot,
            "the version slot is cut off by the end of the file",
        ),
        (
            StampError::SignedWithIdentity,
            "already signed with an identity; stamp before signing, or remove the signature first",
        ),
        (
            StampError::CodesignFailed("x".to_string()),
            "codesign failed: x",
        ),
        (StampError::Io("denied".to_string()), "denied"),
    ] {
        assert_eq!(error.message(), text);
        assert_eq!(in_file("lore", &error), format!("lore: {text}"));
    }
}

#[test]
fn an_invalid_build_name_starts_no_batch() {
    assert!(matches!(
        Run::start("a b".to_string(), vec!["a".to_string()], false),
        Err(StampError::InvalidBuildName(_))
    ));
    assert!(matches!(
        Run::start("9".repeat(96), vec!["a".to_string()], false),
        Err(StampError::BuildNameTooLong(_))
    ));
}

#[test]
fn build_names_end_at_the_first_nul() {
    assert_eq!(build_name(&UNSTAMPED), None);
    assert_eq!(build_name(b""), None);
    assert_eq!(build_name(b"12\0three").as_deref(), Some("12"));
    assert_eq!(build_name(b"no nul").as_deref(), Some("no nul"));
    assert_eq!(build_name(b"\xff1\0").as_deref(), Some("\u{fffd}1"));
    assert_eq!(build_name(&build_field("1171")).as_deref(), Some("1171"));
}

#[test]
fn versions_are_the_package_version_and_the_build() {
    assert_eq!(version_name("1171"), "0.1.0+1171");
    assert_eq!(library_version(&UNSTAMPED), "0.1.0+local");
    assert!(!library_version(b"a\0b").contains('\0'));
}
