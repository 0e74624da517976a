//! What a batch does, in terms of what it is asked and of what comes of its steps.

use vstd::prelude::*;
use vstd::utf8::encode_utf8;

use super::field::{field_of, is_build_name, is_token, is_token_name, opens_mach_o};
use super::run::{answers, is_build_flag, ArgumentText, Event, RunState, Stage};
use super::slot::{
    bytes_of, ends, is_located, is_reported, slot_at, slot_offsets, Reading,
};
use super::{text_in_file, StampError};
use crate::text::{debug_text, decimal_digits, holds_line, trimmed};
use crate::version::{
    before_nul, build_name_of, lossy_text, version_of, PACKAGE_VERSION, STAMP_BUILD_CAPACITY, STAMP_MARKER,
    STAMP_MARKER_LEN,
};

verus! {

/// What is said of an event that is a failure: a step that failed, a file that is signed with an
/// identity, or a `codesign` that did not sign.
pub open spec fn failure_in(event: Event) -> Option<Seq<char>> {
    match event {
        Event::Located(Err(error)) => Some(error.text()),
        Event::Magic(Err(error)) => Some(error.text()),
        Event::Signature(Err(error)) => Some(error.text()),
        Event::Written(Err(error)) => Some(error.text()),
        Event::Signed(Err(error)) => Some(error.text()),
        Event::Signature(Ok(output)) => if output.0 && !holds_line(
            lossy_text(output.1@),
            "Signature=adhoc"@,
        ) {
            Some(
                "already signed with an identity; stamp before signing, or remove the signature first"@,
            )
        } else {
            None
        },
        Event::Signed(Ok(output)) => if output.0 {
            None
        } else {
            Some("codesign failed: "@ + trimmed(lossy_text(output.1@)))
        },
        _ => None,
    }
}

/// Whether an event says that a file is signed ad-hoc.
pub open spec fn tells_ad_hoc(event: Event) -> bool {
    event matches Event::Signature(Ok(output)) && output.0
}

/// The files that were at hand when one of `events` said that a file is signed ad-hoc.
pub open spec fn ad_hoc_files(start: RunState, events: Seq<Event>) -> Seq<int>
    decreases events.len(),
{
    if events.len() == 0 {
        Seq::empty()
    } else {
        let before = ad_hoc_files(start, events.drop_last());
        match start.after_all(events.drop_last()) {
            Some(state) if tells_ad_hoc(events.last()) => before.push(state.file),
            _ => before,
        }
    }
}

/// The files that were at hand when one of `events` said that a file was signed.
pub open spec fn signed_files(start: RunState, events: Seq<Event>) -> Seq<int>
    decreases events.len(),
{
    if events.len() == 0 {
        Seq::empty()
    } else {
        let before = signed_files(start, events.drop_last());
        match start.after_all(events.drop_last()) {
            Some(state) if events.last() is Signed => before.push(state.file),
            _ => before,
        }
    }
}

/// The files that were at hand when one of `events` said that it was reported that a file is stamped.
pub open spec fn reported_files(start: RunState, events: Seq<Event>) -> Seq<int>
    decreases events.len(),
{
    if events.len() == 0 {
        Seq::empty()
    } else {
        let before = reported_files(start, events.drop_last());
        match start.after_all(events.drop_last()) {
            Some(state) if events.last() is Reported => before.push(state.file),
            _ => before,
        }
    }
}

/// Those of the first `count` files whose plan is to sign them again.
pub open spec fn resigned(state: RunState, count: int) -> Seq<int>
    decreases count,
{
    if count <= 0 {
        Seq::empty()
    } else if state.plans[count - 1].resign {
        resigned(state, count - 1).push(count - 1)
    } else {
        resigned(state, count - 1)
    }
}

/// How many more steps a batch takes at most.
pub open spec fn steps_left(state: RunState) -> int {
    let count = state.names.len() as int;
    match state.stage {
        Stage::Locate => 3 * (count - state.file) + 3 * count,
        Stage::Magic => 3 * (count - state.file) - 1 + 3 * count,
        Stage::Signature => 3 * (count - state.file) - 2 + 3 * count,
        Stage::Write => 3 * (count - state.file),
        Stage::Sign => 3 * (count - state.file) - 1,
        Stage::Report => 3 * (count - state.file) - 2,
        Stage::Finished => 0,
    }
}

/// A batch ends early just where something fails, and then says what failed, and in which file. What
/// does not fail never ends it.
pub proof fn a_batch_fails_only_where_something_fails(state: RunState, event: Event)
    requires
        state.valid(),
        answers(event, state.stage),
    ensures
        match failure_in(event) {
            Some(text) => state.after(event) == Err::<RunState, Seq<char>>(
                state.names[state.file] + ": "@ + text,
            ),
            None => state.after(event) is Ok,
        },
{
}

/// Each step of a batch follows from what came of the step before it, for the file that is at hand. A
/// file whose field is located is looked at further where files are signed, and its signature is asked
/// for if it is a Mach-O file. One that was written is signed if that is planned, and one that was
/// written, or signed, is reported.
pub proof fn a_batch_takes_each_file_through_its_steps(state: RunState, event: Event)
    requires
        state.valid(),
        answers(event, state.stage),
        failure_in(event) is None,
    ensures
        state.after(event) matches Ok(next) && {
            &&& next.valid()
            &&& next.build == state.build && next.names == state.names && next.macos == state.macos
            &&& (event is Located && state.macos) ==> next.stage == Stage::Magic && next.file
                == state.file && next.plans == state.plans && Event::Located(Ok(next.offset))
                == event
            &&& (event matches Event::Magic(Ok(magic)) && opens_mach_o(magic@)) ==> next.stage
                == Stage::Signature && next.file == state.file && next.plans == state.plans
                && next.offset == state.offset
            &&& next.plans.len() > state.plans.len() <==> (event is Located && !state.macos) || (
            event matches Event::Magic(Ok(magic)) && !opens_mach_o(magic@)) || event is Signature
            &&& next.plans.len() > state.plans.len() ==> {
                &&& next.plans == state.plans.push(next.plans.last())
                &&& next.plans.last().offset == (if event is Located {
                    event->Located_0->Ok_0
                } else {
                    state.offset
                })
                &&& next.plans.last().resign == tells_ad_hoc(event)
                &&& if state.file + 1 < state.names.len() {
                    next.stage == Stage::Locate && next.file == state.file + 1
                } else {
                    next.stage == Stage::Write && next.file == 0
                }
            }
            &&& event is Written ==> next.file == state.file && next.plans == state.plans
                && next.stage == (if state.plans[state.file].resign {
                Stage::Sign
            } else {
                Stage::Report
            })
            &&& event is Signed ==> next.file == state.file && next.plans == state.plans
                && next.stage == Stage::Report
            &&& event is Reported ==> next.file == state.file + 1 && next.plans == state.plans
                && next.stage == (if state.file + 1 < state.names.len() {
                Stage::Write
            } else {
                Stage::Finished
            })
        },
{
}

/// What a batch has done follows from where it is.
proof fn lemma_conduct(
    build: Seq<char>,
    names: Seq<Seq<char>>,
    macos: bool,
    events: Seq<Event>,
)
    requires
        is_build_name(encode_utf8(build)),
        names.len() > 0,
    ensures
        ({
            let start = RunState::start(build, names, macos);
            match start.after_all(events) {
                Some(state) => {
                    &&& state.valid()
                    &&& state.names == names && state.build == build && state.macos == macos
                    &&& events.len() + steps_left(state) <= 6 * names.len()
                    &&& ad_hoc_files(start, events) == resigned(state, state.plans.len() as int)
                    &&& signed_files(start, events) == resigned(
                        state,
                        match state.stage {
                            Stage::Write | Stage::Sign => state.file,
                            Stage::Report => state.file + 1,
                            Stage::Finished => names.len() as int,
                            _ => 0,
                        },
                    )
                    &&& reported_files(start, events) == Seq::new(
                        (match state.stage {
                            Stage::Write | Stage::Sign | Stage::Report => state.file,
                            Stage::Finished => names.len() as int,
                            _ => 0,
                        }) as nat,
                        |i: int| i,
                    )
                    &&& state.stage == Stage::Sign ==> state.plans[state.file].resign
                    &&& state.stage == Stage::Finished ==> state.file == names.len()
                    &&& !macos ==> state.stage != Stage::Magic && state.stage != Stage::Signature
                        && state.stage != Stage::Sign
                    &&& !macos ==> signed_files(start, events).len() == 0
                    &&& !macos ==> forall|i: int|
                        0 <= i < state.plans.len() ==> !(#[trigger] state.plans[i]).resign
                },
                None => true,
            }
        }),
    decreases events.len(),
{
    if events.len() > 0 {
        lemma_conduct(build, names, macos, events.drop_last());
        let start = RunState::start(build, names, macos);
        if let Some(state) = start.after_all(events.drop_last()) {
            let event = events.last();
            if answers(event, state.stage) {
                a_batch_fails_only_where_something_fails(state, event);
                if failure_in(event) is None {
                    a_batch_takes_each_file_through_its_steps(state, event);
                    let next = state.after(event)->Ok_0;
                    lemma_resigned_stays(state, next, state.plans.len() as int);
                    assert(resigned(next, 0) =~= Seq::empty());
                    if next.plans.len() > state.plans.len() {
                        assert(resigned(next, next.plans.len() as int) == (if tells_ad_hoc(event) {
                            resigned(next, state.plans.len() as int).push(
                                state.plans.len() as int,
                            )
                        } else {
                            resigned(next, state.plans.len() as int)
                        }));
                    } else if event is Located || event is Magic {
                        assert(next.plans == state.plans);
                    } else {
                        lemma_resigned_stays(state, next, state.file);
                        lemma_resigned_stays(state, next, state.file + 1);
                    }
                    assert(reported_files(start, events) =~= Seq::new(
                        (match next.stage {
                            Stage::Write | Stage::Sign | Stage::Report => next.file,
                            Stage::Finished => names.len() as int,
                            _ => 0,
                        }) as nat,
                        |i: int| i,
                    ));
                }
            }
        }
    } else {
        let start = RunState::start(build, names, macos);
        assert(resigned(start, 0) =~= Seq::empty());
        assert(reported_files(start, events) =~= Seq::new(0, |i: int| i));
    }
}

/// Which of the first files are signed again depends on their plans alone.
proof fn lemma_resigned_stays(state: RunState, next: RunState, count: int)
    requires
        count <= state.plans.len() <= next.plans.len(),
        forall|i: int| 0 <= i < state.plans.len() ==> next.plans[i] == state.plans[i],
    ensures
        resigned(next, count) == resigned(state, count),
    decreases count,
{
    if count > 0 {
        lemma_resigned_stays(state, next, count - 1);
        assert(next.plans[count - 1] == state.plans[count - 1]);
    }
}

/// A batch whose steps do not fail finishes: it takes at most six steps per file, and as long as it is
/// not finished no step that does not fail stops it. One that finishes has reported every file, each
/// once and in order, and has signed again exactly the files that were told to be signed ad-hoc.
pub proof fn a_batch_that_meets_no_failure_finishes(
    build: Seq<char>,
    names: Seq<Seq<char>>,
    macos: bool,
    events: Seq<Event>,
)
    requires
        is_build_name(encode_utf8(build)),
        names.len() > 0,
    ensures
        ({
            let start = RunState::start(build, names, macos);
            match start.after_all(events) {
                Some(state) => {
                    &&& events.len() <= 6 * names.len()
                    &&& events.len() == 6 * names.len() ==> state.stage == Stage::Finished
                    &&& forall|event: Event| #[trigger]
                        answers(event, state.stage) && failure_in(event) is None
                            ==> start.after_all(events.push(event)) is Some
                    &&& state.stage == Stage::Finished ==> {
                        &&& reported_files(start, events) == Seq::new(names.len(), |i: int| i)
                        &&& signed_files(start, events) == ad_hoc_files(start, events)
                    }
                    &&& !macos ==> signed_files(start, events).len() == 0
                },
                None => true,
            }
        }),
{
    lemma_conduct(build, names, macos, events);
    let start = RunState::start(build, names, macos);
    if let Some(state) = start.after_all(events) {
        assert forall|event: Event| #[trigger]
            answers(event, state.stage) && failure_in(event) is None implies start.after_all(
            events.push(event),
        ) is Some by {
            a_batch_fails_only_where_something_fails(state, event);
            assert(events.push(event).drop_last() =~= events);
        }
    }
}

/// A Mach-O file is told by its first four bytes: the magic of 32 or of 64 bits, smallest byte first,
/// or that of a universal file, largest byte first.
pub proof fn mach_o_files_are_told_by_their_magic(magic: Seq<u8>)
    requires
        magic.len() == 4,
    ensures
        opens_mach_o(magic) <==> (magic[1] == 0xfa && magic[2] == 0xed && magic[3] == 0xfe && (
        magic[0] == 0xce || magic[0] == 0xcf)) || (magic[0] == 0xca && magic[1] == 0xfe && magic[2]
            == 0xba && (magic[3] == 0xbe || magic[3] == 0xbf)),
{
    assert(magic =~= seq![magic[0], magic[1], magic[2], magic[3]]);
}

/// What is said of a failure in a file starts with how the file is shown and ends with what failed.
pub proof fn a_failure_names_its_file(file: Seq<char>, text: Seq<char>)
    ensures
        text_in_file(file, text).take(file.len() as int) == file,
        text_in_file(file, text).skip(file.len() as int) == ": "@ + text,
{
    assert(text_in_file(file, text).take(file.len() as int) =~= file);
    assert(text_in_file(file, text).skip(file.len() as int) =~= ": "@ + text);
}

/// Whether a byte is a letter, a digit or one of the marks that a token may hold.
pub open spec fn is_mark_or_alphanumeric(byte: u8) -> bool {
    ||| 48 <= byte <= 57 || 65 <= byte <= 90 || 97 <= byte <= 122
    ||| byte == 33 || byte == 35 || byte == 36 || byte == 37 || byte == 38 || byte == 39
    ||| byte == 42 || byte == 43 || byte == 45 || byte == 46 || byte == 94 || byte == 95
    ||| byte == 96 || byte == 124 || byte == 126
}

proof fn lemma_token(byte: u8)
    ensures
        is_token(byte) <==> is_mark_or_alphanumeric(byte),
{
    let marks = seq![
        33u8,
        35u8,
        36u8,
        37u8,
        38u8,
        39u8,
        42u8,
        43u8,
        45u8,
        46u8,
        94u8,
        95u8,
        96u8,
        124u8,
        126u8,
    ];
    if is_mark_or_alphanumeric(byte) && !(48 <= byte <= 57 || 65 <= byte <= 90 || 97 <= byte
        <= 122) {
        assert(marks[0] == 33 && marks[1] == 35 && marks[2] == 36 && marks[3] == 37 && marks[4]
            == 38 && marks[5] == 39 && marks[6] == 42 && marks[7] == 43 && marks[8] == 45
            && marks[9] == 46 && marks[10] == 94 && marks[11] == 95 && marks[12] == 96 && marks[13]
            == 124 && marks[14] == 126);
    }
}

/// A build name is a token of at most 95 bytes: letters, digits and the marks of a token, and nothing
/// that ends a text or parts one.
pub proof fn a_build_name_is_a_short_token(name: Seq<u8>)
    ensures
        is_build_name(name) <==> 0 < name.len() <= 95 && is_token_name(name),
        forall|i: int|
            #![trigger name[i]]
            0 <= i < name.len() ==> (is_token(name[i]) <==> is_mark_or_alphanumeric(name[i])),
        is_token_name(name) <==> name.len() > 0 && forall|i: int|
            0 <= i < name.len() ==> is_token(#[trigger] name[i]),
        is_build_name(name) ==> forall|i: int|
            0 <= i < name.len() ==> 33 <= #[trigger] name[i] <= 126 && name[i] != 47 && name[i] != 32
                && name[i] != 34,
{
    assert forall|i: int|
        #![trigger name[i]]
        0 <= i < name.len() implies (is_token(name[i]) <==> is_mark_or_alphanumeric(name[i])) by {
        lemma_token(name[i]);
    }
    if is_build_name(name) {
        assert forall|i: int| 0 <= i < name.len() implies 33 <= #[trigger] name[i] <= 126 && name[i]
            != 47 && name[i] != 32 && name[i] != 34 by {
            assert(is_token(name[i]));
        }
    }
}

/// The field of a build name holds the name, then NULs to its end.
pub proof fn a_field_is_the_name_and_nuls(name: Seq<u8>)
    requires
        name.len() <= 96,
    ensures
        field_of(name).len() == 96,
        field_of(name).take(name.len() as int) == name,
        forall|i: int| name.len() <= i < 96 ==> #[trigger] field_of(name)[i] == 0,
{
    assert(field_of(name).take(name.len() as int) =~= name);
}

/// An artifact whose field holds nothing reports no build name, and one whose field is that of a name
/// reports the package version, a plus sign and the name.
pub proof fn a_stamped_artifact_reports_its_version(name: Seq<char>)
    requires
        is_build_name(encode_utf8(name)),
    ensures
        build_name_of(Seq::new(96, |i: int| 0u8)) is None,
        build_name_of(field_of(encode_utf8(name))) == Some(name),
        version_of(name).len() == PACKAGE_VERSION@.len() + 1 + name.len(),
        version_of(name).take(PACKAGE_VERSION@.len() as int) == PACKAGE_VERSION@,
        version_of(name)[PACKAGE_VERSION@.len() as int] == '+',
        version_of(name).skip(PACKAGE_VERSION@.len() as int + 1) == name,
{
    super::field::stamped_name_reads_back(name);
    assert(version_of(name).take(PACKAGE_VERSION@.len() as int) =~= PACKAGE_VERSION@);
    assert(version_of(name).skip(PACKAGE_VERSION@.len() as int + 1) =~= name);
}

/// What is said of each reason why nothing is stamped.
pub proof fn each_reason_is_told(name: String, count: usize)
    ensures
        StampError::Usage.text() == "usage: lore-stamp --build <name> <file>..."@,
        StampError::InvalidBuildName(name).text() == "build name "@ + debug_text(name@)
            + " is empty or holds a character other than a letter, a digit or one of !#$%&'*+-.^_`|~"@,
        StampError::BuildNameTooLong(name).text() == "build name "@ + debug_text(name@)
            + " does not fit the 96-byte build name field"@,
        StampError::NoSlot.text() == "no version slot found"@,
        StampError::SeveralSlots(count).text() == decimal_digits(count as nat)
            + " version slots found, expected one"@,
        StampError::TruncatedSlot.text() == "the version slot is cut off by the end of the file"@,
        StampError::SignedWithIdentity.text()
            == "already signed with an identity; stamp before signing, or remove the signature first"@,
        StampError::CodesignFailed(name).text() == "codesign failed: "@ + name@,
        StampError::Io(name).text() == name@,
{
}

/// A search goes on until nothing is left to read or a read fails. A read that is interrupted counts for
/// nothing, and what is read counts in order.
pub proof fn an_interrupted_read_counts_for_nothing(
    readings: Seq<Reading>,
    bytes: Seq<u8>,
    text: Seq<char>,
    located: Result<u64, StampError>,
)
    ensures
        bytes_of(readings.push(Reading::Bytes(bytes))) == bytes_of(readings) + bytes,
        bytes_of(readings.push(Reading::Interrupted)) == bytes_of(readings),
        bytes_of(readings.push(Reading::Failed(text))) == bytes_of(readings),
        bytes_of(Seq::empty()).len() == 0,
        ends(Reading::Bytes(bytes)) <==> bytes.len() == 0,
        !ends(Reading::Interrupted),
        ends(Reading::Failed(text)),
        is_reported(readings.push(Reading::Failed(text)), located) <==> (
        located matches Err(StampError::Io(error)) && error@ == text),
        is_reported(readings.push(Reading::Bytes(bytes)), located) <==> is_located(
            bytes_of(readings) + bytes,
            located,
        ),
{
    assert(readings.push(Reading::Bytes(bytes)).drop_last() =~= readings);
    assert(readings.push(Reading::Interrupted).drop_last() =~= readings);
    assert(readings.push(Reading::Failed(text)).drop_last() =~= readings);
}

/// An artifact has a slot wherever it holds the marker, and the field of its only slot is behind the
/// marker. One that has no slot, more than one, or one without room for the field is not stamped.
pub proof fn a_field_stands_behind_the_marker(
    before: Seq<u8>,
    after: Seq<u8>,
    located: Result<u64, StampError>,
    other: int,
)
    requires
        is_located(before + STAMP_MARKER@ + after, located),
    ensures
        ({
            let artifact = before + STAMP_MARKER@ + after;
            &&& slot_at(artifact, before.len() as int)
            &&& located matches Ok(field) ==> field == before.len() + 32 && field + 96
                <= artifact.len()
            &&& located !is Ok ==> !(located matches Err(StampError::NoSlot))
            &&& (slot_at(artifact, other) && other != before.len()) ==> (
            located matches Err(StampError::SeveralSlots(count)) && count > 1)
            &&& (located matches Err(StampError::TruncatedSlot)) ==> after.len() < 96
        }),
{
    let artifact = before + STAMP_MARKER@ + after;
    let slots = slot_offsets(artifact);
    assert(artifact.subrange(before.len() as int, before.len() as int + 32) =~= STAMP_MARKER@);
    assert(slots.contains(before.len() as int));
    if slot_at(artifact, other) && other != before.len() {
        assert(slots.contains(other));
    }
    match located {
        Ok(field) => {
            assert(set![field - 32].contains(before.len() as int));
        },
        Err(StampError::NoSlot) => {
            assert(Set::<int>::empty().contains(before.len() as int));
        },
        Err(StampError::TruncatedSlot) => {
            let slot = choose|slot: int|
                slots == set![slot] && artifact.len() < #[trigger] (slot + STAMP_MARKER_LEN)
                    + STAMP_BUILD_CAPACITY;
            assert(set![slot].contains(before.len() as int));
        },
        _ => {},
    }
}

/// The flag that a build name comes behind is one text alone, and no argument that is not Unicode.
pub proof fn one_flag_comes_before_the_build_name(text: ArgumentText)
    ensures
        is_build_flag(text) <==> (text matches ArgumentText::Unicode(flag) && flag@ == "--build"@),
{
}

/// The build name in a field is what comes before its first NUL, and all of it where it holds none.
pub proof fn a_build_name_ends_at_the_first_nul(name: Seq<u8>, rest: Seq<u8>)
    requires
        forall|i: int| 0 <= i < name.len() ==> #[trigger] name[i] != 0,
    ensures
        before_nul(name) == name,
        before_nul(name + seq![0u8] + rest) == name,
    decreases name.len(),
{
    let field = name + seq![0u8] + rest;
    if name.len() > 0 {
        let tail = name.drop_first();
        a_build_name_ends_at_the_first_nul(tail, rest);
        assert(field.drop_first() =~= tail + seq![0u8] + rest);
        assert(field[0] == name[0]);
        assert(seq![name[0]] + tail =~= name);
    } else {
        assert(field[0] == 0);
        assert(name =~= Seq::empty());
    }
}

/// Each step of a batch is answered by its own kind of event, and a batch that is finished by none.
pub proof fn each_step_of_a_batch_has_its_answer(event: Event)
    ensures
        answers(event, Stage::Locate) <==> event is Located,
        answers(event, Stage::Magic) <==> event is Magic,
        answers(event, Stage::Signature) <==> event is Signature,
        answers(event, Stage::Write) <==> event is Written,
        answers(event, Stage::Sign) <==> event is Signed,
        answers(event, Stage::Report) <==> event is Reported,
        !answers(event, Stage::Finished),
{
}

} // verus!
