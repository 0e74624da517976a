//! Stamping a batch: what to do next, from what came of what was done before.
//!
//! Every file is planned before any is written. The steps that touch a file are done outside; each
//! hands its outcome back as an [`Event`].

use vstd::prelude::*;
use vstd::utf8::encode_utf8;

use super::field::{
    build_field, check_build_name, field_of, is_build_name, is_mach_o, is_token_name, opens_mach_o,
    overwritten, stamping_again_replaces, stamping_keeps_the_one_slot,
};
use super::sign::{sign_ad_hoc, signed_ad_hoc};
use super::slot::{a_search_has_one_outcome, is_located};
use super::{in_file, text_in_file, StampError};
use crate::text::{holds_line, same_text, trimmed};
use crate::version::lossy_text;

verus! {

/// The text of an argument: its own if it is Unicode, else a text that stands in for it.
pub enum ArgumentText {
    Unicode(String),
    Lossy(String),
}

/// One argument of the tool: its text, and the file that it names if it is taken for one.
pub struct Argument<P> {
    pub text: ArgumentText,
    pub file: P,
}

/// What the tool is asked to do.
#[derive(Debug)]
pub struct Arguments<P> {
    pub build: String,
    pub files: Vec<P>,
}

/// Whether an argument is the flag that announces the build name.
pub open spec fn is_build_flag(text: ArgumentText) -> bool {
    match text {
        ArgumentText::Unicode(text) => text@ == "--build"@,
        ArgumentText::Lossy(_) => false,
    }
}

/// The build name and the files that `arguments` give: `--build`, a name, and at least one file.
pub fn parse_arguments<P>(arguments: Vec<Argument<P>>) -> (parsed: Result<Arguments<P>, StampError>)
    ensures
        match parsed {
            Ok(parsed) => {
                &&& arguments@.len() >= 3
                &&& is_build_flag(arguments@[0].text)
                &&& arguments@[1].text matches ArgumentText::Unicode(build) && build@
                    == parsed.build@
                &&& parsed.files@ == arguments@.skip(2).map_values(
                    |argument: Argument<P>| argument.file,
                )
            },
            Err(StampError::Usage) => {
                ||| arguments@.len() < 2
                ||| !is_build_flag(arguments@[0].text)
                ||| arguments@.len() == 2 && arguments@[1].text is Unicode
            },
            Err(StampError::InvalidBuildName(name)) => {
                &&& arguments@.len() >= 2
                &&& is_build_flag(arguments@[0].text)
                &&& arguments@[1].text matches ArgumentText::Lossy(text) && text@ == name@
            },
            Err(_) => false,
        },
{
    let mut arguments = arguments;
    let ghost given = arguments@;
    if arguments.len() < 2 {
        return Err(StampError::Usage);
    }
    let flagged: bool = match &arguments[0].text {
        ArgumentText::Unicode(text) => same_text(text.as_str(), "--build"),
        ArgumentText::Lossy(_) => false,
    };
    if !flagged {
        return Err(StampError::Usage);
    }
    let build: String = match &arguments[1].text {
        ArgumentText::Unicode(text) => text.clone(),
        ArgumentText::Lossy(text) => {
            return Err(StampError::InvalidBuildName(text.clone()));
        },
    };
    if arguments.len() == 2 {
        return Err(StampError::Usage);
    }
    let named: Vec<Argument<P>> = arguments.split_off(2);
    proof {
        assert(named@ =~= given.skip(2));
    }
    let mut files: Vec<P> = Vec::new();
    let ghost wanted = given.skip(2).map_values(|argument: Argument<P>| argument.file);
    for argument in iter: named
        invariant
            iter.seq() == given.skip(2),
            wanted == given.skip(2).map_values(|argument: Argument<P>| argument.file),
            files@ == wanted.take(iter.index()),
    {
        files.push(argument.file);
        proof {
            assert(wanted.take(iter.index() + 1) =~= wanted.take(iter.index()).push(argument.file));
        }
    }
    proof {
        assert(wanted.take(wanted.len() as int) =~= wanted);
    }
    Ok(Arguments { build, files })
}

/// How to stamp one file, worked out before any file is written.
#[derive(Clone, Copy, Debug, PartialEq, Eq, Structural)]
pub struct Plan {
    /// Where the build name field starts.
    pub offset: u64,
    /// Whether to sign the file ad-hoc again once it is stamped.
    pub resign: bool,
}

/// What a batch waits for.
#[derive(Clone, Copy, Debug, PartialEq, Eq, Structural)]
pub enum Stage {
    /// The build name field of a file is to be located.
    Locate,
    /// The first bytes of a file are to be read.
    Magic,
    /// The signature of a file is to be described.
    Signature,
    /// The build name field of a file is to be written.
    Write,
    /// A file is to be signed.
    Sign,
    /// It is to be said that a file is stamped.
    Report,
    /// Every file is stamped.
    Finished,
}

/// What to do next.
#[derive(Debug)]
pub enum Action {
    /// Locate the build name field of a file.
    Locate { file: usize },
    /// Read the first four bytes of a file.
    Magic { file: usize },
    /// Ask `codesign` for the signature of a file.
    Signature { file: usize },
    /// Write a build name field over the bytes of a file that start at `offset`.
    Write { file: usize, offset: u64, field: [u8; 96] },
    /// Have `codesign` sign a file ad-hoc.
    Sign { file: usize },
    /// Say `line`.
    Report { line: String },
    /// Nothing: every file is stamped.
    Finish,
}

/// What came of an action.
pub enum Event {
    Located(Result<u64, StampError>),
    Magic(Result<[u8; 4], StampError>),
    Signature(Result<(bool, Vec<u8>), StampError>),
    Written(Result<(), StampError>),
    Signed(Result<(bool, Vec<u8>), StampError>),
    Reported,
}

/// The state of a batch.
pub struct RunState {
    pub build: Seq<char>,
    pub names: Seq<Seq<char>>,
    pub macos: bool,
    pub plans: Seq<Plan>,
    pub file: int,
    pub offset: u64,
    pub stage: Stage,
}

/// Whether `event` is what a batch at `stage` waits for.
pub open spec fn answers(event: Event, stage: Stage) -> bool {
    match event {
        Event::Located(_) => stage == Stage::Locate,
        Event::Magic(_) => stage == Stage::Magic,
        Event::Signature(_) => stage == Stage::Signature,
        Event::Written(_) => stage == Stage::Write,
        Event::Signed(_) => stage == Stage::Sign,
        Event::Reported => stage == Stage::Report,
    }
}

impl RunState {
    /// The state at the start of a batch: no file is planned.
    pub open spec fn start(build: Seq<char>, names: Seq<Seq<char>>, macos: bool) -> RunState {
        RunState {
            build,
            names,
            macos,
            plans: Seq::empty(),
            file: 0,
            offset: 0,
            stage: Stage::Locate,
        }
    }

    /// Whether the state is one that a batch can be in: files are planned in order, and none is
    /// written while one is not planned.
    pub open spec fn valid(self) -> bool {
        &&& is_build_name(encode_utf8(self.build))
        &&& 0 <= self.file
        &&& match self.stage {
            Stage::Locate | Stage::Magic | Stage::Signature => self.file < self.names.len()
                && self.plans.len() == self.file,
            Stage::Write | Stage::Sign | Stage::Report => self.file < self.names.len()
                && self.plans.len() == self.names.len(),
            Stage::Finished => self.plans.len() == self.names.len(),
        }
    }

    /// The state once the file at hand is planned: the next file is to be planned, or all are and
    /// the first is to be written.
    pub open spec fn planned(self, plan: Plan) -> RunState {
        let plans = self.plans.push(plan);
        if self.file + 1 < self.names.len() {
            RunState { plans, file: self.file + 1, stage: Stage::Locate, ..self }
        } else {
            RunState { plans, file: 0, stage: Stage::Write, ..self }
        }
    }

    /// What is said when a step fails on the file at hand.
    pub open spec fn failure(self, text: Seq<char>) -> Seq<char> {
        text_in_file(self.names[self.file], text)
    }

    /// The state after `event`, or what is said of the failure that ends the batch.
    pub open spec fn after(self, event: Event) -> Result<RunState, Seq<char>> {
        match event {
            Event::Located(Err(error)) => Err(self.failure(error.text())),
            Event::Magic(Err(error)) => Err(self.failure(error.text())),
            Event::Signature(Err(error)) => Err(self.failure(error.text())),
            Event::Written(Err(error)) => Err(self.failure(error.text())),
            Event::Signed(Err(error)) => Err(self.failure(error.text())),
            Event::Located(Ok(offset)) => if self.macos {
                Ok(RunState { offset, stage: Stage::Magic, ..self })
            } else {
                Ok(self.planned(Plan { offset, resign: false }))
            },
            Event::Magic(Ok(magic)) => if opens_mach_o(magic@) {
                Ok(RunState { stage: Stage::Signature, ..self })
            } else {
                Ok(self.planned(Plan { offset: self.offset, resign: false }))
            },
            Event::Signature(Ok(output)) => if !output.0 {
                Ok(self.planned(Plan { offset: self.offset, resign: false }))
            } else if holds_line(lossy_text(output.1@), "Signature=adhoc"@) {
                Ok(self.planned(Plan { offset: self.offset, resign: true }))
            } else {
                Err(self.failure(StampError::SignedWithIdentity.text()))
            },
            Event::Written(Ok(())) => Ok(
                RunState {
                    stage: if self.plans[self.file].resign {
                        Stage::Sign
                    } else {
                        Stage::Report
                    },
                    ..self
                },
            ),
            Event::Signed(Ok(output)) => if output.0 {
                Ok(RunState { stage: Stage::Report, ..self })
            } else {
                Err(self.failure("codesign failed: "@ + trimmed(lossy_text(output.1@))))
            },
            Event::Reported => if self.file + 1 < self.names.len() {
                Ok(RunState { file: self.file + 1, stage: Stage::Write, ..self })
            } else {
                Ok(RunState { file: self.file + 1, stage: Stage::Finished, ..self })
            },
        }
    }

    /// The state after each of `events` in turn, unless one of them is not waited for or ends the
    /// batch.
    pub open spec fn after_all(self, events: Seq<Event>) -> Option<RunState>
        decreases events.len(),
    {
        if events.len() == 0 {
            Some(self)
        } else {
            match self.after_all(events.drop_last()) {
                None => None,
                Some(state) => if answers(events.last(), state.stage) {
                    match state.after(events.last()) {
                        Ok(next) => Some(next),
                        Err(_) => None,
                    }
                } else {
                    None
                },
            }
        }
    }
}

/// No file is written before every file of the batch is planned: whatever has happened, a batch that
/// has come to a write, or beyond one, holds a plan for each of its files.
pub proof fn every_file_is_planned_before_one_is_written(
    build: Seq<char>,
    names: Seq<Seq<char>>,
    macos: bool,
    events: Seq<Event>,
)
    requires
        is_build_name(encode_utf8(build)),
        names.len() > 0,
    ensures
        match RunState::start(build, names, macos).after_all(events) {
            Some(state) => state.valid() && state.build == build && state.names == names && (
            state.stage == Stage::Write || state.stage == Stage::Sign || state.stage
                == Stage::Report || state.stage == Stage::Finished ==> state.plans.len()
                == names.len()),
            None => true,
        },
    decreases events.len(),
{
    if events.len() > 0 {
        every_file_is_planned_before_one_is_written(build, names, macos, events.drop_last());
    }
}

/// A write to a file: which file, where in it, and what.
pub struct FieldWrite {
    pub file: int,
    pub offset: u64,
    pub field: Seq<u8>,
}

impl RunState {
    /// The write that the batch asks for at the file at hand.
    pub open spec fn write(self) -> FieldWrite {
        FieldWrite {
            file: self.file,
            offset: self.plans[self.file].offset,
            field: field_of(encode_utf8(self.build)),
        }
    }

    /// Where the fields of files were located while `events` came in turn.
    pub open spec fn located(self, events: Seq<Event>) -> Seq<u64>
        decreases events.len(),
    {
        if events.len() == 0 {
            Seq::empty()
        } else {
            match events.last() {
                Event::Located(Ok(offset)) => self.located(events.drop_last()).push(offset),
                _ => self.located(events.drop_last()),
            }
        }
    }

    /// The writes that were asked for, and done, while `events` came in turn.
    pub open spec fn writes(self, events: Seq<Event>) -> Seq<FieldWrite>
        decreases events.len(),
    {
        if events.len() == 0 {
            Seq::empty()
        } else {
            let before = self.writes(events.drop_last());
            match (self.after_all(events.drop_last()), events.last()) {
                (Some(state), Event::Written(Ok(()))) => before.push(state.write()),
                _ => before,
            }
        }
    }

    /// What the files hold after `events` came in turn, if they held `contents`.
    pub open spec fn held(self, events: Seq<Event>, contents: Seq<Seq<u8>>) -> Seq<Seq<u8>>
        decreases events.len(),
    {
        if events.len() == 0 {
            contents
        } else {
            let before = self.held(events.drop_last(), contents);
            match (self.after_all(events.drop_last()), events.last()) {
                (Some(state), Event::Written(Ok(()))) => {
                    let write = state.write();
                    before.update(
                        write.file,
                        overwritten(before[write.file], write.offset as int, write.field),
                    )
                },
                _ => before,
            }
        }
    }

    /// Whether every field is located where it is in a file that holds what it holds by then.
    pub open spec fn truthful(self, events: Seq<Event>, contents: Seq<Seq<u8>>) -> bool
        decreases events.len(),
    {
        events.len() == 0 || {
            &&& self.truthful(events.drop_last(), contents)
            &&& match (self.after_all(events.drop_last()), events.last()) {
                (Some(state), Event::Located(located)) => is_located(
                    self.held(events.drop_last(), contents)[state.file],
                    located,
                ),
                _ => true,
            }
        }
    }

    /// Whether no file is to be signed again.
    pub open spec fn signs_nothing(self) -> bool {
        forall|i: int| 0 <= i < self.plans.len() ==> !(#[trigger] self.plans[i]).resign
    }

    /// How many files have been written.
    pub open spec fn written(self) -> int {
        match self.stage {
            Stage::Locate | Stage::Magic | Stage::Signature => 0,
            Stage::Write => self.file,
            Stage::Sign | Stage::Report => self.file + 1,
            Stage::Finished => self.names.len() as int,
        }
    }

    /// How many files have been located.
    pub open spec fn searched(self) -> int {
        match self.stage {
            Stage::Locate => self.file,
            Stage::Magic | Stage::Signature => self.file + 1,
            _ => self.names.len() as int,
        }
    }
}

/// A batch that finishes has asked for exactly one write per file, in order: at the offset that was
/// located in the file, of the field that holds the build name. Whatever has happened, no write was
/// asked for before the field of every file was located.
pub proof fn a_batch_writes_each_file_once(
    build: Seq<char>,
    names: Seq<Seq<char>>,
    macos: bool,
    events: Seq<Event>,
)
    requires
        is_build_name(encode_utf8(build)),
        names.len() > 0,
    ensures
        ({
            let start = RunState::start(build, names, macos);
            let located = start.located(events);
            let writes = start.writes(events);
            match start.after_all(events) {
                Some(state) => {
                    &&& state.valid() && state.build == build && state.names == names
                    &&& located.len() == state.searched() && writes.len() == state.written()
                    &&& writes.len() > 0 || state.stage == Stage::Write ==> located.len()
                        == names.len()
                    &&& forall|i: int|
                        0 <= i < state.plans.len() ==> (#[trigger] state.plans[i]).offset
                            == located[i]
                    &&& state.stage == Stage::Magic || state.stage == Stage::Signature
                        ==> state.offset == located[state.file]
                    &&& forall|i: int|
                        0 <= i < writes.len() ==> #[trigger] writes[i] == (FieldWrite {
                            file: i,
                            offset: located[i],
                            field: field_of(encode_utf8(build)),
                        })
                    &&& state.stage == Stage::Finished ==> writes.len() == names.len()
                        && located.len() == names.len()
                },
                None => true,
            }
        }),
    decreases events.len(),
{
    if events.len() > 0 {
        a_batch_writes_each_file_once(build, names, macos, events.drop_last());
        let start = RunState::start(build, names, macos);
        if let Some(state) = start.after_all(events.drop_last()) {
            if answers(events.last(), state.stage) {
                if let Ok(next) = state.after(events.last()) {
                    let located = start.located(events);
                    assert forall|i: int| 0 <= i < next.plans.len() implies (
                    #[trigger] next.plans[i]).offset == located[i] by {
                        if i < state.plans.len() {
                            assert(state.plans[i].offset == start.located(events.drop_last())[i]);
                        }
                    }
                }
            }
        }
    }
}

/// What a batch has done to the files follows from where it is.
proof fn lemma_held(
    build: Seq<char>,
    names: Seq<Seq<char>>,
    macos: bool,
    events: Seq<Event>,
    contents: Seq<Seq<u8>>,
)
    requires
        is_build_name(encode_utf8(build)),
        names.len() > 0,
        contents.len() == names.len(),
        RunState::start(build, names, macos).truthful(events, contents),
    ensures
        ({
            let start = RunState::start(build, names, macos);
            let located = start.located(events);
            let held = start.held(events, contents);
            match start.after_all(events) {
                Some(state) => {
                    &&& held.len() == contents.len()
                    &&& forall|i: int|
                        0 <= i < located.len() ==> is_located(
                            contents[i],
                            Ok(#[trigger] located[i]),
                        )
                    &&& forall|i: int|
                        0 <= i < contents.len() ==> #[trigger] held[i] == (if i
                            < state.written() {
                            overwritten(
                                contents[i],
                                located[i] as int,
                                field_of(encode_utf8(build)),
                            )
                        } else {
                            contents[i]
                        })
                },
                None => true,
            }
        }),
    decreases events.len(),
{
    if events.len() > 0 {
        let start = RunState::start(build, names, macos);
        let before = events.drop_last();
        lemma_held(build, names, macos, before, contents);
        a_batch_writes_each_file_once(build, names, macos, before);
        a_batch_writes_each_file_once(build, names, macos, events);
        if let Some(state) = start.after_all(before) {
            if answers(events.last(), state.stage) {
                if let Ok(next) = state.after(events.last()) {
                    let located = start.located(events);
                    assert forall|i: int| 0 <= i < located.len() implies is_located(
                        contents[i],
                        Ok(#[trigger] located[i]),
                    ) by {
                        if i < start.located(before).len() {
                            assert(located[i] == start.located(before)[i]);
                        } else {
                            assert(start.held(before, contents)[state.file] == contents[i]);
                        }
                    }
                    assert forall|i: int| 0 <= i < contents.len() implies #[trigger] start.held(
                        events,
                        contents,
                    )[i] == (if i < next.written() {
                        overwritten(contents[i], located[i] as int, field_of(encode_utf8(build)))
                    } else {
                        contents[i]
                    }) by {
                        assert(start.held(before, contents)[i] == (if i < state.written() {
                            overwritten(
                                contents[i],
                                start.located(before)[i] as int,
                                field_of(encode_utf8(build)),
                            )
                        } else {
                            contents[i]
                        }));
                    }
                }
            }
        }
    }
}

/// A batch that finishes, on files that are distinct and none of which is to be signed again, has
/// stamped every file: each holds what it held, with the field of the build name in its one slot, and
/// keeps its size.
pub proof fn a_batch_stamps_every_file(
    build: Seq<char>,
    names: Seq<Seq<char>>,
    macos: bool,
    events: Seq<Event>,
    contents: Seq<Seq<u8>>,
)
    requires
        is_build_name(encode_utf8(build)),
        names.len() > 0,
        contents.len() == names.len(),
        RunState::start(build, names, macos).truthful(events, contents),
        RunState::start(build, names, macos).after_all(events) matches Some(state) && state.stage
            == Stage::Finished && state.signs_nothing(),
    ensures
        ({
            let start = RunState::start(build, names, macos);
            let located = start.located(events);
            let held = start.held(events, contents);
            &&& located.len() == contents.len() && held.len() == contents.len()
            &&& forall|i: int|
                0 <= i < contents.len() ==> {
                    &&& is_located(contents[i], Ok(located[i]))
                    &&& #[trigger] held[i] == overwritten(
                        contents[i],
                        located[i] as int,
                        field_of(encode_utf8(build)),
                    )
                    &&& held[i].len() == contents[i].len()
                }
        }),
{
    lemma_held(build, names, macos, events, contents);
    a_batch_writes_each_file_once(build, names, macos, events);
    let start = RunState::start(build, names, macos);
    let located = start.located(events);
    assert forall|i: int| 0 <= i < contents.len() implies is_located(
        contents[i],
        Ok(located[i]),
    ) && #[trigger] start.held(events, contents)[i].len() == contents[i].len() by {
        assert(is_located(contents[i], Ok(located[i])));
    }
}

/// Files that a batch has stamped can be stamped again: the field of each is found where it was, and
/// after a second batch each holds exactly what the second batch alone would have left.
pub proof fn a_batch_can_be_stamped_again(
    first: Seq<char>,
    second: Seq<char>,
    names: Seq<Seq<char>>,
    macos: bool,
    events: Seq<Event>,
    later: Seq<Event>,
    contents: Seq<Seq<u8>>,
)
    requires
        is_build_name(encode_utf8(first)),
        is_build_name(encode_utf8(second)),
        names.len() > 0,
        contents.len() == names.len(),
        RunState::start(first, names, macos).truthful(events, contents),
        RunState::start(first, names, macos).after_all(events) matches Some(state) && state.stage
            == Stage::Finished && state.signs_nothing(),
        RunState::start(second, names, macos).truthful(
            later,
            RunState::start(first, names, macos).held(events, contents),
        ),
        RunState::start(second, names, macos).after_all(later) matches Some(state)
            && state.signs_nothing(),
    ensures
        ({
            let once = RunState::start(first, names, macos).held(events, contents);
            let located = RunState::start(first, names, macos).located(events);
            let again = RunState::start(second, names, macos);
            &&& forall|i: int, found: Result<u64, StampError>|
                0 <= i < contents.len() && #[trigger] is_located(once[i], found) ==> found == Ok::<
                    u64,
                    StampError,
                >(located[i])
            &&& again.after_all(later)->0.stage == Stage::Finished ==> again.located(later)
                == located && forall|i: int|
                0 <= i < contents.len() ==> #[trigger] again.held(later, once)[i] == overwritten(
                    contents[i],
                    located[i] as int,
                    field_of(encode_utf8(second)),
                )
        }),
{
    let start = RunState::start(first, names, macos);
    let once = start.held(events, contents);
    let located = start.located(events);
    let again = RunState::start(second, names, macos);
    let field = field_of(encode_utf8(first));
    a_batch_stamps_every_file(first, names, macos, events, contents);
    assert forall|i: int| 0 <= i < contents.len() implies is_located(
        #[trigger] once[i],
        Ok(located[i]),
    ) by {
        assert(once[i] == overwritten(contents[i], located[i] as int, field));
        stamping_keeps_the_one_slot(contents[i], located[i], encode_utf8(first));
    }
    assert forall|i: int, found: Result<u64, StampError>|
        0 <= i < contents.len() && #[trigger] is_located(once[i], found) implies found == Ok::<
        u64,
        StampError,
    >(located[i]) by {
        a_search_has_one_outcome(once[i], found, Ok(located[i]));
    }
    if again.after_all(later)->0.stage == Stage::Finished {
        a_batch_stamps_every_file(second, names, macos, later, once);
        assert forall|i: int| 0 <= i < contents.len() implies #[trigger] again.held(later, once)[i]
            == overwritten(contents[i], located[i] as int, field_of(encode_utf8(second)))
            && again.located(later)[i] == located[i] by {
            assert(again.held(later, once)[i] == overwritten(
                once[i],
                again.located(later)[i] as int,
                field_of(encode_utf8(second)),
            ));
            assert(is_located(once[i], Ok(again.located(later)[i])));
            assert(once[i] == overwritten(contents[i], located[i] as int, field));
            stamping_again_replaces(
                contents[i],
                located[i],
                encode_utf8(first),
                encode_utf8(second),
            );
        }
        assert forall|i: int| 0 <= i < located.len() implies again.located(later)[i]
            == located[i] by {
            assert(again.held(later, once)[i] == overwritten(
                contents[i],
                located[i] as int,
                field_of(encode_utf8(second)),
            ));
        }
        assert(again.located(later) =~= located);
    }
}

/// A batch in progress.
pub struct Run {
    build: String,
    names: Vec<String>,
    macos: bool,
    plans: Vec<Plan>,
    file: usize,
    offset: u64,
    stage: Stage,
}

impl View for Run {
    type V = RunState;

    closed spec fn view(&self) -> RunState {
        RunState {
            build: self.build@,
            names: self.names@.map_values(|name: String| name@),
            macos: self.macos,
            plans: self.plans@,
            file: self.file as int,
            offset: self.offset,
            stage: self.stage,
        }
    }
}

impl Run {
    /// Starts a batch that stamps `build` into the files shown as `names`, of which there must be at
    /// least one. `macos` is whether the batch runs where files are signed.
    pub fn start(build: String, names: Vec<String>, macos: bool) -> (started: Result<
        Run,
        StampError,
    >)
        requires
            names@.len() > 0,
        ensures
            match started {
                Ok(run) => is_build_name(encode_utf8(build@)) && run@ == RunState::start(
                    build@,
                    names@.map_values(|name: String| name@),
                    macos,
                ) && run@.valid(),
                Err(StampError::InvalidBuildName(name)) => name@ == build@
                    && !is_token_name(encode_utf8(build@)),
                Err(StampError::BuildNameTooLong(name)) => name@ == build@
                    && is_token_name(encode_utf8(build@)) && !is_build_name(
                    encode_utf8(build@),
                ),
                Err(_) => false,
            },
    {
        match check_build_name(build.as_str()) {
            Ok(()) => Ok(
                Run {
                    build,
                    names,
                    macos,
                    plans: Vec::new(),
                    file: 0,
                    offset: 0,
                    stage: Stage::Locate,
                },
            ),
            Err(error) => Err(error),
        }
    }

    /// What to do next.
    pub fn action(&self) -> (action: Action)
        requires
            self@.valid(),
        ensures
            match action {
                Action::Locate { file } => self@.stage == Stage::Locate && file == self@.file,
                Action::Magic { file } => self@.stage == Stage::Magic && file == self@.file,
                Action::Signature { file } => self@.stage == Stage::Signature && file == self@.file,
                Action::Write { file, offset, field } => {
                    &&& self@.stage == Stage::Write
                    &&& file == self@.file
                    &&& offset == self@.plans[self@.file].offset
                    &&& field@ == field_of(encode_utf8(self@.build))
                },
                Action::Sign { file } => self@.stage == Stage::Sign && file == self@.file,
                Action::Report { line } => self@.stage == Stage::Report && line@
                    == self@.names[self@.file] + ": +"@ + self@.build,
                Action::Finish => self@.stage == Stage::Finished,
            },
    {
        match self.stage {
            Stage::Locate => Action::Locate { file: self.file },
            Stage::Magic => Action::Magic { file: self.file },
            Stage::Signature => Action::Signature { file: self.file },
            Stage::Write => Action::Write {
                file: self.file,
                offset: self.plans[self.file].offset,
                field: build_field(self.build.as_str()),
            },
            Stage::Sign => Action::Sign { file: self.file },
            Stage::Report => Action::Report {
                line: self.names[self.file].clone().concat(": +").concat(self.build.as_str()),
            },
            Stage::Finished => Action::Finish,
        }
    }

    /// Takes the plan for the file at hand.
    fn plan(&mut self, plan: Plan)
        requires
            old(self)@.valid(),
            old(self)@.stage == Stage::Locate || old(self)@.stage == Stage::Magic
                || old(self)@.stage == Stage::Signature,
        ensures
            final(self)@ == old(self)@.planned(plan),
            final(self)@.valid(),
    {
        self.plans.push(plan);
        if self.names.len() - self.file > 1 {
            self.file = self.file + 1;
            self.stage = Stage::Locate;
        } else {
            self.file = 0;
            self.stage = Stage::Write;
        }
    }

    /// Takes what came of the action, which must be what the batch waits for. A failure ends the
    /// batch: what is to be said of it comes back.
    pub fn advance(&mut self, event: Event) -> (advanced: Result<(), String>)
        requires
            old(self)@.valid(),
            answers(event, old(self)@.stage),
        ensures
            match advanced {
                Ok(()) => old(self)@.after(event) == Ok::<RunState, Seq<char>>(final(self)@)
                    && final(self)@.valid(),
                Err(message) => old(self)@.after(event) == Err::<RunState, Seq<char>>(message@)
                    && final(self)@ == old(self)@,
            },
    {
        match event {
            Event::Located(located) => match located {
                Ok(offset) => if self.macos {
                    self.offset = offset;
                    self.stage = Stage::Magic;
                } else {
                    self.plan(Plan { offset, resign: false });
                },
                Err(error) => {
                    return Err(in_file(self.names[self.file].as_str(), &error));
                },
            },
            Event::Magic(read) => match read {
                Ok(magic) => if is_mach_o(&magic) {
                    self.stage = Stage::Signature;
                } else {
                    let offset: u64 = self.offset;
                    self.plan(Plan { offset, resign: false });
                },
                Err(error) => {
                    return Err(in_file(self.names[self.file].as_str(), &error));
                },
            },
            Event::Signature(described) => {
                let signed = match described {
                    Ok(output) => signed_ad_hoc(output.0, output.1.as_slice()),
                    Err(error) => Err(error),
                };
                match signed {
                    Ok(resign) => {
                        let offset: u64 = self.offset;
                        self.plan(Plan { offset, resign });
                    },
                    Err(error) => {
                        return Err(in_file(self.names[self.file].as_str(), &error));
                    },
                }
            },
            Event::Written(written) => match written {
                Ok(()) => if self.plans[self.file].resign {
                    self.stage = Stage::Sign;
                } else {
                    self.stage = Stage::Report;
                },
                Err(error) => {
                    return Err(in_file(self.names[self.file].as_str(), &error));
                },
            },
            Event::Signed(signed) => {
                let signed = match signed {
                    Ok(output) => sign_ad_hoc(output.0, output.1.as_slice()),
                    Err(error) => Err(error),
                };
                match signed {
                    Ok(()) => {
                        self.stage = Stage::Report;
                    },
                    Err(error) => {
                        return Err(in_file(self.names[self.file].as_str(), &error));
                    },
                }
            },
            Event::Reported => if self.names.len() - self.file > 1 {
                self.file = self.file + 1;
                self.stage = Stage::Write;
            } else {
                self.file = self.file + 1;
                self.stage = Stage::Finished;
            },
        }
        Ok(())
    }
}

} // verus!
