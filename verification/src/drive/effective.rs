//! The address to show for a node.
//!
//! A staged file node holds a zero hash: hashing content and storing it is a step of a commit, which
//! drive mode never takes. For such a node the content in the working directory is stored for the
//! context of the node, which gives the address, and the address is remembered while the tree is
//! served. Storing the same content again stores nothing new. An empty file keeps the zero hash,
//! which is what empty content has.

use vstd::prelude::*;

use super::action::{answers, Action, Event, Step};
use super::api::{is_dir, is_file, NodeKind};
use super::path::{rel_of, relative};
use crate::types::Address;

verus! {

/// What the lookup waits for.
#[derive(Clone, Copy, Debug, PartialEq, Eq, Structural)]
pub enum EffectiveStage {
    Cached,
    NodePath,
    PutFile,
    Remember,
    Finished,
}

/// The state of the lookup.
pub struct EffectiveState {
    pub node: u32,
    /// The address in the record of the node.
    pub recorded: Address,
    /// The virtual path of the node, once it is known.
    pub path: Seq<char>,
    /// The address to show, as far as it is known.
    pub answer: Option<Address>,
    pub stage: EffectiveStage,
}

/// Whether the record of a node holds no address although the node has content.
pub open spec fn lacks_address(kind: NodeKind, size: u64, address: Address) -> bool {
    kind == NodeKind::File && size > 0 && address.hash.is_zero()
}

impl EffectiveState {
    /// The state at the start: directories have no address, and a record that holds one is taken at
    /// its word.
    pub open spec fn start(
        node: u32,
        kind: NodeKind,
        size: u64,
        recorded: Address,
    ) -> EffectiveState {
        EffectiveState {
            node,
            recorded,
            path: Seq::empty(),
            answer: if kind == NodeKind::Directory {
                None
            } else {
                Some(recorded)
            },
            stage: if lacks_address(kind, size, recorded) {
                EffectiveStage::Cached
            } else {
                EffectiveStage::Finished
            },
        }
    }

    /// What to do next.
    pub open spec fn step(self) -> Step {
        match self.stage {
            EffectiveStage::Cached => Step::Cached { node: self.node },
            EffectiveStage::NodePath => Step::NodePath { node: self.node },
            EffectiveStage::PutFile => Step::PutFile {
                context: self.recorded.context,
                path: relative(self.path),
            },
            EffectiveStage::Remember => match self.answer {
                Some(address) => Step::Remember { node: self.node, address },
                None => Step::Finish,
            },
            EffectiveStage::Finished => Step::Finish,
        }
    }

    /// The state after `event`.
    pub open spec fn after(self, event: Event) -> EffectiveState {
        match (self.stage, event) {
            (EffectiveStage::Cached, Event::Cached(Some(address))) => EffectiveState {
                answer: Some(address),
                stage: EffectiveStage::Finished,
                ..self
            },
            (EffectiveStage::Cached, Event::Cached(None)) => EffectiveState {
                stage: EffectiveStage::NodePath,
                ..self
            },
            (EffectiveStage::NodePath, Event::NodePath(Ok(path))) => EffectiveState {
                path: path@,
                stage: EffectiveStage::PutFile,
                ..self
            },
            (EffectiveStage::PutFile, Event::Stored(Ok(address))) => EffectiveState {
                answer: Some(address),
                stage: EffectiveStage::Remember,
                ..self
            },
            _ => EffectiveState { stage: EffectiveStage::Finished, ..self },
        }
    }

    /// Whether the state is one that a lookup can be in: there is an address to remember when one is
    /// to be remembered.
    pub open spec fn valid(self) -> bool {
        self.stage == EffectiveStage::Remember ==> self.answer is Some
    }

    /// The state after each of `events` in turn, if each is what can come of the step before it.
    pub open spec fn after_all(self, events: Seq<Event>) -> Option<EffectiveState>
        decreases events.len(),
    {
        if events.len() == 0 {
            Some(self)
        } else {
            match self.after_all(events.drop_last()) {
                Some(state) if answers(events.last(), state.step()) => Some(
                    state.after(events.last()),
                ),
                _ => None,
            }
        }
    }
}

/// A directory is shown without an address, and any other node with one: that of its record, unless
/// the record lacks one and the lookup found or stored another.
pub proof fn only_directories_have_no_address(
    node: u32,
    kind: NodeKind,
    size: u64,
    recorded: Address,
    events: Seq<Event>,
)
    ensures
        match EffectiveState::start(node, kind, size, recorded).after_all(events) {
            Some(state) => {
                &&& state.answer is None <==> kind == NodeKind::Directory
                &&& !lacks_address(kind, size, recorded) && kind != NodeKind::Directory
                    ==> state.answer == Some(recorded)
                &&& state.stage != EffectiveStage::Finished ==> lacks_address(kind, size, recorded)
            },
            None => true,
        },
    decreases events.len(),
{
    if events.len() > 0 {
        only_directories_have_no_address(node, kind, size, recorded, events.drop_last());
    }
}

/// A lookup in progress.
pub struct Effective {
    pub node: u32,
    pub recorded: Address,
    pub path: String,
    pub answer: Option<Address>,
    pub stage: EffectiveStage,
}

impl View for Effective {
    type V = EffectiveState;

    open spec fn view(&self) -> EffectiveState {
        EffectiveState {
            node: self.node,
            recorded: self.recorded,
            path: self.path@,
            answer: self.answer,
            stage: self.stage,
        }
    }
}

impl Effective {
    /// Starts the lookup for a node with a given record.
    pub fn start(node: u32, kind: NodeKind, size: u64, recorded: Address) -> (lookup: Effective)
        ensures
            lookup@ == EffectiveState::start(node, kind, size, recorded),
    {
        Effective {
            node,
            recorded,
            path: String::new(),
            answer: if is_dir(kind) {
                None
            } else {
                Some(recorded)
            },
            stage: if is_file(kind) && size > 0 && recorded.hash.is_default() {
                EffectiveStage::Cached
            } else {
                EffectiveStage::Finished
            },
        }
    }

    /// What to do next.
    pub fn action(&self) -> (action: Action)
        ensures
            action@ == self@.step(),
    {
        match self.stage {
            EffectiveStage::Cached => Action::Cached { node: self.node },
            EffectiveStage::NodePath => Action::NodePath { node: self.node },
            EffectiveStage::PutFile => Action::PutFile {
                context: self.recorded.context,
                path: rel_of(self.path.as_str()),
            },
            EffectiveStage::Remember => match self.answer {
                Some(address) => Action::Remember { node: self.node, address },
                None => Action::Finish,
            },
            EffectiveStage::Finished => Action::Finish,
        }
    }

    /// Takes what came of the action.
    pub fn advance(&mut self, event: Event)
        requires
            answers(event, old(self)@.step()),
        ensures
            final(self)@ == old(self)@.after(event),
    {
        match (self.stage, event) {
            (EffectiveStage::Cached, Event::Cached(Some(address))) => {
                self.answer = Some(address);
                self.stage = EffectiveStage::Finished;
            },
            (EffectiveStage::Cached, _) => {
                self.stage = EffectiveStage::NodePath;
            },
            (EffectiveStage::NodePath, Event::NodePath(Ok(path))) => {
                self.path = path;
                self.stage = EffectiveStage::PutFile;
            },
            (EffectiveStage::PutFile, Event::Stored(Ok(address))) => {
                self.answer = Some(address);
                self.stage = EffectiveStage::Remember;
            },
            _ => {
                self.stage = EffectiveStage::Finished;
            },
        }
    }
}

} // verus!
