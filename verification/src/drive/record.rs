//! The full record of a node, as it is shown.

use vstd::prelude::*;

use super::action::{answers, Action, Event, Step};
use super::api::{
    kind_str, kind_text, node_written, parse_node_text, ApiError, NodeIds, NodeInfo, Refusal,
};
use super::effective::{Effective, EffectiveStage, EffectiveState};

verus! {

/// What the lookup of a record waits for.
#[derive(Clone, Copy, Debug, PartialEq, Eq, Structural)]
pub enum RecordStage {
    NodeInfo,
    NodePath,
    Address,
    Finished,
    Refused,
}

/// The state of the lookup of a record.
pub struct RecordState {
    pub node: u32,
    pub info: Option<NodeInfo>,
    pub path: Seq<char>,
    pub lookup: Option<EffectiveState>,
    pub refused: Option<Refusal>,
    pub stage: RecordStage,
}

impl RecordState {
    /// The state at the start.
    pub open spec fn start(node: u32) -> RecordState {
        RecordState {
            node,
            info: None,
            path: Seq::empty(),
            lookup: None,
            refused: None,
            stage: RecordStage::NodeInfo,
        }
    }

    /// What to do next.
    pub open spec fn step(self) -> Step {
        match self.stage {
            RecordStage::NodeInfo => Step::NodeInfo { node: self.node },
            RecordStage::NodePath => Step::NodePath { node: self.node },
            RecordStage::Address => match self.lookup {
                Some(lookup) => lookup.step(),
                None => Step::Finish,
            },
            RecordStage::Finished | RecordStage::Refused => Step::Finish,
        }
    }

    /// The state once the lookup of the address is at `lookup`.
    pub open spec fn looked_up(self, lookup: EffectiveState) -> RecordState {
        RecordState {
            lookup: Some(lookup),
            stage: if lookup.stage == EffectiveStage::Finished {
                RecordStage::Finished
            } else {
                RecordStage::Address
            },
            ..self
        }
    }

    /// The state after `event`.
    pub open spec fn after(self, event: Event) -> RecordState {
        match (self.stage, event) {
            (RecordStage::NodeInfo, Event::NodeInfo(Ok(info))) => RecordState {
                info: Some(info),
                stage: RecordStage::NodePath,
                ..self
            },
            (RecordStage::NodePath, Event::NodePath(Ok(path))) => match self.info {
                Some(info) => (RecordState { path: path@, ..self }).looked_up(
                    EffectiveState::start(self.node, info.kind, info.size, info.address),
                ),
                None => self,
            },
            (RecordStage::NodeInfo, Event::NodeInfo(Err(error))) => RecordState {
                refused: Some(error@),
                stage: RecordStage::Refused,
                ..self
            },
            (RecordStage::NodePath, Event::NodePath(Err(error))) => RecordState {
                refused: Some(error@),
                stage: RecordStage::Refused,
                ..self
            },
            (RecordStage::Address, _) => match self.lookup {
                Some(lookup) => self.looked_up(lookup.after(event)),
                None => self,
            },
            _ => self,
        }
    }

    /// Whether the state is one that a lookup can be in.
    pub open spec fn valid(self) -> bool {
        &&& self.refused is Some <==> self.stage == RecordStage::Refused
        &&& match self.stage {
            RecordStage::NodeInfo | RecordStage::Refused => true,
            RecordStage::NodePath => self.info is Some,
            RecordStage::Address => self.info is Some && (self.lookup matches Some(lookup)
                && lookup.valid() && lookup.stage != EffectiveStage::Finished),
            RecordStage::Finished => self.info is Some && (self.lookup matches Some(lookup)
                && lookup.stage == EffectiveStage::Finished),
        }
    }
}

/// The lookup of a record in progress.
pub struct Record {
    pub node: u32,
    pub info: Option<NodeInfo>,
    pub path: String,
    pub lookup: Option<Effective>,
    pub refused: Option<ApiError>,
    pub stage: RecordStage,
}

impl View for Record {
    type V = RecordState;

    open spec fn view(&self) -> RecordState {
        RecordState {
            node: self.node,
            info: self.info,
            path: self.path@,
            lookup: match self.lookup {
                Some(lookup) => Some(lookup@),
                None => None,
            },
            refused: match self.refused {
                Some(error) => Some(error@),
                None => None,
            },
            stage: self.stage,
        }
    }
}

/// The record of a node, as it is shown.
#[derive(Debug)]
pub struct NodeRecord {
    pub node_id: u64,
    pub parent_id: u64,
    pub name: String,
    pub kind: String,
    pub mode: u16,
    pub size: u64,
    pub address: Option<String>,
    pub path: String,
}

/// Whether a shown record is that of a node with `info`, at `path`, with an address to show.
pub open spec fn shows(
    record: NodeRecord,
    info: NodeInfo,
    path: Seq<char>,
    lookup: EffectiveState,
) -> bool {
    &&& record.node_id == info.node_id
    &&& record.parent_id == info.parent_id
    &&& record.name@ == info.name@
    &&& record.kind@ == kind_text(info.kind)
    &&& record.mode == info.mode
    &&& record.size == info.size
    &&& record.path@ == path
    &&& match record.address {
        Some(text) => lookup.answer matches Some(address) && text@ == address.text(),
        None => lookup.answer is None,
    }
}

impl Record {
    /// Starts the lookup of the record of a node.
    pub fn start(node: u32) -> (record: Record)
        ensures
            record@ == RecordState::start(node),
            record@.valid(),
    {
        Record {
            node,
            info: None,
            path: String::new(),
            lookup: None,
            refused: None,
            stage: RecordStage::NodeInfo,
        }
    }

    /// Starts a request for the record of the node that `text` names.
    pub fn request(text: &str, ids: NodeIds) -> (started: Result<Record, ApiError>)
        ensures
            match started {
                Ok(record) => node_written(text@, ids) == Ok::<u32, Refusal>(record@.node)
                    && record@ == RecordState::start(record@.node) && record@.valid(),
                Err(error) => node_written(text@, ids) == Err::<u32, Refusal>(error@),
            },
    {
        match parse_node_text(text, ids) {
            Ok(node) => Ok(Record::start(node)),
            Err(error) => Err(error),
        }
    }

    /// What to do next.
    pub fn action(&self) -> (action: Action)
        ensures
            action@ == self@.step(),
    {
        match self.stage {
            RecordStage::NodeInfo => Action::NodeInfo { node: self.node },
            RecordStage::NodePath => Action::NodePath { node: self.node },
            RecordStage::Address => match &self.lookup {
                Some(lookup) => lookup.action(),
                None => Action::Finish,
            },
            RecordStage::Finished | RecordStage::Refused => Action::Finish,
        }
    }

    /// Takes where the lookup of the address is.
    fn looked_up(&mut self, lookup: Effective)
        ensures
            final(self)@ == old(self)@.looked_up(lookup@),
    {
        self.stage = match lookup.stage {
            EffectiveStage::Finished => RecordStage::Finished,
            _ => RecordStage::Address,
        };
        self.lookup = Some(lookup);
    }

    /// Takes what came of the action.
    pub fn advance(&mut self, event: Event)
        requires
            old(self)@.valid(),
            answers(event, old(self)@.step()),
        ensures
            final(self)@ == old(self)@.after(event),
            final(self)@.valid(),
    {
        match self.stage {
            RecordStage::NodeInfo => match event {
                Event::NodeInfo(Ok(info)) => {
                    self.info = Some(info);
                    self.stage = RecordStage::NodePath;
                },
                Event::NodeInfo(Err(error)) => {
                    self.refused = Some(error);
                    self.stage = RecordStage::Refused;
                },
                _ => {},
            },
            RecordStage::NodePath => match event {
                Event::NodePath(Ok(path)) => {
                    self.path = path;
                    let started: Option<Effective> = match &self.info {
                        Some(info) => Some(
                            Effective::start(self.node, info.kind, info.size, info.address),
                        ),
                        None => None,
                    };
                    if let Some(lookup) = started {
                        self.looked_up(lookup);
                    }
                },
                Event::NodePath(Err(error)) => {
                    self.refused = Some(error);
                    self.stage = RecordStage::Refused;
                },
                _ => {},
            },
            RecordStage::Address => {
                let taken: Option<Effective> = self.lookup.take();
                if let Some(mut lookup) = taken {
                    lookup.advance(event);
                    self.looked_up(lookup);
                }
            },
            RecordStage::Finished | RecordStage::Refused => {},
        }
    }

    /// The record, or why there is none to show, once nothing is left to do.
    pub fn reply(self) -> (reply: Result<NodeRecord, ApiError>)
        requires
            self@.valid(),
            self@.step() == Step::Finish,
        ensures
            match reply {
                Ok(record) => self@.stage == RecordStage::Finished && shows(
                    record,
                    self@.info->0,
                    self@.path,
                    self@.lookup->0,
                ),
                Err(error) => self@.stage == RecordStage::Refused && self@.refused == Some(error@),
            },
    {
        let Record { node, info, path, lookup, refused, stage } = self;
        if let Some(error) = refused {
            return Err(error);
        }
        let info: NodeInfo = info.unwrap();
        let lookup: Effective = lookup.unwrap();
        let address: Option<String> = match lookup.answer {
            Some(address) => Some(address.to_text()),
            None => None,
        };
        Ok(
            NodeRecord {
                node_id: info.node_id as u64,
                parent_id: info.parent_id as u64,
                name: info.name,
                kind: kind_str(info.kind).to_owned(),
                mode: info.mode,
                size: info.size,
                address,
                path,
            },
        )
    }
}

} // verus!
