//! Listing a directory.

use vstd::prelude::*;

use super::action::{answers, Action, Event, Step};
use super::api::{
    address_opt, address_text, kind_str, kind_text, node_named, parse_node_id, ApiError, ChildInfo,
    NodeIds, NodeKind, Refusal,
};
use super::effective::{Effective, EffectiveStage, EffectiveState};
use crate::text::optional_text;
use crate::types::{Address, ContentHash, RepositoryId};

verus! {

/// What the request waits for.
#[derive(Clone, Copy, Debug, PartialEq, Eq, Structural)]
pub enum BrowseStage {
    Children,
    Address,
    Finished,
    Refused,
}

/// One child, as it is shown.
pub struct EntryState {
    pub node_id: u64,
    pub name: Seq<char>,
    pub kind: Seq<char>,
    pub mode: u16,
    pub size: u64,
    pub address: Option<Seq<char>>,
}

/// One child, as it is shown.
#[derive(Debug)]
pub struct ChildEntry {
    pub node_id: u64,
    pub name: String,
    pub kind: String,
    pub mode: u16,
    pub size: u64,
    pub address: Option<String>,
}

impl View for ChildEntry {
    type V = EntryState;

    open spec fn view(&self) -> EntryState {
        EntryState {
            node_id: self.node_id,
            name: self.name@,
            kind: self.kind@,
            mode: self.mode,
            size: self.size,
            address: optional_text(self.address),
        }
    }
}

/// A child as it is shown with an address.
pub open spec fn shown_child(child: ChildInfo, address: Option<Seq<char>>) -> EntryState {
    EntryState {
        node_id: child.node_id as u64,
        name: child.name@,
        kind: kind_text(child.kind),
        mode: child.mode,
        size: child.size,
        address,
    }
}

/// The state of the request.
pub struct BrowseState {
    pub node: u32,
    /// The repository that the workspace belongs to.
    pub repository: RepositoryId,
    /// The repository that the children belong to.
    pub owner: RepositoryId,
    pub revision: ContentHash,
    pub children: Seq<ChildInfo>,
    /// The child at hand.
    pub next: int,
    pub lookup: EffectiveState,
    pub entries: Seq<EntryState>,
    pub refused: Option<Refusal>,
    pub stage: BrowseStage,
}

impl BrowseState {
    /// What to do next.
    pub open spec fn step(self) -> Step {
        match self.stage {
            BrowseStage::Children => Step::Children { node: self.node },
            BrowseStage::Address => self.lookup.step(),
            BrowseStage::Finished | BrowseStage::Refused => Step::Finish,
        }
    }

    /// The state once the child at hand is shown with the address that was looked up.
    pub open spec fn show(self, address: Option<Address>) -> BrowseState {
        BrowseState {
            entries: self.entries.push(
                shown_child(
                    self.children[self.next],
                    match address {
                        Some(address) => Some(address.text()),
                        None => None,
                    },
                ),
            ),
            next: self.next + 1,
            ..self
        }
    }

    /// The state once the children are gone through from the next one on, up to one whose address has
    /// to be looked up. Children listed through a link belong to another repository: the working
    /// directory says nothing of them, and their addresses are shown as they are.
    pub open spec fn go_on(self) -> BrowseState
        decreases self.children.len() - self.next,
    {
        if self.next < self.children.len() {
            let child = self.children[self.next];
            let lookup = EffectiveState::start(
                child.node_id,
                child.kind,
                child.size,
                child.address,
            );
            if self.owner != self.repository {
                (BrowseState {
                    entries: self.entries.push(
                        shown_child(child, address_text(child.kind, child.address)),
                    ),
                    next: self.next + 1,
                    ..self
                }).go_on()
            } else if lookup.stage == EffectiveStage::Finished {
                self.show(lookup.answer).go_on()
            } else {
                BrowseState { lookup, stage: BrowseStage::Address, ..self }
            }
        } else {
            BrowseState { stage: BrowseStage::Finished, ..self }
        }
    }

    /// The state after `event`.
    pub open spec fn after(self, event: Event) -> BrowseState {
        match (self.stage, event) {
            (BrowseStage::Children, Event::Children(Err(error))) => BrowseState {
                refused: Some(error@),
                stage: BrowseStage::Refused,
                ..self
            },
            (BrowseStage::Children, Event::Children(Ok(listed))) => (BrowseState {
                owner: listed.0,
                revision: listed.1,
                children: listed.2@,
                next: 0,
                ..self
            }).go_on(),
            (BrowseStage::Address, _) => {
                let lookup = self.lookup.after(event);
                let state = BrowseState { lookup, ..self };
                if lookup.stage == EffectiveStage::Finished {
                    state.show(lookup.answer).go_on()
                } else {
                    state
                }
            },
            _ => self,
        }
    }

    /// Whether what is shown so far is the children in order, each with what is known of it, and those
    /// of another repository with the addresses in their records.
    pub open spec fn shows_children(self) -> bool {
        &&& self.entries.len() == self.next
        &&& 0 <= self.next <= self.children.len()
        &&& forall|i: int|
            0 <= i < self.entries.len() ==> #[trigger] self.entries[i] == shown_child(
                self.children[i],
                self.entries[i].address,
            )
        &&& forall|i: int|
            0 <= i < self.entries.len() && self.owner != self.repository ==> (
            #[trigger] self.entries[i]).address == address_text(
                self.children[i].kind,
                self.children[i].address,
            )
    }

    /// Whether the state is one that a request can be in.
    pub open spec fn valid(self) -> bool {
        &&& self.refused is Some <==> self.stage == BrowseStage::Refused
        &&& match self.stage {
            BrowseStage::Children => self.entries.len() == 0,
            BrowseStage::Address => self.shows_children() && self.next < self.children.len()
                && self.owner == self.repository && self.lookup.valid() && self.lookup.stage
                != EffectiveStage::Finished,
            BrowseStage::Finished => self.shows_children() && self.next == self.children.len(),
            BrowseStage::Refused => true,
        }
    }
}

/// Going on through the children keeps what is shown in order.
proof fn lemma_go_on(state: BrowseState)
    requires
        state.shows_children(),
        state.refused is None,
    ensures
        state.go_on().valid(),
        state.go_on().refused is None,
    decreases state.children.len() - state.next,
{
    if state.next < state.children.len() {
        let child = state.children[state.next];
        let lookup = EffectiveState::start(child.node_id, child.kind, child.size, child.address);
        if state.owner != state.repository {
            lemma_go_on(
                BrowseState {
                    entries: state.entries.push(
                        shown_child(child, address_text(child.kind, child.address)),
                    ),
                    next: state.next + 1,
                    ..state
                },
            );
        } else if lookup.stage == EffectiveStage::Finished {
            lemma_go_on(state.show(lookup.answer));
        }
    }
}

/// Each event leads from a state that a request can be in to another: a listing shows every child, in
/// order.
pub proof fn a_listing_shows_every_child(state: BrowseState, event: Event)
    requires
        state.valid(),
        answers(event, state.step()),
    ensures
        state.after(event).valid(),
        state.after(event).stage == BrowseStage::Finished ==> state.after(event).entries.len()
            == state.after(event).children.len(),
{
    match (state.stage, event) {
        (BrowseStage::Children, Event::Children(Ok(listed))) => {
            lemma_go_on(
                BrowseState {
                    owner: listed.0,
                    revision: listed.1,
                    children: listed.2@,
                    next: 0,
                    ..state
                },
            );
        },
        (BrowseStage::Address, _) => {
            let lookup = state.lookup.after(event);
            if lookup.stage == EffectiveStage::Finished {
                lemma_go_on((BrowseState { lookup, ..state }).show(lookup.answer));
            }
        },
        _ => {},
    }
}

/// A request in progress.
pub struct Browse {
    pub node: u32,
    pub repository: RepositoryId,
    pub owner: RepositoryId,
    pub revision: ContentHash,
    pub children: Vec<ChildInfo>,
    pub next: usize,
    pub lookup: Effective,
    pub entries: Vec<ChildEntry>,
    pub refused: Option<ApiError>,
    pub stage: BrowseStage,
}

impl View for Browse {
    type V = BrowseState;

    open spec fn view(&self) -> BrowseState {
        BrowseState {
            node: self.node,
            repository: self.repository,
            owner: self.owner,
            revision: self.revision,
            children: self.children@,
            next: self.next as int,
            lookup: self.lookup@,
            entries: self.entries@.map_values(|entry: ChildEntry| entry@),
            refused: match self.refused {
                Some(error) => Some(error@),
                None => None,
            },
            stage: self.stage,
        }
    }
}

/// What a listing is answered with.
#[derive(Debug)]
pub struct TreeReply {
    pub repository_id: String,
    pub revision: String,
    pub node_id: u64,
    pub children: Vec<ChildEntry>,
}

impl Browse {
    /// Starts a request for the children of a node, those of the root if none is named, of a workspace
    /// of `repository`.
    pub fn start(node_id: Option<u64>, ids: NodeIds, repository: RepositoryId) -> (started: Result<
        Browse,
        ApiError,
    >)
        ensures
            match started {
                Ok(request) => {
                    &&& node_named(
                        match node_id {
                            Some(raw) => raw,
                            None => ids.root as u64,
                        },
                        ids,
                    ) == Ok::<u32, Refusal>(request@.node)
                    &&& request@.repository == repository
                    &&& request@.stage == BrowseStage::Children
                    &&& request@.valid()
                },
                Err(error) => node_named(
                    match node_id {
                        Some(raw) => raw,
                        None => ids.root as u64,
                    },
                    ids,
                ) == Err::<u32, Refusal>(error@),
            },
    {
        let raw: u64 = match node_id {
            Some(raw) => raw,
            None => ids.root as u64,
        };
        let node: u32 = match parse_node_id(raw, ids) {
            Ok(node) => node,
            Err(error) => {
                return Err(error);
            },
        };
        Ok(
            Browse {
                node,
                repository,
                owner: repository,
                revision: ContentHash::default(),
                children: Vec::new(),
                next: 0,
                lookup: Effective::start(node, NodeKind::Directory, 0, Address::default()),
                entries: Vec::new(),
                refused: None,
                stage: BrowseStage::Children,
            },
        )
    }

    /// What to do next.
    pub fn action(&self) -> (action: Action)
        ensures
            action@ == self@.step(),
    {
        match self.stage {
            BrowseStage::Children => Action::Children { node: self.node },
            BrowseStage::Address => self.lookup.action(),
            BrowseStage::Finished | BrowseStage::Refused => Action::Finish,
        }
    }

    /// Shows the child at hand with what is said of its address.
    fn show(&mut self, address: Option<String>)
        requires
            old(self)@.next < old(self)@.children.len(),
        ensures
            final(self)@ == (BrowseState {
                entries: old(self)@.entries.push(
                    shown_child(
                        old(self)@.children[old(self)@.next],
                        optional_text(address),
                    ),
                ),
                next: old(self)@.next + 1,
                ..old(self)@
            }),
    {
        let count: usize = self.children.len();
        assert(self.next < count);
        let child: &ChildInfo = &self.children[self.next];
        let entry = ChildEntry {
            node_id: child.node_id as u64,
            name: child.name.clone(),
            kind: kind_str(child.kind).to_owned(),
            mode: child.mode,
            size: child.size,
            address,
        };
        let ghost before = self@;
        self.entries.push(entry);
        self.next = self.next + 1;
        proof {
            assert(self@.entries =~= before.entries.push(entry@));
        }
    }

    /// Goes through the children, up to one whose address has to be looked up.
    fn go_on(&mut self)
        requires
            old(self)@.next <= old(self)@.children.len(),
        ensures
            final(self)@ == old(self)@.go_on(),
    {
        while self.next < self.children.len()
            invariant
                self@.next <= self@.children.len(),
                self@.go_on() == old(self)@.go_on(),
            decreases self@.children.len() - self@.next,
        {
            let child: &ChildInfo = &self.children[self.next];
            if self.owner != self.repository {
                let address: Option<String> = address_opt(child.kind, child.address);
                self.show(address);
            } else {
                let lookup = Effective::start(
                    child.node_id,
                    child.kind,
                    child.size,
                    child.address,
                );
                match lookup.stage {
                    EffectiveStage::Finished => {
                        let address: Option<String> = match lookup.answer {
                            Some(address) => Some(address.to_text()),
                            None => None,
                        };
                        self.show(address);
                    },
                    _ => {
                        self.lookup = lookup;
                        self.stage = BrowseStage::Address;
                        return ;
                    },
                }
            }
        }
        self.stage = BrowseStage::Finished;
    }

    /// Takes what came of the action.
    pub fn advance(&mut self, event: Event)
        requires
            old(self)@.valid(),
            answers(event, old(self)@.step()),
        ensures
            final(self)@ == old(self)@.after(event),
            final(self)@.valid(),
    {
        proof {
            a_listing_shows_every_child(self@, event);
        }
        match self.stage {
            BrowseStage::Children => match event {
                Event::Children(Ok(listed)) => {
                    self.owner = listed.0;
                    self.revision = listed.1;
                    self.children = listed.2;
                    self.next = 0;
                    self.go_on();
                },
                Event::Children(Err(error)) => {
                    self.refused = Some(error);
                    self.stage = BrowseStage::Refused;
                },
                _ => {},
            },
            BrowseStage::Address => {
                self.lookup.advance(event);
                if let EffectiveStage::Finished = self.lookup.stage {
                    let address: Option<String> = match self.lookup.answer {
                        Some(address) => Some(address.to_text()),
                        None => None,
                    };
                    self.show(address);
                    self.go_on();
                }
            },
            BrowseStage::Finished | BrowseStage::Refused => {},
        }
    }

    /// What the request is answered with, once nothing is left to do.
    pub fn reply(self) -> (reply: Result<TreeReply, ApiError>)
        requires
            self@.valid(),
            self@.step() == Step::Finish,
        ensures
            match reply {
                Ok(reply) => {
                    &&& self@.stage == BrowseStage::Finished
                    &&& reply.repository_id@ == self@.owner.text()
                    &&& reply.revision@ == self@.revision.text()
                    &&& reply.node_id == self@.node
                    &&& reply.children@.map_values(|entry: ChildEntry| entry@) == self@.entries
                },
                Err(error) => self@.stage == BrowseStage::Refused && self@.refused == Some(error@),
            },
    {
        match self.refused {
            Some(error) => Err(error),
            None => Ok(
                TreeReply {
                    repository_id: self.owner.to_text(),
                    revision: self.revision.to_text(),
                    node_id: self.node as u64,
                    children: self.entries,
                },
            ),
        }
    }
}

} // verus!
