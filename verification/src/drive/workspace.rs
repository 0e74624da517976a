//! What is served: a tree, the revision it was loaded from, and the addresses that were found for
//! nodes whose record holds none.

use std::collections::HashMap;
use vstd::prelude::*;

use crate::types::{Address, ContentHash};

verus! {

/// What is served.
pub struct Served {
    /// The handle of the tree.
    pub tree: u64,
    /// The revision that the tree was loaded from.
    pub revision: ContentHash,
    /// The addresses of file nodes whose staged record still holds a zero hash, by node. They belong
    /// to the nodes of the served tree.
    pub addresses: Map<u32, Address>,
}

/// What is served, and can be swapped.
pub struct Workspace {
    tree: u64,
    revision: ContentHash,
    addresses: HashMap<u32, Address>,
}

impl View for Workspace {
    type V = Served;

    closed spec fn view(&self) -> Served {
        Served { tree: self.tree, revision: self.revision, addresses: self.addresses@ }
    }
}

impl Workspace {
    /// Serves a tree, with no addresses.
    pub fn new(tree: u64, revision: ContentHash) -> (workspace: Workspace)
        ensures
            workspace@ == (Served { tree, revision, addresses: Map::empty() }),
    {
        Workspace { tree, revision, addresses: HashMap::new() }
    }

    /// The handle of the served tree.
    pub fn tree(&self) -> (tree: u64)
        ensures
            tree == self@.tree,
    {
        self.tree
    }

    /// The served revision.
    pub fn revision(&self) -> (revision: ContentHash)
        ensures
            revision == self@.revision,
    {
        self.revision
    }

    /// Serves another tree. The handle of the one that was served comes back, to be closed. No address
    /// outlives the tree whose nodes it belongs to.
    pub fn swap(&mut self, tree: u64, revision: ContentHash) -> (stale: u64)
        ensures
            stale == old(self)@.tree,
            final(self)@ == (Served { tree, revision, addresses: Map::empty() }),
    {
        let stale: u64 = self.tree;
        self.tree = tree;
        self.revision = revision;
        self.addresses.clear();
        stale
    }

    /// The address that is remembered for a node.
    pub fn cached(&self, node: u32) -> (address: Option<Address>)
        ensures
            address == (if self@.addresses.dom().contains(node) {
                Some(self@.addresses[node])
            } else {
                None
            }),
    {
        broadcast use vstd::std_specs::hash::group_hash_axioms;

        match self.addresses.get(&node) {
            Some(address) => Some(*address),
            None => None,
        }
    }

    /// Remembers the address of a node.
    pub fn remember(&mut self, node: u32, address: Address)
        ensures
            final(self)@ == (Served {
                addresses: old(self)@.addresses.insert(node, address),
                ..old(self)@
            }),
    {
        broadcast use vstd::std_specs::hash::group_hash_axioms;

        self.addresses.insert(node, address);
    }
}

} // verus!
