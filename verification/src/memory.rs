//! The store that holds every node of a running program.
//!
//! A node is reached through a [`NodeRef`]; several nodes (and the symbol
//! table) may hold the same handle, and an update made through one of them
//! is seen through all of them. Nodes are never removed, so a handle that is
//! valid stays valid.

use vstd::prelude::*;
use crate::ast::{Node, NodeRef, node_ok, lemma_node_ok_mono};

verus! {

/// The node store.
pub struct Memory {
    nodes: Vec<Node>,
}

impl View for Memory {
    type V = Seq<Node>;

    closed spec fn view(&self) -> Seq<Node> {
        self.nodes@
    }
}

/// Every node of the store only holds handles into the store, and its
/// closures only name namespaces below `nframes`.
pub open spec fn mem_ok(m: Seq<Node>, nframes: nat) -> bool {
    forall|i: int| 0 <= i < m.len() ==> node_ok(#[trigger] m[i], m.len(), nframes)
}

impl Memory {
    /// An empty store.
    pub fn new() -> (m: Memory)
        ensures
            m@ == Seq::<Node>::empty(),
    {
        Memory { nodes: Vec::new() }
    }

    /// The number of nodes stored.
    pub fn len(&self) -> (n: usize)
        ensures
            n == self@.len(),
    {
        self.nodes.len()
    }

    /// Stores a new node and returns its handle.
    pub fn alloc_rc(&mut self, node: Node) -> (r: NodeRef)
        ensures
            final(self)@ == old(self)@.push(node),
            r.id == old(self)@.len(),
    {
        let id = self.nodes.len();
        self.nodes.push(node);
        NodeRef { id }
    }

    /// The node behind a handle.
    pub fn get(&self, r: NodeRef) -> (n: &Node)
        requires
            r.id < self@.len(),
        ensures
            *n == self@[r.id as int],
    {
        &self.nodes[r.id]
    }

    /// Replaces the node behind a handle; every holder of the handle sees
    /// the new node.
    pub fn set(&mut self, r: NodeRef, node: Node)
        requires
            r.id < old(self)@.len(),
        ensures
            final(self)@ == old(self)@.update(r.id as int, node),
    {
        self.nodes.set(r.id, node);
    }
}

/// Adding a node that only refers to stored nodes keeps the store sound.
pub proof fn lemma_mem_ok_push(m: Seq<Node>, nframes: nat, n: Node)
    requires
        mem_ok(m, nframes),
        node_ok(n, m.len() + 1, nframes),
    ensures
        mem_ok(m.push(n), nframes),
{
    assert forall|i: int| 0 <= i < m.push(n).len() implies node_ok(#[trigger] m.push(n)[i], m.push(n).len(), nframes) by {
        if i < m.len() {
            lemma_node_ok_mono(m[i], m.len(), nframes, m.len() + 1, nframes);
        }
    }
}

/// Replacing a node by one that only refers to stored nodes keeps the store sound.
pub proof fn lemma_mem_ok_update(m: Seq<Node>, nframes: nat, i: int, n: Node)
    requires
        mem_ok(m, nframes),
        0 <= i < m.len(),
        node_ok(n, m.len(), nframes),
    ensures
        mem_ok(m.update(i, n), nframes),
{
    assert forall|j: int| 0 <= j < m.update(i, n).len() implies node_ok(#[trigger] m.update(i, n)[j], m.update(i, n).len(), nframes) by {
    }
}

/// A sound store stays sound when more namespaces exist.
pub proof fn lemma_mem_ok_frames(m: Seq<Node>, nframes: nat, nframes2: nat)
    requires
        mem_ok(m, nframes),
        nframes <= nframes2,
    ensures
        mem_ok(m, nframes2),
{
    assert forall|i: int| 0 <= i < m.len() implies node_ok(#[trigger] m[i], m.len(), nframes2) by {
        lemma_node_ok_mono(m[i], m.len(), nframes, m.len(), nframes2);
    }
}

} // verus!
