//! Exceptions, and the allocation of nodes that keeps the state and the
//! store fitting each other.

use vstd::prelude::*;
use crate::ast::{Node, NodeRef, node_ok, AstroApply, AstroID, AstroString, AstroTuple};
use crate::memory::{Memory, lemma_mem_ok_push};
use crate::state::{State, lemma_values_below_mono};
use crate::host::env_ok;

verus! {

/// The kind of the exception at `e`, if `e` is an exception: an application
/// of `Exception` to a pair of strings, the kind and the message.
pub open spec fn exception_parts(m: Seq<Node>, e: NodeRef) -> Option<(Seq<char>, Seq<char>)> {
    if e.id < m.len() {
        match m[e.id as int] {
            Node::AstroApply(a) => {
                if a.function.id < m.len() && a.argument.id < m.len() {
                    match (m[a.function.id as int], m[a.argument.id as int]) {
                        (Node::AstroID(f), Node::AstroTuple(t)) => {
                            if f.name@ == "Exception"@ && t.contents@.len() == 2 && t.contents@[0].id < m.len()
                                && t.contents@[1].id < m.len() {
                                match (m[t.contents@[0].id as int], m[t.contents@[1].id as int]) {
                                    (Node::AstroString(k), Node::AstroString(msg)) => Some((k.value@, msg.value@)),
                                    _ => None,
                                }
                            } else {
                                None
                            }
                        },
                        _ => None,
                    }
                } else {
                    None
                }
            },
            _ => None,
        }
    } else {
        None
    }
}

/// `e` is an exception of the given kind.
pub open spec fn raised(m: Seq<Node>, e: NodeRef, kind: Seq<char>) -> bool {
    exception_parts(m, e) matches Some((k, _)) && k == kind
}

/// Stores a node that only refers to stored nodes.
pub fn store<H>(state: &State<H>, memory: &mut Memory, node: Node) -> (r: NodeRef)
    requires
        env_ok(*state, old(memory)@),
        node_ok(node, old(memory)@.len(), state.frames@.len()),
    ensures
        final(memory)@ == old(memory)@.push(node),
        r.id == old(memory)@.len(),
        env_ok(*state, final(memory)@),
{
    proof {
        crate::ast::lemma_node_ok_mono(node, old(memory)@.len(), state.frames@.len(), old(memory)@.len() + 1, state.frames@.len());
        lemma_mem_ok_push(old(memory)@, state.frames@.len(), node);
        lemma_values_below_mono(*state, old(memory)@.len(), old(memory)@.len() + 1);
    }
    memory.alloc_rc(node)
}

/// Constructs a new standard exception of type `kind` with the message `msg`.
pub fn new_exception<H>(kind: String, msg: String, state: &mut State<H>, memory: &mut Memory) -> (e: NodeRef)
    requires
        env_ok(*old(state), old(memory)@),
    ensures
        *final(state) == *old(state),
        env_ok(*final(state), final(memory)@),
        final(memory)@.len() == old(memory)@.len() + 5,
        final(memory)@.subrange(0, old(memory)@.len() as int) == old(memory)@,
        exception_parts(final(memory)@, e) == Some((kind@, msg@)),
{
    let ghost m0 = memory@;
    let f = store(state, memory, Node::AstroID(AstroID { name: "Exception".to_owned() }));
    proof { reveal_strlit("Exception"); }
    let k = store(state, memory, Node::AstroString(AstroString { value: kind }));
    let m = store(state, memory, Node::AstroString(AstroString { value: msg }));
    let mut contents: Vec<NodeRef> = Vec::new();
    contents.push(k);
    contents.push(m);
    let t = store(state, memory, Node::AstroTuple(AstroTuple { contents }));
    let e = store(state, memory, Node::AstroApply(AstroApply { function: f, argument: t }));
    assert(memory@.subrange(0, m0.len() as int) =~= m0);
    e
}

/// Constructs an exception from string literals.
pub fn raise<H>(kind: &str, msg: &str, state: &mut State<H>, memory: &mut Memory) -> (e: NodeRef)
    requires
        env_ok(*old(state), old(memory)@),
    ensures
        *final(state) == *old(state),
        env_ok(*final(state), final(memory)@),
        final(memory)@.len() == old(memory)@.len() + 5,
        final(memory)@.subrange(0, old(memory)@.len() as int) == old(memory)@,
        exception_parts(final(memory)@, e) == Some((kind@, msg@)),
{
    new_exception(kind.to_owned(), msg.to_owned(), state, memory)
}

/// Spends one step of the evaluation budget, or fails when none is left.
pub fn spend<H>(state: &mut State<H>, memory: &mut Memory) -> (r: Result<(), NodeRef>)
    requires
        env_ok(*old(state), old(memory)@),
    ensures
        env_ok(*final(state), final(memory)@),
        old(memory)@.len() <= final(memory)@.len(),
        final(memory)@.subrange(0, old(memory)@.len() as int) == old(memory)@,
        old(state).fuel == 0 ==> (*final(state) == *old(state) && (r matches Err(e)
            && exception_parts(final(memory)@, e) == Some(("VMError"@, "evaluation budget exhausted"@)))),
        old(state).fuel > 0 ==> (r is Ok && final(memory)@ == old(memory)@
            && *final(state) == (State { fuel: (old(state).fuel - 1) as u64, ..*old(state) })),
{
    if state.fuel == 0 {
        Err(raise("VMError", "evaluation budget exhausted", state, memory))
    } else {
        state.fuel = state.fuel - 1;
        proof {
            assert(memory@.subrange(0, memory@.len() as int) =~= memory@);
        }
        Ok(())
    }
}

/// Joins two texts.
pub fn text2(a: &str, b: &str) -> (s: String)
    ensures
        s@ == a@ + b@,
{
    let mut s = a.to_owned();
    s.append(b);
    s
}

/// Joins three texts.
pub fn text3(a: &str, b: &str, c: &str) -> (s: String)
    ensures
        s@ == a@ + b@ + c@,
{
    let mut s = a.to_owned();
    s.append(b);
    s.append(c);
    s
}

/// Joins four texts.
pub fn text4(a: &str, b: &str, c: &str, d: &str) -> (s: String)
    ensures
        s@ == a@ + b@ + c@ + d@,
{
    let mut s = a.to_owned();
    s.append(b);
    s.append(c);
    s.append(d);
    s
}

/// Joins five texts.
pub fn text5(a: &str, b: &str, c: &str, d: &str, e: &str) -> (s: String)
    ensures
        s@ == a@ + b@ + c@ + d@ + e@,
{
    let mut s = a.to_owned();
    s.append(b);
    s.append(c);
    s.append(d);
    s.append(e);
    s
}

} // verus!
