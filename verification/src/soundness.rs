//! Run-time tests of the invariant that ties the state to the store, for
//! callers that build states and stores themselves.

use vstd::prelude::*;
use crate::ast::{Node, NodeRef, node_ok, refs_below, frames_below};
use crate::memory::{Memory, mem_ok};
use crate::state::{State, Binding, names_distinct, frames_below_len, str_eq};
use crate::host::env_ok;

verus! {

/// Whether every handle of the sequence points below `nlen`.
pub fn refs_fit(v: &Vec<NodeRef>, nlen: usize) -> (b: bool)
    ensures
        b == refs_below(v@, nlen as nat),
{
    let mut i: usize = 0;
    while i < v.len()
        invariant
            i <= v@.len(),
            forall|j: int| 0 <= j < i ==> (#[trigger] v@[j]).id < nlen,
        decreases v@.len() - i,
    {
        if v[i].id >= nlen {
            return false;
        }
        i = i + 1;
    }
    true
}

/// Whether every namespace index of the sequence lies below `n`.
pub fn indices_fit(v: &Vec<usize>, n: usize) -> (b: bool)
    ensures
        b == frames_below(v@, n as nat),
        b == frames_below_len(v@, n as nat),
{
    let mut i: usize = 0;
    while i < v.len()
        invariant
            i <= v@.len(),
            forall|j: int| 0 <= j < i ==> (#[trigger] v@[j]) < n,
        decreases v@.len() - i,
    {
        if v[i] >= n {
            return false;
        }
        i = i + 1;
    }
    true
}

/// Whether the node only holds handles below `nlen` and namespace indices
/// below `nframes`.
pub fn node_fits(n: &Node, nlen: usize, nframes: usize) -> (b: bool)
    ensures
        b == node_ok(*n, nlen as nat, nframes as nat),
{
    match n {
        Node::AstroList(x) => refs_fit(&x.contents, nlen),
        Node::AstroTuple(x) => refs_fit(&x.contents, nlen),
        Node::AstroToList(x) => x.start.id < nlen && x.stop.id < nlen && x.stride.id < nlen,
        Node::AstroHeadTail(x) => x.head.id < nlen && x.tail.id < nlen,
        Node::AstroRawToList(x) => x.start.id < nlen && x.stop.id < nlen && x.stride.id < nlen,
        Node::AstroRawHeadTail(x) => x.head.id < nlen && x.tail.id < nlen,
        Node::AstroSequence(x) => x.first.id < nlen && x.second.id < nlen,
        Node::AstroFunction(x) => x.body_list.id < nlen,
        Node::AstroFunctionVal(x) => x.body_list.id < nlen && indices_fit(&x.closure.scopes, nframes),
        Node::AstroEval(x) => x.expression.id < nlen,
        Node::AstroQuote(x) => x.expression.id < nlen,
        Node::AstroConstraint(x) => x.expression.id < nlen,
        Node::AstroTypeMatch(x) => x.expression.id < nlen,
        Node::AstroObject(x) => refs_fit(&x.object_memory, nlen),
        Node::AstroApply(x) => x.function.id < nlen && x.argument.id < nlen,
        Node::AstroIndex(x) => x.structure.id < nlen && x.index_exp.id < nlen,
        Node::AstroIs(x) => x.pattern.id < nlen && x.term.id < nlen,
        Node::AstroIn(x) => x.expression.id < nlen && x.expression_list.id < nlen,
        Node::AstroIf(x) => x.cond_exp.id < nlen && x.then_exp.id < nlen && x.else_exp.id < nlen,
        Node::AstroNamedPattern(x) => x.pattern.id < nlen,
        Node::AstroDeref(x) => x.expression.id < nlen,
        Node::AstroStruct(x) => refs_fit(&x.member_names, nlen) && refs_fit(&x.struct_memory, nlen),
        Node::AstroMemberFunctionVal(x) => x.argument.id < nlen && x.body.id < nlen,
        Node::AstroData(x) => x.value.id < nlen,
        Node::AstroUnify(x) => x.term.id < nlen && x.pattern.id < nlen,
        Node::AstroPair(x) => x.first.id < nlen && x.second.id < nlen,
        _ => true,
    }
}

/// Whether every stored node only holds handles into the store and
/// namespace indices below `nframes`.
pub fn store_fits(memory: &Memory, nframes: usize) -> (b: bool)
    ensures
        b == mem_ok(memory@, nframes as nat),
{
    let n = memory.len();
    let mut i: usize = 0;
    while i < n
        invariant
            n == memory@.len(),
            i <= n,
            forall|j: int| 0 <= j < i ==> node_ok(#[trigger] memory@[j], memory@.len(), nframes as nat),
        decreases n - i,
    {
        if !node_fits(memory.get(NodeRef { id: i }), n, nframes) {
            return false;
        }
        i = i + 1;
    }
    true
}

/// Whether no name is bound twice in the namespace.
fn names_unique(b: &Vec<Binding>) -> (r: bool)
    ensures
        r == names_distinct(b@),
{
    let mut j: usize = 0;
    while j < b.len()
        invariant
            j <= b@.len(),
            forall|x: int, y: int| 0 <= x < y < j ==> (#[trigger] b@[x]).name@ != (#[trigger] b@[y]).name@,
        decreases b@.len() - j,
    {
        let mut i: usize = 0;
        while i < j
            invariant
                i <= j,
                j < b@.len(),
                forall|x: int| 0 <= x < i ==> (#[trigger] b@[x]).name@ != b@[j as int].name@,
            decreases j - i,
        {
            if str_eq(b[i].name.as_str(), b[j].name.as_str()) {
                return false;
            }
            i = i + 1;
        }
        j = j + 1;
    }
    true
}

/// Whether every value bound in the namespace is below `nlen`.
fn values_fit(b: &Vec<Binding>, nlen: usize) -> (r: bool)
    ensures
        r == forall|i: int| 0 <= i < b@.len() ==> (#[trigger] b@[i]).value.id < nlen,
{
    let mut i: usize = 0;
    while i < b.len()
        invariant
            i <= b@.len(),
            forall|x: int| 0 <= x < i ==> (#[trigger] b@[x]).value.id < nlen,
        decreases b@.len() - i,
    {
        if b[i].value.id >= nlen {
            return false;
        }
        i = i + 1;
    }
    true
}

/// Whether the state and the store fit each other (see [`env_ok`]): what
/// every function of the interpreter needs of them.
pub fn env_fits<H>(state: &State<H>, memory: &Memory) -> (b: bool)
    ensures
        b == env_ok(*state, memory@),
{
    let nframes = state.frames.len();
    let nlen = memory.len();
    if state.scopes.len() < 1 || !indices_fit(&state.scopes, nframes) {
        return false;
    }
    let mut f: usize = 0;
    while f < nframes
        invariant
            nframes == state.frames@.len(),
            nlen == memory@.len(),
            f <= nframes,
            forall|g: int| 0 <= g < f ==> names_distinct(#[trigger] state.frames@[g].bindings@),
            forall|g: int, i: int| 0 <= g < f && 0 <= i < state.frames@[g].bindings@.len()
                ==> (#[trigger] state.frames@[g].bindings@[i]).value.id < nlen,
        decreases nframes - f,
    {
        if !names_unique(&state.frames[f].bindings) {
            return false;
        }
        if !values_fit(&state.frames[f].bindings, nlen) {
            assert(!state.values_below(nlen as nat));
            return false;
        }
        f = f + 1;
    }
    store_fits(memory, nframes)
}

} // verus!
