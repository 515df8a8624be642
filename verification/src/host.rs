//! What the interpreter needs from its host: the compiled functions of the
//! program, and floating-point arithmetic, which this library does not model.

use vstd::prelude::*;
use crate::ast::{Node, NodeRef};
use crate::memory::{Memory, mem_ok};
use crate::state::State;

verus! {

/// The state and the store fit each other: the symbol table is well formed,
/// every bound value and every handle held by a node is a stored node, and
/// every closure names existing namespaces.
pub open spec fn env_ok<H>(s: State<H>, m: Seq<Node>) -> bool {
    &&& s.wf()
    &&& s.values_below(m.len())
    &&& mem_ok(m, s.frames@.len())
}

/// Nothing was removed: the store and the namespaces only grew.
pub open spec fn grows<H>(s0: State<H>, m0: Seq<Node>, s1: State<H>, m1: Seq<Node>) -> bool {
    &&& m0.len() <= m1.len()
    &&& s0.frames@.len() <= s1.frames@.len()
}

/// The handle in the result, value or exception, is a stored node.
pub open spec fn result_ok(r: Result<NodeRef, NodeRef>, m: Seq<Node>) -> bool {
    match r {
        Ok(v) => v.id < m.len(),
        Err(e) => e.id < m.len(),
    }
}

/// One step of the interpreter: the state and the store still fit each
/// other, nothing was removed, and no evaluation budget was regained.
pub open spec fn steps<H>(s0: State<H>, m0: Seq<Node>, s1: State<H>, m1: Seq<Node>) -> bool {
    &&& env_ok(s1, m1)
    &&& grows(s0, m0, s1, m1)
    &&& s1.fuel <= s0.fuel
}

/// Every handle in the unifiers is a stored node.
pub open spec fn unifiers_ok(u: Seq<(NodeRef, NodeRef)>, nlen: nat) -> bool {
    forall|i: int| 0 <= i < u.len() ==> (#[trigger] u[i]).0.id < nlen && u[i].1.id < nlen
}

/// The handles in the result of matching, unifiers or exception, are stored nodes.
pub open spec fn unify_ok(r: Result<Vec<(NodeRef, NodeRef)>, NodeRef>, m: Seq<Node>) -> bool {
    match r {
        Ok(u) => unifiers_ok(u@, m.len()),
        Err(e) => e.id < m.len(),
    }
}

/// What matching needs: the state fits the store and both nodes are stored.
pub open spec fn unify_pre<H>(s: State<H>, m: Seq<Node>, term: NodeRef, pattern: NodeRef) -> bool {
    &&& env_ok(s, m)
    &&& term.id < m.len()
    &&& pattern.id < m.len()
}

/// What matching guarantees whatever the nodes: one step of the
/// interpreter, handles that are stored nodes, and failure when no budget
/// is left.
pub open spec fn unify_post<H>(s0: State<H>, m0: Seq<Node>, s1: State<H>, m1: Seq<Node>,
    r: Result<Vec<(NodeRef, NodeRef)>, NodeRef>) -> bool {
    &&& steps(s0, m0, s1, m1)
    &&& unify_ok(r, m1)
    &&& (s0.fuel == 0 ==> r is Err)
}

/// What evaluation needs: the state fits the store and the node is stored.
pub open spec fn walk_pre<H>(s: State<H>, m: Seq<Node>, node: NodeRef) -> bool {
    &&& env_ok(s, m)
    &&& node.id < m.len()
}

/// What evaluation guarantees whatever the node: one step of the
/// interpreter, a result that is a stored node, and failure when no budget
/// is left.
pub open spec fn walk_post<H>(s0: State<H>, m0: Seq<Node>, s1: State<H>, m1: Seq<Node>,
    r: Result<NodeRef, NodeRef>) -> bool {
    &&& steps(s0, m0, s1, m1)
    &&& result_ok(r, m1)
    &&& (s0.fuel == 0 ==> r is Err)
}

/// An operand of floating-point arithmetic.
#[derive(Clone, Copy, Debug)]
pub enum Number {
    Int(isize),
    /// The IEEE-754 bit pattern of a real number.
    Real(u64),
}

/// An arithmetic operator.
#[derive(Clone, Copy, PartialEq, Eq, Structural, Debug)]
pub enum ArithOp {
    Add,
    Sub,
    Mul,
    Div,
}

/// A comparison operator.
#[derive(Clone, Copy, PartialEq, Eq, Structural, Debug)]
pub enum CompareOp {
    Eq,
    Ne,
    Lt,
    Le,
    Gt,
    Ge,
}

/// A compiled function of a running program, and the host that runs it.
///
/// A compiled Asteroid program is a set of such functions, kept by name in
/// the state (see [`crate::state::Functions`]); function values and escapes
/// call them. The host also carries out the arithmetic on real numbers, of
/// which nothing is assumed here.
pub trait Host: Sized + Copy {
    /// Runs the compiled function `f` on an argument, with the state and the
    /// store handed over and handed back. A compiled function only adds to
    /// the store and to the namespaces, and leaves the state and the store
    /// fitting each other.
    fn call_function(f: Self, args: NodeRef, state: State<Self>, memory: Memory) -> (out: (State<Self>, Memory, Result<NodeRef, NodeRef>))
        requires
            env_ok(state, memory@),
            args.id < memory@.len(),
        ensures
            env_ok(out.0, out.1@),
            grows(state, memory@, out.0, out.1@),
            result_ok(out.2, out.1@),
    ;

    /// The bit pattern of the real result of `a op b`.
    fn real_arith(op: ArithOp, a: Number, b: Number) -> u64;

    /// Whether `a op b` holds, one of the operands being real.
    fn real_compare(op: CompareOp, a: Number, b: Number) -> bool;

    /// Whether the real number is zero.
    fn real_is_zero(bits: u64) -> bool;

    /// The text of a real number.
    fn real_to_string(bits: u64) -> String;
}

} // verus!
