//! Structural equality of terms, as the `in` operator compares them.

use vstd::prelude::*;
use crate::ast::{Node, NodeRef, node_ok};
use crate::memory::{Memory, mem_ok};
use crate::host::{Host, CompareOp, Number};

verus! {

/// Whether two terms are equal, looking at most `depth` levels into
/// compound values; `None` where real numbers decide, which the host
/// compares. Numbers, booleans, strings and names compare by value; lists,
/// tuples, pairs and objects compare item by item; other nodes are equal
/// only when they are the same node.
pub open spec fn same_node(m: Seq<Node>, a: NodeRef, b: NodeRef, depth: nat) -> Option<bool>
    decreases depth, 0nat,
{
    if a.id >= m.len() || b.id >= m.len() {
        Some(false)
    } else {
        match (m[a.id as int], m[b.id as int]) {
            (Node::AstroInteger(x), Node::AstroInteger(y)) => Some(x.value == y.value),
            (Node::AstroReal(_), Node::AstroReal(_)) => None,
            (Node::AstroBool(x), Node::AstroBool(y)) => Some(x.value == y.value),
            (Node::AstroString(x), Node::AstroString(y)) => Some(x.value@ == y.value@),
            (Node::AstroID(x), Node::AstroID(y)) => Some(x.name@ == y.name@),
            (Node::AstroNone(_), Node::AstroNone(_)) => Some(true),
            (Node::AstroNil(_), Node::AstroNil(_)) => Some(true),
            (Node::AstroList(x), Node::AstroList(y)) =>
                if depth == 0 { Some(false) } else { same_items(m, x.contents@, y.contents@, (depth - 1) as nat) },
            (Node::AstroTuple(x), Node::AstroTuple(y)) =>
                if depth == 0 { Some(false) } else { same_items(m, x.contents@, y.contents@, (depth - 1) as nat) },
            (Node::AstroObject(x), Node::AstroObject(y)) =>
                if depth == 0 || x.struct_id.name@ != y.struct_id.name@ { Some(false) }
                else { same_items(m, x.object_memory@, y.object_memory@, (depth - 1) as nat) },
            (Node::AstroPair(x), Node::AstroPair(y)) =>
                if depth == 0 { Some(false) } else { same_items(m, seq![x.first, x.second], seq![y.first, y.second], (depth - 1) as nat) },
            _ => Some(a == b),
        }
    }
}

/// Whether two sequences of terms are equal item by item, the first
/// difference deciding.
pub open spec fn same_items(m: Seq<Node>, s: Seq<NodeRef>, t: Seq<NodeRef>, depth: nat) -> Option<bool>
    decreases depth, s.len() + 1,
{
    if s.len() != t.len() {
        Some(false)
    } else if s.len() == 0 {
        Some(true)
    } else {
        match same_node(m, s[0], t[0], depth) {
            Some(true) => same_items(m, s.drop_first(), t.drop_first(), depth),
            other => other,
        }
    }
}

/// Compares two terms (see [`same_node`]).
pub fn node_equal<H: Host>(a: NodeRef, b: NodeRef, memory: &Memory, depth: usize) -> (r: bool)
    requires
        exists|nf: nat| mem_ok(memory@, nf),
    ensures
        same_node(memory@, a, b, depth as nat) matches Some(x) ==> r == x,
    decreases depth, 0nat,
{
    if a.id >= memory.len() || b.id >= memory.len() {
        return false;
    }
    let ghost nf = choose|nf: nat| mem_ok(memory@, nf);
    proof {
        assert(node_ok(memory@[a.id as int], memory@.len(), nf));
        assert(node_ok(memory@[b.id as int], memory@.len(), nf));
    }
    match (memory.get(a), memory.get(b)) {
        (Node::AstroInteger(x), Node::AstroInteger(y)) => x.value == y.value,
        (Node::AstroReal(x), Node::AstroReal(y)) => H::real_compare(CompareOp::Eq, Number::Real(x.bits), Number::Real(y.bits)),
        (Node::AstroBool(x), Node::AstroBool(y)) => x.value == y.value,
        (Node::AstroString(x), Node::AstroString(y)) => crate::state::str_eq(x.value.as_str(), y.value.as_str()),
        (Node::AstroID(x), Node::AstroID(y)) => crate::state::str_eq(x.name.as_str(), y.name.as_str()),
        (Node::AstroNone(_), Node::AstroNone(_)) => true,
        (Node::AstroNil(_), Node::AstroNil(_)) => true,
        (Node::AstroList(x), Node::AstroList(y)) => depth > 0 && items_equal::<H>(&x.contents, &y.contents, memory, depth - 1),
        (Node::AstroTuple(x), Node::AstroTuple(y)) => depth > 0 && items_equal::<H>(&x.contents, &y.contents, memory, depth - 1),
        (Node::AstroObject(x), Node::AstroObject(y)) => depth > 0
            && crate::state::str_eq(x.struct_id.name.as_str(), y.struct_id.name.as_str())
            && items_equal::<H>(&x.object_memory, &y.object_memory, memory, depth - 1),
        (Node::AstroPair(x), Node::AstroPair(y)) => {
            if depth == 0 {
                false
            } else {
                let mut s: Vec<NodeRef> = Vec::new();
                s.push(x.first);
                s.push(x.second);
                let mut t: Vec<NodeRef> = Vec::new();
                t.push(y.first);
                t.push(y.second);
                proof {
                    assert(s@ =~= seq![x.first, x.second]);
                    assert(t@ =~= seq![y.first, y.second]);
                }
                items_equal::<H>(&s, &t, memory, depth - 1)
            }
        },
        _ => a == b,
    }
}

/// Compares two sequences of terms item by item (see [`same_items`]).
pub fn items_equal<H: Host>(s: &Vec<NodeRef>, t: &Vec<NodeRef>, memory: &Memory, depth: usize) -> (r: bool)
    requires
        exists|nf: nat| mem_ok(memory@, nf),
    ensures
        same_items(memory@, s@, t@, depth as nat) matches Some(x) ==> r == x,
    decreases depth, s@.len() + 1,
{
    if s.len() != t.len() {
        return false;
    }
    let mut i: usize = 0;
    assert(s@.skip(0) =~= s@);
    assert(t@.skip(0) =~= t@);
    while i < s.len()
        invariant
            i <= s@.len(),
            s@.len() == t@.len(),
            exists|nf: nat| mem_ok(memory@, nf),
            same_items(memory@, s@, t@, depth as nat) matches Some(x)
                ==> same_items(memory@, s@.skip(i as int), t@.skip(i as int), depth as nat) == Some(x),
        decreases s@.len() - i,
    {
        let ghost ss = s@.skip(i as int);
        let ghost tt = t@.skip(i as int);
        assert(ss[0] == s@[i as int]);
        assert(tt[0] == t@[i as int]);
        assert(ss.drop_first() =~= s@.skip(i + 1));
        assert(tt.drop_first() =~= t@.skip(i + 1));
        if !node_equal::<H>(s[i], t[i], memory, depth) {
            return false;
        }
        i = i + 1;
    }
    assert(s@.skip(i as int).len() == 0);
    true
}

} // verus!
