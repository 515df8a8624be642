//! Evaluation of terms ("walking" the tree).

use vstd::prelude::*;
use crate::ast::{Node, NodeRef, Kind, node_kind, node_ok, refs_below, AstroPair, AstroList, AstroToList,
    AstroHeadTail, AstroSequence, AstroFunctionVal, AstroInteger, AstroNone, AstroBool, AstroObject, AstroID};
use crate::memory::{Memory, mem_ok};
use crate::state::{State, str_eq, names_has, lookup_chain, lemma_lookup_below};
use crate::host::{Host, env_ok, steps, grows, result_ok, walk_pre, walk_post};
use crate::exception::{raise, new_exception, spend, store, raised, exception_parts, text3, text4};
use crate::support::{map2boolean, data_ix_list, data_indices, is_data, nat_to_string, truth, int_text};
use crate::unify::{unify, kind_at, copy_refs, id_at, list_at, tuple_at, unify_rule, primitive_same, Rule, leaf_match};
use crate::index::{read_at_ix, declare_unifiers, inner_globals, read_target, read_cost, items_any, object_member, item_read};
use crate::equality::{same_node, node_equal};
use crate::builtins::{Op, op_of, operator_symbol, builtin_outcome, outcome_holds, bool_at, binary_op, joined, Outcome, int_builtin};

verus! {

/// Kinds of nodes that are values: evaluating them gives them back.
pub open spec fn is_value_kind(k: Kind) -> bool {
    k == Kind::Integer || k == Kind::Real || k == Kind::Bool || k == Kind::String || k == Kind::NoneValue
        || k == Kind::Nil || k == Kind::Object || k == Kind::Foreign || k == Kind::MemberFunctionVal || k == Kind::Deref
}

/// Kinds of nodes that cannot be evaluated.
pub open spec fn is_unwalkable_kind(k: Kind) -> bool {
    k == Kind::FunctionVal || k == Kind::Struct || k == Kind::Data || k == Kind::Unify
}

/// The state after one step of the budget was spent and nothing else.
pub open spec fn spent<H>(s0: State<H>, s1: State<H>) -> bool {
    s1 == (State { fuel: (s0.fuel - 1) as u64, ..s0 })
}

/// Evaluates a term.
pub fn walk<H: Host>(node: NodeRef, state: &mut State<H>, memory: &mut Memory) -> (r: Result<NodeRef, NodeRef>)
    requires
        walk_pre(*old(state), old(memory)@, node),
    ensures
        walk_post(*old(state), old(memory)@, *final(state), final(memory)@, r),
        old(state).fuel > 0 && is_value_kind(kind_at(old(memory)@, node))
            ==> r == Ok::<NodeRef, NodeRef>(node) && final(memory)@ == old(memory)@ && spent(*old(state), *final(state)),
        old(state).fuel > 0 && is_unwalkable_kind(kind_at(old(memory)@, node))
            ==> (r matches Err(e) && raised(final(memory)@, e, "VMError"@)),
        old(state).fuel > 0 ==> (id_at(old(memory)@, node) matches Some(n) ==> (old(state).lookup_spec(n) matches Some(v)
            ==> r == Ok::<NodeRef, NodeRef>(v) && final(memory)@ == old(memory)@ && spent(*old(state), *final(state)))),
        old(state).fuel >= 5 ==> builtin_holds(old(memory)@, final(memory)@, node, r),
        term_value(*old(state), old(memory)@, node, old(state).fuel as nat) matches Some((o, f))
            ==> (outcome_holds(final(memory)@, r, o)
                && *final(state) == (State { fuel: (old(state).fuel - f) as u64, ..*old(state) })
                && old(memory)@.len() <= final(memory)@.len()
                && final(memory)@.subrange(0, old(memory)@.len() as int) == old(memory)@),
        old(state).fuel >= 5 ==> (bound_list_item(*old(state), old(memory)@, node) matches Some(o) ==> (match o {
            Ok(v) => r == Ok::<NodeRef, NodeRef>(v),
            Err(_) => r matches Err(e) && raised(final(memory)@, e, "ValueError"@),
        })),
        operator_call(*old(state), old(memory)@, node) matches Some((op, a, b, f))
            ==> (old(state).fuel > f + 2 ==> operator_result(old(memory)@, final(memory)@, op, a, b, node, r)
                && *final(state) == (State { fuel: (old(state).fuel - 3 - f) as u64, ..*old(state) })
                && old(memory)@.len() <= final(memory)@.len()
                && final(memory)@.subrange(0, old(memory)@.len() as int) == old(memory)@),
        struct_call(*old(state), old(memory)@, node) matches Some((tag, st, args))
            ==> (old(state).fuel > args.len() + 6 ==> construct_result(old(memory)@, final(memory)@, st, tag, args, r)),
        call_target(*old(state), old(memory)@, node) matches Some((fv, av, fa)) ==> (old(state).fuel > fa + 2
            ==> call_post(State { fuel: (old(state).fuel - 3 - fa) as u64, ..*old(state) },
                old(memory)@.push(Node::AstroNone(AstroNone {})), NodeRef { id: old(memory)@.len() as usize },
                fv, av, *final(state), final(memory)@, r)),
        ctor_target(*old(state), old(memory)@, node) matches Some((tag, st, av, fa)) ==> (old(state).fuel > fa + 2
            ==> init_post(State { fuel: (old(state).fuel - 3 - fa) as u64, ..*old(state) }, old(memory)@, tag, st, av,
                *final(state), final(memory)@, r)),
        old(state).fuel > 0 ==> (old(memory)@[node.id as int] matches Node::AstroLineInfo(li)
            ==> (r == Ok::<NodeRef, NodeRef>(node) && final(state).lineinfo.0@ == li.module@ && final(state).lineinfo.1 == li.line_number)),
        old(state).fuel >= 5 ==> (range_bounds(old(memory)@, node) matches Some((a, b, c))
            ==> range_result(final(memory)@, a, b, c, r)),
        old(state).fuel >= 1 ==> (range_terms(*old(state), old(memory)@, node, (old(state).fuel - 1) as nat) matches Some((a, b, c))
            ==> range_result(final(memory)@, a, b, c, r)),
        old(state).fuel > 0 ==> (old(memory)@[node.id as int] matches Node::AstroHeadTail(ht)
            ==> headtail_result(old(memory)@, final(memory)@, ht.head, ht.tail, r)),
        old(state).fuel >= 2 && kind_at(old(memory)@, node) == Kind::Quote && !old(state).ignore_quote
            ==> r == Ok::<NodeRef, NodeRef>(node) && final(memory)@ == old(memory)@
                && *final(state) == (State { fuel: (old(state).fuel - 2) as u64, ..*old(state) }),
        old(state).fuel >= 3 && old(state).ignore_quote ==> (old(memory)@[node.id as int] matches Node::AstroQuote(q)
            ==> (is_value_kind(kind_at(old(memory)@, q.expression)) ==> r == Ok::<NodeRef, NodeRef>(q.expression)
                && final(memory)@ == old(memory)@ && *final(state) == (State { fuel: (old(state).fuel - 3) as u64, ..*old(state) }))),
        old(state).fuel >= 4 ==> (if_parts(old(memory)@, node) matches Some((c, t, e))
            ==> (truth(old(memory)@[c.id as int]) matches Some(b) ==> (is_value_kind(kind_at(old(memory)@, c)) ==> {
                &&& b && is_value_kind(kind_at(old(memory)@, t)) ==> r == Ok::<NodeRef, NodeRef>(t)
                &&& !b && is_value_kind(kind_at(old(memory)@, e)) ==> r == Ok::<NodeRef, NodeRef>(e)
            }))),
        old(state).fuel >= 5 ==> (is_parts(old(memory)@, node) matches Some((p, t)) ==> (is_value_kind(kind_at(old(memory)@, t))
            ==> (id_at(old(memory)@, p) matches Some(n) ==> (n != "_"@ && n != "this"@ && !names_has(inner_globals(*old(state)), n)
            ==> (r matches Ok(v) && bool_at(final(memory)@, v) == Some(true) && final(state).lookup_spec(n) == Some(t)))))),
        list_at(old(memory)@, node) matches Some(items) ==> (old(state).fuel > items.len() + 2 && all_values(old(memory)@, items)
            ==> r == Ok::<NodeRef, NodeRef>(node) && final(memory)@ == old(memory)@
                && *final(state) == (State { fuel: (old(state).fuel - 3 - items.len()) as u64, ..*old(state) })),
        tuple_at(old(memory)@, node) matches Some(items) ==> (old(state).fuel > items.len() + 2 && all_values(old(memory)@, items)
            ==> r == Ok::<NodeRef, NodeRef>(node) && final(memory)@ == old(memory)@
                && *final(state) == (State { fuel: (old(state).fuel - 3 - items.len()) as u64, ..*old(state) })),
    decreases old(state).fuel,
{
    match spend(state, memory) { Err(e) => return Err(e), Ok(()) => {} }
    proof {
        lemma_range_extend(*old(state), old(memory)@, *state, memory@, node, (old(state).fuel - 1) as nat);
        if let Some((o, f)) = term_value(*old(state), old(memory)@, node, old(state).fuel as nat) {
            lemma_term_cost(*old(state), old(memory)@, node, old(state).fuel as nat);
            if old(state).fuel >= 3 {
                lemma_term_extend(*old(state), old(memory)@, *state, memory@, node, (old(state).fuel - 2) as nat);
                lemma_term_cost(*old(state), old(memory)@, node, (old(state).fuel - 2) as nat);
            }
        }
    }
    match node_kind(memory.get(node)) {
        Kind::Integer | Kind::Real | Kind::Bool | Kind::String | Kind::NoneValue | Kind::Nil
        | Kind::Object | Kind::Foreign | Kind::MemberFunctionVal => Ok(node),
        Kind::LineInfo => set_lineinfo(node, state, memory),
        Kind::List => list_exp(node, state, memory),
        Kind::Tuple => tuple_exp(node, state, memory),
        Kind::Function => function_exp(node, state, memory),
        Kind::ToList => to_list_exp(node, state, memory),
        Kind::RawToList => raw_to_list_exp(node, state, memory),
        Kind::HeadTail => head_tail_exp(node, state, memory),
        Kind::RawHeadTail => raw_head_tail_exp(node, state, memory),
        Kind::Sequence => sequence_exp(node, state, memory),
        Kind::Eval => eval_exp(node, state, memory),
        Kind::Quote => quote_exp(node, state, memory),
        Kind::Constraint | Kind::TypeMatch => constraint_exp(node, state, memory),
        Kind::ID => id_exp(node, state, memory),
        Kind::Apply => apply_exp(node, state, memory),
        Kind::Index => index_exp(node, state, memory),
        Kind::Escape => escape_exp(node, state, memory),
        Kind::Is => is_exp(node, state, memory),
        Kind::In => in_exp(node, state, memory),
        Kind::If => if_exp(node, state, memory),
        Kind::NamedPattern => named_pattern_exp(node, state, memory),
        Kind::Deref => deref_exp(node, state, memory),
        Kind::Pair => pair_exp(node, state, memory),
        _ => Err(raise("VMError", "walk: unknown node type", state, memory)),
    }
}

/// Records the module and line being executed.
pub fn set_lineinfo<H: Host>(node: NodeRef, state: &mut State<H>, memory: &mut Memory) -> (r: Result<NodeRef, NodeRef>)
    requires
        walk_pre(*old(state), old(memory)@, node),
    ensures
        steps(*old(state), old(memory)@, *final(state), final(memory)@),
        result_ok(r, final(memory)@),
        old(memory)@[node.id as int] matches Node::AstroLineInfo(li) ==> (r == Ok::<NodeRef, NodeRef>(node)
            && final(memory)@ == old(memory)@
            && final(state).lineinfo.0@ == li.module@ && final(state).lineinfo.1 == li.line_number
            && *final(state) == (State { lineinfo: final(state).lineinfo, ..*old(state) })),
        kind_at(old(memory)@, node) != Kind::LineInfo ==> (*final(state) == *old(state)
            && (r matches Err(e) && raised(final(memory)@, e, "VMError"@))),
{
    let li = match memory.get(node) { Node::AstroLineInfo(x) => Some((x.module.clone(), x.line_number)), _ => None };
    match li {
        Some(li) => {
            state.lineinfo = li;
            Ok(node)
        },
        None => Err(raise("VMError", "set_lineinfo error.", state, memory)),
    }
}

/// The contents of a list or tuple node.
pub open spec fn items_at(m: Seq<Node>, r: NodeRef, tuple: bool) -> Option<Seq<NodeRef>> {
    match m[r.id as int] {
        Node::AstroList(l) => if tuple { None } else { Some(l.contents@) },
        Node::AstroTuple(l) => if tuple { Some(l.contents@) } else { None },
        _ => None,
    }
}

fn read_items(node: NodeRef, memory: &Memory, tuple: bool) -> (r: Option<Vec<NodeRef>>)
    requires
        node.id < memory@.len(),
    ensures
        r is Some <==> items_at(memory@, node, tuple) is Some,
        r matches Some(v) ==> items_at(memory@, node, tuple) == Some(v@),
{
    match memory.get(node) {
        Node::AstroList(x) => if tuple { None } else { Some(copy_refs(&x.contents)) },
        Node::AstroTuple(x) => if tuple { Some(copy_refs(&x.contents)) } else { None },
        _ => None,
    }
}

/// Every item evaluates to itself.
pub open spec fn all_values(m: Seq<Node>, items: Seq<NodeRef>) -> bool {
    forall|i: int| 0 <= i < items.len() ==> is_value_kind(#[trigger] kind_at(m, items[i]))
}

/// Whether two sequences of handles are the same.
fn same_refs(a: &Vec<NodeRef>, b: &Vec<NodeRef>) -> (r: bool)
    ensures
        r <==> a@ == b@,
{
    if a.len() != b.len() {
        return false;
    }
    let mut i: usize = 0;
    while i < a.len()
        invariant
            a@.len() == b@.len(),
            i <= a@.len(),
            forall|j: int| 0 <= j < i ==> a@[j] == b@[j],
        decreases a@.len() - i,
    {
        if a[i] != b[i] {
            return false;
        }
        i = i + 1;
    }
    assert(a@ =~= b@);
    true
}

/// Evaluates the items of a list or tuple in place.
fn items_exp<H: Host>(node: NodeRef, state: &mut State<H>, memory: &mut Memory, tuple: bool) -> (r: Result<NodeRef, NodeRef>)
    requires
        walk_pre(*old(state), old(memory)@, node),
    ensures
        walk_post(*old(state), old(memory)@, *final(state), final(memory)@, r),
        r matches Ok(v) ==> v == node,
        items_at(old(memory)@, node, tuple) matches Some(items) ==> (old(state).fuel > items.len() && all_values(old(memory)@, items)
            ==> r == Ok::<NodeRef, NodeRef>(node) && final(memory)@ == old(memory)@
                && *final(state) == (State { fuel: (old(state).fuel - 1 - items.len()) as u64, ..*old(state) })),
    decreases old(state).fuel,
{
    let ghost items0 = items_at(old(memory)@, node, tuple).unwrap();
    let ghost plain = items_at(old(memory)@, node, tuple) is Some && old(state).fuel > items0.len() && all_values(old(memory)@, items0);
    match spend(state, memory) { Err(e) => return Err(e), Ok(()) => {} }
    let first = match read_items(node, memory, tuple) {
        None => {
            let e = if tuple {
                raise("VMError", "walk: expected tuple in tuple_exp()", state, memory)
            } else {
                raise("VMError", "walk: expected list in list_exp()", state, memory)
            };
            return Err(e);
        },
        Some(v) => v,
    };
    let len = first.len();
    let ghost s0 = *old(state);
    let ghost m0 = old(memory)@;
    let mut i: usize = 0;
    while i < len
        invariant
            s0 == *old(state),
            m0 == old(memory)@,
            node.id < memory@.len(),
            steps(s0, m0, *state, memory@),
            state.fuel < s0.fuel,
            items0 == items_at(m0, node, tuple).unwrap(),
            plain == (items_at(m0, node, tuple) is Some && s0.fuel > items0.len() && all_values(m0, items0)),
            plain ==> items_at(m0, node, tuple) == Some(items0) && items0 == first@ && i <= len && len == items0.len() && memory@ == m0 && all_values(m0, items0)
                && *state == (State { fuel: (s0.fuel - 1 - i) as u64, ..s0 }) && s0.fuel > items0.len(),
        decreases len - i,
    {
        let cur = match read_items(node, memory, tuple) {
            Some(v) => v,
            None => return Err(raise("VMError", "walk: list changed while it was evaluated", state, memory)),
        };
        if i >= cur.len() {
            return Err(raise("VMError", "walk: list changed while it was evaluated", state, memory));
        }
        proof {
            assert(node_ok(memory@[node.id as int], memory@.len(), state.frames@.len()));
        }
        let val = match walk(cur[i], state, memory) {
            Ok(x) => x,
            Err(x) => return Err(x),
        };
        let now = match read_items(node, memory, tuple) {
            Some(v) => v,
            None => return Err(raise("VMError", "walk: list changed while it was evaluated", state, memory)),
        };
        if i >= now.len() {
            return Err(raise("VMError", "walk: list changed while it was evaluated", state, memory));
        }
        if val == cur[i] && same_refs(&now, &cur) {
            i = i + 1;
            continue;
        }
        let mut updated = now;
        updated.set(i, val);
        let new_node = if tuple {
            Node::AstroTuple(crate::ast::AstroTuple { contents: updated })
        } else {
            Node::AstroList(AstroList { contents: updated })
        };
        proof {
            assert(node_ok(memory@[node.id as int], memory@.len(), state.frames@.len()));
            assert(node_ok(new_node, memory@.len(), state.frames@.len()));
            crate::memory::lemma_mem_ok_update(memory@, state.frames@.len(), node.id as int, new_node);
        }
        memory.set(node, new_node);
        i = i + 1;
    }
    Ok(node)
}

/// Evaluates the items of a list in place and gives back the list.
pub fn list_exp<H: Host>(node: NodeRef, state: &mut State<H>, memory: &mut Memory) -> (r: Result<NodeRef, NodeRef>)
    requires
        walk_pre(*old(state), old(memory)@, node),
    ensures
        walk_post(*old(state), old(memory)@, *final(state), final(memory)@, r),
        r matches Ok(v) ==> v == node,
        old(state).fuel > 0 && kind_at(old(memory)@, node) != Kind::List
            ==> (r matches Err(e) && raised(final(memory)@, e, "VMError"@)),
        list_at(old(memory)@, node) matches Some(items) ==> (old(state).fuel > items.len() + 1 && all_values(old(memory)@, items)
            ==> r == Ok::<NodeRef, NodeRef>(node) && final(memory)@ == old(memory)@
                && *final(state) == (State { fuel: (old(state).fuel - 2 - items.len()) as u64, ..*old(state) })),
    decreases old(state).fuel,
{
    match spend(state, memory) { Err(e) => return Err(e), Ok(()) => {} }
    if node_kind(memory.get(node)) != Kind::List {
        return Err(raise("VMError", "walk: expected list in list_exp()", state, memory));
    }
    items_exp(node, state, memory, false)
}

/// Evaluates the items of a tuple in place and gives back the tuple.
pub fn tuple_exp<H: Host>(node: NodeRef, state: &mut State<H>, memory: &mut Memory) -> (r: Result<NodeRef, NodeRef>)
    requires
        walk_pre(*old(state), old(memory)@, node),
    ensures
        walk_post(*old(state), old(memory)@, *final(state), final(memory)@, r),
        r matches Ok(v) ==> v == node,
        old(state).fuel > 0 && kind_at(old(memory)@, node) != Kind::Tuple
            ==> (r matches Err(e) && raised(final(memory)@, e, "VMError"@)),
        tuple_at(old(memory)@, node) matches Some(items) ==> (old(state).fuel > items.len() + 1 && all_values(old(memory)@, items)
            ==> r == Ok::<NodeRef, NodeRef>(node) && final(memory)@ == old(memory)@
                && *final(state) == (State { fuel: (old(state).fuel - 2 - items.len()) as u64, ..*old(state) })),
    decreases old(state).fuel,
{
    match spend(state, memory) { Err(e) => return Err(e), Ok(()) => {} }
    if node_kind(memory.get(node)) != Kind::Tuple {
        return Err(raise("VMError", "walk: expected tuple in tuple_exp()", state, memory));
    }
    items_exp(node, state, memory, true)
}

/// Evaluates both parts of a pair into a new pair.
#[verifier::rlimit(30)]
pub fn pair_exp<H: Host>(node: NodeRef, state: &mut State<H>, memory: &mut Memory) -> (r: Result<NodeRef, NodeRef>)
    requires
        walk_pre(*old(state), old(memory)@, node),
    ensures
        walk_post(*old(state), old(memory)@, *final(state), final(memory)@, r),
        r matches Ok(v) ==> kind_at(final(memory)@, v) == Kind::Pair,
        old(state).fuel > 0 && kind_at(old(memory)@, node) != Kind::Pair
            ==> (r matches Err(e) && raised(final(memory)@, e, "VMError"@)),
        old(state).fuel >= 3 ==> (old(memory)@[node.id as int] matches Node::AstroPair(p)
            ==> (is_value_kind(kind_at(old(memory)@, p.first)) && is_value_kind(kind_at(old(memory)@, p.second))
            ==> (r matches Ok(v) && final(memory)@[v.id as int] matches Node::AstroPair(q) && q.first == p.first && q.second == p.second))),
    decreases old(state).fuel,
{
    match spend(state, memory) { Err(e) => return Err(e), Ok(()) => {} }
    let parts = match memory.get(node) { Node::AstroPair(x) => Some((x.first, x.second)), _ => None };
    let (first, second) = match parts {
        None => return Err(raise("VMError", "walk: expected pair in pair_exp()", state, memory)),
        Some(x) => x,
    };
    proof { assert(node_ok(memory@[node.id as int], memory@.len(), state.frames@.len())); }
    let a = match walk(first, state, memory) {
        Ok(v) => v,
        Err(e) => return Err(e),
    };
    let b = match walk(second, state, memory) {
        Ok(v) => v,
        Err(e) => return Err(e),
    };
    Ok(store(state, memory, Node::AstroPair(AstroPair { first: a, second: b })))
}

/// The integer held by a node.
pub open spec fn int_at(m: Seq<Node>, r: NodeRef) -> Option<int> {
    match m[r.id as int] {
        Node::AstroInteger(x) => Some(x.value as int),
        _ => None,
    }
}

/// The values of the range from `start` up to and including `stop` by
/// `stride`, or `None` where it cannot be built: a zero stride, a distance
/// that does not fit a machine integer, or a negative stride that is not
/// larger than the distance. A negative stride gives at most `start`.
pub open spec fn range_values(start: int, stop: int, stride: int) -> Option<Seq<int>> {
    let diff = if stop > start { stop - start } else { start - stop };
    if stride == 0 || diff > isize::MAX {
        None
    } else if stride > 0 {
        if start <= stop {
            Some(Seq::new(((stop - start) / stride + 1) as nat, |k: int| start + k * stride))
        } else {
            Some(Seq::empty())
        }
    } else if diff >= -stride {
        None
    } else if start <= stop {
        Some(seq![start])
    } else {
        Some(Seq::empty())
    }
}

/// An ascending range with a positive stride holds the integers from
/// `start` up to and including `stop`, `stride` apart: it is never empty,
/// it starts with `start`, and its last item is the largest
/// `start + k * stride` that does not pass `stop`. So `[a to a]` is `[a]`.
pub proof fn law_range_ascending(start: int, stop: int, stride: int)
    requires
        stride > 0,
        start <= stop,
        stop - start <= isize::MAX,
    ensures
        range_values(start, stop, stride) matches Some(v) && {
            &&& v.len() >= 1
            &&& v[0] == start
            &&& forall|i: int| 0 <= i < v.len() ==> #[trigger] v[i] == start + i * stride
            &&& v[v.len() - 1] <= stop
            &&& stop < v[v.len() - 1] + stride
        },
{
    let q = (stop - start) / stride;
    assert(q >= 0 && q * stride <= stop - start && stop - start < q * stride + stride) by (nonlinear_arith)
        requires stride > 0, stop - start >= 0, q == (stop - start) / stride;
    let v = range_values(start, stop, stride).unwrap();
    assert(v.len() == q + 1);
    assert(v[v.len() - 1] == start + q * stride);
}

/// With a positive stride a range whose start lies beyond its stop is
/// empty.
pub proof fn law_range_past_stop(start: int, stop: int, stride: int)
    requires
        stride > 0,
        start > stop,
        start - stop <= isize::MAX,
    ensures
        range_values(start, stop, stride) == Some(Seq::<int>::empty()),
{
}

/// The node is a list of integer nodes holding the given values.
pub open spec fn list_of_ints(m: Seq<Node>, r: NodeRef, vals: Seq<int>) -> bool {
    &&& r.id < m.len()
    &&& m[r.id as int] matches Node::AstroList(l)
    &&& l.contents@.len() == vals.len()
    &&& forall|j: int| 0 <= j < vals.len() ==> (#[trigger] l.contents@[j]).id < m.len()
        && int_at(m, l.contents@[j]) == Some(vals[j])
}

/// The bounds of a range node whose start, stop and stride are integer
/// literals.
pub open spec fn range_bounds(m: Seq<Node>, node: NodeRef) -> Option<(int, int, int)> {
    match m[node.id as int] {
        Node::AstroToList(x) => if x.start.id < m.len() && x.stop.id < m.len() && x.stride.id < m.len() {
            match (int_at(m, x.start), int_at(m, x.stop), int_at(m, x.stride)) {
                (Some(a), Some(b), Some(c)) => Some((a, b, c)),
                _ => None,
            }
        } else {
            None
        },
        _ => None,
    }
}

fn int_value(r: NodeRef, memory: &Memory) -> (v: Option<isize>)
    requires
        r.id < memory@.len(),
    ensures
        v matches Some(x) ==> int_at(memory@, r) == Some(x as int),
        v is None ==> int_at(memory@, r) is None,
{
    match memory.get(r) {
        Node::AstroInteger(x) => Some(x.value),
        _ => None,
    }
}

/// The result of building the range from `a` to `b` by `c`: the list of
/// its values, or a `VMError` where it cannot be built.
pub open spec fn range_result(m: Seq<Node>, a: int, b: int, c: int, r: Result<NodeRef, NodeRef>) -> bool {
    &&& range_values(a, b, c) matches Some(vals) ==> (r matches Ok(v) && list_of_ints(m, v, vals))
    &&& range_values(a, b, c) is None ==> (r matches Err(e) && raised(m, e, "VMError"@))
}

/// The bounds of a raw range node whose start, stop and stride are integer
/// literals.
pub open spec fn raw_range_bounds(m: Seq<Node>, node: NodeRef) -> Option<(int, int, int)> {
    match m[node.id as int] {
        Node::AstroRawToList(x) => if x.start.id < m.len() && x.stop.id < m.len() && x.stride.id < m.len() {
            match (int_at(m, x.start), int_at(m, x.stop), int_at(m, x.stride)) {
                (Some(a), Some(b), Some(c)) => Some((a, b, c)),
                _ => None,
            }
        } else {
            None
        },
        _ => None,
    }
}

/// The result of putting `head` in front of the list `tail`: a new list.
pub open spec fn headtail_result(m0: Seq<Node>, m1: Seq<Node>, head: NodeRef, tail: NodeRef, r: Result<NodeRef, NodeRef>) -> bool {
    tail.id < m0.len() ==> (m0[tail.id as int] matches Node::AstroList(t)
        ==> (r matches Ok(v) && v.id < m1.len() && (m1[v.id as int] matches Node::AstroList(l)
            && l.contents@ == seq![head] + t.contents@)))
}

/// Builds the list of integers of a range: `[start to stop step stride]`.
#[verifier::rlimit(60)]
pub fn to_list_exp<H: Host>(node: NodeRef, state: &mut State<H>, memory: &mut Memory) -> (r: Result<NodeRef, NodeRef>)
    requires
        walk_pre(*old(state), old(memory)@, node),
    ensures
        walk_post(*old(state), old(memory)@, *final(state), final(memory)@, r),
        old(state).fuel >= 4 ==> (range_bounds(old(memory)@, node) matches Some((a, b, c))
            ==> range_result(final(memory)@, a, b, c, r)),
        range_terms(*old(state), old(memory)@, node, old(state).fuel as nat) matches Some((a, b, c))
            ==> range_result(final(memory)@, a, b, c, r),
        old(state).fuel > 0 && kind_at(old(memory)@, node) != Kind::ToList
            ==> (r matches Err(e) && raised(final(memory)@, e, "VMError"@)),
        old(state).fuel >= 2 ==> (old(memory)@[node.id as int] matches Node::AstroToList(x)
            ==> (is_value_kind(kind_at(old(memory)@, x.start)) && int_at(old(memory)@, x.start) is None
            ==> (r matches Err(e) && raised(final(memory)@, e, "VMError"@)))),
    decreases old(state).fuel,
{
    match spend(state, memory) { Err(e) => return Err(e), Ok(()) => {} }
    let parts = match memory.get(node) { Node::AstroToList(x) => Some((x.start, x.stop, x.stride)), _ => None };
    let (start, stop, stride) = match parts {
        None => return Err(raise("VMError", "walk: expected to_list in to_list_exp()", state, memory)),
        Some(x) => x,
    };
    proof { assert(node_ok(memory@[node.id as int], memory@.len(), state.frames@.len())); }
    let ghost m0 = memory@;
    let ghost rt = range_terms(*old(state), old(memory)@, node, old(state).fuel as nat);
    let ghost fuel0 = old(state).fuel as nat;
    proof {
        if rt is Some {
            lemma_term_extend(*old(state), old(memory)@, *state, memory@, start, (fuel0 - 1) as nat);
            lemma_term_cost(*old(state), old(memory)@, start, (fuel0 - 1) as nat);
        }
    }
    let a = match walk(start, state, memory) { Ok(v) => v, Err(e) => return Err(e) };
    let ghost m1 = memory@;
    proof {
        if rt is Some {
            let (lo, fa) = int_term(*old(state), old(memory)@, start, (fuel0 - 1) as nat).unwrap();
            lemma_term_extend(*old(state), old(memory)@, *state, memory@, stop, (fuel0 - 1 - fa) as nat);
            lemma_term_cost(*old(state), old(memory)@, stop, (fuel0 - 1 - fa) as nat);
        }
    }
    let a = match int_value(a, memory) {
        Some(v) => v,
        None => return Err(raise("VMError", "walk: expected integer in to_list_exp()", state, memory)),
    };
    let b = match walk(stop, state, memory) { Ok(v) => v, Err(e) => return Err(e) };
    proof {
        if rt is Some {
            let (lo, fa) = int_term(*old(state), old(memory)@, start, (fuel0 - 1) as nat).unwrap();
            let (hi, fb) = int_term(*old(state), old(memory)@, stop, (fuel0 - 1 - fa) as nat).unwrap();
            assert(memory@.subrange(0, old(memory)@.len() as int) == old(memory)@) by {
                assert(memory@.subrange(0, old(memory)@.len() as int) == memory@.subrange(0, m1.len() as int).subrange(0, old(memory)@.len() as int));
            }
            lemma_term_extend(*old(state), old(memory)@, *state, memory@, stride, (fuel0 - 1 - fa - fb) as nat);
        }
    }
    let b = match int_value(b, memory) {
        Some(v) => v,
        None => return Err(raise("VMError", "walk: expected integer in to_list_exp()", state, memory)),
    };
    let c = match walk(stride, state, memory) { Ok(v) => v, Err(e) => return Err(e) };
    let c = match int_value(c, memory) {
        Some(v) => v,
        None => return Err(raise("VMError", "walk: expected integer in to_list_exp()", state, memory)),
    };
    proof {
        if let Some((lo, hi, st)) = rt {
            assert(lo == a as int && hi == b as int && st == c as int);
        }
    }
    let ai = a as i128;
    let bi = b as i128;
    let ci = c as i128;
    let diff: i128 = if bi > ai { bi - ai } else { ai - bi };
    if ci == 0 || diff > isize::MAX as i128 {
        return Err(raise("VMError", "to-list: the range cannot be built", state, memory));
    }
    let ghost m1 = memory@;
    let mut items: Vec<NodeRef> = Vec::new();
    let ghost vals: Seq<int> = range_values(a as int, b as int, c as int).unwrap();
    if ci > 0 {
        if ai <= bi {
            let n: i128 = (bi - ai) / ci + 1;
            proof {
                assert(vals.len() == n);
            }
            let mut k: i128 = 0;
            while k < n
                invariant
                    0 <= k <= n,
                    n == (bi - ai) / (ci as int) + 1,
                    ci > 0,
                    ai <= bi,
                    bi - ai <= isize::MAX,
                    ai == a as int,
                    bi == b as int,
                    ci == c as int,
                    vals == range_values(a as int, b as int, c as int).unwrap(),
                    vals.len() == n,
                    env_ok(*state, memory@),
                    m1.len() <= memory@.len(),
                    items@.len() == k,
                    forall|j: int| 0 <= j < k ==> (#[trigger] items@[j]).id < memory@.len()
                        && int_at(memory@, items@[j]) == Some(vals[j]),
                decreases n - k,
            {
                proof {
                    assert(k * ci <= bi - ai) by (nonlinear_arith)
                        requires k < (bi - ai) / (ci as int) + 1, ci > 0, bi - ai >= 0, k >= 0;
                    assert(k * ci >= 0) by (nonlinear_arith)
                        requires ci > 0, k >= 0;
                }
                let value = (ai + k * ci) as isize;
                let ghost before = memory@;
                let r = store(state, memory, Node::AstroInteger(AstroInteger { value }));
                items.push(r);
                proof {
                    assert forall|j: int| 0 <= j < k + 1 implies (#[trigger] items@[j]).id < memory@.len()
                        && int_at(memory@, items@[j]) == Some(vals[j]) by {
                        if j < k {
                            assert(memory@[items@[j].id as int] == before[items@[j].id as int]);
                        }
                    }
                }
                k = k + 1;
            }
        }
    } else {
        if diff >= -ci {
            return Err(raise("VMError", "to-list: the range cannot be built", state, memory));
        }
        if ai <= bi {
            let r = store(state, memory, Node::AstroInteger(AstroInteger { value: a }));
            items.push(r);
        }
    }
    proof {
        assert(refs_below(items@, memory@.len()));
    }
    let l = store(state, memory, Node::AstroList(AstroList { contents: items }));
    Ok(l)
}

/// Evaluates a function definition into a function value that captures the
/// scope in which it is evaluated.
pub fn function_exp<H: Host>(node: NodeRef, state: &mut State<H>, memory: &mut Memory) -> (r: Result<NodeRef, NodeRef>)
    requires
        walk_pre(*old(state), old(memory)@, node),
    ensures
        steps(*old(state), old(memory)@, *final(state), final(memory)@),
        result_ok(r, final(memory)@),
        *final(state) == *old(state),
        old(memory)@[node.id as int] matches Node::AstroFunction(f) ==> (r matches Ok(v)
            && final(memory)@[v.id as int] matches Node::AstroFunctionVal(fv)
            && fv.body_list == f.body_list && fv.closure.scopes@ == old(state).scopes@
            && fv.closure.level == old(state).curr_scope),
        kind_at(old(memory)@, node) != Kind::Function ==> (r matches Err(e) && raised(final(memory)@, e, "VMError"@)),
{
    let body = match memory.get(node) { Node::AstroFunction(x) => Some(x.body_list), _ => None };
    match body {
        None => Err(raise("VMError", "walk: expected function in function_exp()", state, memory)),
        Some(b) => {
            proof { assert(node_ok(memory@[node.id as int], memory@.len(), state.frames@.len())); }
            let c = state.get_closure();
            Ok(store(state, memory, Node::AstroFunctionVal(AstroFunctionVal { body_list: b, closure: c })))
        },
    }
}

/// Evaluates a raw range as a range.
pub fn raw_to_list_exp<H: Host>(node: NodeRef, state: &mut State<H>, memory: &mut Memory) -> (r: Result<NodeRef, NodeRef>)
    requires
        walk_pre(*old(state), old(memory)@, node),
    ensures
        walk_post(*old(state), old(memory)@, *final(state), final(memory)@, r),
        old(state).fuel > 0 && kind_at(old(memory)@, node) != Kind::RawToList
            ==> (r matches Err(e) && raised(final(memory)@, e, "VMError"@)),
        old(state).fuel >= 6 ==> (raw_range_bounds(old(memory)@, node) matches Some((a, b, c))
            ==> range_result(final(memory)@, a, b, c, r)),
    decreases old(state).fuel,
{
    match spend(state, memory) { Err(e) => return Err(e), Ok(()) => {} }
    let parts = match memory.get(node) { Node::AstroRawToList(x) => Some((x.start, x.stop, x.stride)), _ => None };
    let (start, stop, stride) = match parts {
        None => return Err(raise("VMError", "walk: expected to_list in to_list_exp()", state, memory)),
        Some(x) => x,
    };
    proof { assert(node_ok(memory@[node.id as int], memory@.len(), state.frames@.len())); }
    let t = store(state, memory, Node::AstroToList(AstroToList { start, stop, stride }));
    walk(t, state, memory)
}

/// Evaluates a head-tail expression `[h | t]` whose tail is a list into the
/// list with `h` in front; the head is not evaluated.
pub fn head_tail_exp<H: Host>(node: NodeRef, state: &mut State<H>, memory: &mut Memory) -> (r: Result<NodeRef, NodeRef>)
    requires
        walk_pre(*old(state), old(memory)@, node),
    ensures
        steps(*old(state), old(memory)@, *final(state), final(memory)@),
        result_ok(r, final(memory)@),
        *final(state) == *old(state),
        old(memory)@[node.id as int] matches Node::AstroHeadTail(ht)
            ==> headtail_result(old(memory)@, final(memory)@, ht.head, ht.tail, r),
        kind_at(old(memory)@, node) != Kind::HeadTail ==> (r matches Err(e) && raised(final(memory)@, e, "VMError"@)),
{
    let parts = match memory.get(node) { Node::AstroHeadTail(x) => Some((x.head, x.tail)), _ => None };
    let (head, tail) = match parts {
        None => return Err(raise("VMError", "walk: expected head-tail exp in head_tail_exp().", state, memory)),
        Some(x) => x,
    };
    proof { assert(node_ok(memory@[node.id as int], memory@.len(), state.frames@.len())); }
    let rest = match memory.get(tail) { Node::AstroList(x) => Some(copy_refs(&x.contents)), _ => None };
    let rest = match rest {
        None => return Err(raise("VMError", "unsupported tail type in head-tail operator.", state, memory)),
        Some(x) => x,
    };
    proof { assert(node_ok(memory@[tail.id as int], memory@.len(), state.frames@.len())); }
    let mut items: Vec<NodeRef> = Vec::new();
    items.push(head);
    let mut i: usize = 0;
    while i < rest.len()
        invariant
            i <= rest@.len(),
            items@ == seq![head] + rest@.take(i as int),
        decreases rest@.len() - i,
    {
        items.push(rest[i]);
        i = i + 1;
        assert(items@ =~= seq![head] + rest@.take(i as int));
    }
    assert(rest@.take(rest@.len() as int) =~= rest@);
    Ok(store(state, memory, Node::AstroList(AstroList { contents: items })))
}

/// Evaluates a raw head-tail expression as a head-tail expression.
pub fn raw_head_tail_exp<H: Host>(node: NodeRef, state: &mut State<H>, memory: &mut Memory) -> (r: Result<NodeRef, NodeRef>)
    requires
        walk_pre(*old(state), old(memory)@, node),
    ensures
        walk_post(*old(state), old(memory)@, *final(state), final(memory)@, r),
        old(state).fuel > 0 && kind_at(old(memory)@, node) != Kind::RawHeadTail
            ==> (r matches Err(e) && raised(final(memory)@, e, "VMError"@)),
        old(state).fuel >= 2 ==> (old(memory)@[node.id as int] matches Node::AstroRawHeadTail(ht)
            ==> headtail_result(old(memory)@, final(memory)@, ht.head, ht.tail, r)),
    decreases old(state).fuel,
{
    match spend(state, memory) { Err(e) => return Err(e), Ok(()) => {} }
    let parts = match memory.get(node) { Node::AstroRawHeadTail(x) => Some((x.head, x.tail)), _ => None };
    let (head, tail) = match parts {
        None => return Err(raise("VMError", "walk: expected raw head-tail exp in raw_head_tail_exp().", state, memory)),
        Some(x) => x,
    };
    proof { assert(node_ok(memory@[node.id as int], memory@.len(), state.frames@.len())); }
    let t = store(state, memory, Node::AstroHeadTail(AstroHeadTail { head, tail }));
    walk(t, state, memory)
}

/// Evaluates both parts of a sequence into a new sequence.
pub fn sequence_exp<H: Host>(node: NodeRef, state: &mut State<H>, memory: &mut Memory) -> (r: Result<NodeRef, NodeRef>)
    requires
        walk_pre(*old(state), old(memory)@, node),
    ensures
        walk_post(*old(state), old(memory)@, *final(state), final(memory)@, r),
        r matches Ok(v) ==> kind_at(final(memory)@, v) == Kind::Sequence,
        old(state).fuel > 0 && kind_at(old(memory)@, node) != Kind::Sequence
            ==> (r matches Err(e) && raised(final(memory)@, e, "VMError"@)),
        old(state).fuel >= 3 ==> (old(memory)@[node.id as int] matches Node::AstroSequence(p)
            ==> (is_value_kind(kind_at(old(memory)@, p.first)) && is_value_kind(kind_at(old(memory)@, p.second))
            ==> (r matches Ok(v) && final(memory)@[v.id as int] matches Node::AstroSequence(q) && q.first == p.first && q.second == p.second))),
    decreases old(state).fuel,
{
    match spend(state, memory) { Err(e) => return Err(e), Ok(()) => {} }
    let parts = match memory.get(node) { Node::AstroSequence(x) => Some((x.first, x.second)), _ => None };
    let (first, second) = match parts {
        None => return Err(raise("VMError", "walk: expected sequence expression in sequence_exp().", state, memory)),
        Some(x) => x,
    };
    proof { assert(node_ok(memory@[node.id as int], memory@.len(), state.frames@.len())); }
    let a = match walk(first, state, memory) { Ok(v) => v, Err(e) => return Err(e) };
    let b = match walk(second, state, memory) { Ok(v) => v, Err(e) => return Err(e) };
    Ok(store(state, memory, Node::AstroSequence(AstroSequence { first: a, second: b })))
}

/// Evaluates `eval(e)`: `e` is evaluated, then its value is evaluated with
/// quotes dropped.
pub fn eval_exp<H: Host>(node: NodeRef, state: &mut State<H>, memory: &mut Memory) -> (r: Result<NodeRef, NodeRef>)
    requires
        walk_pre(*old(state), old(memory)@, node),
    ensures
        walk_post(*old(state), old(memory)@, *final(state), final(memory)@, r),
        r is Ok ==> !final(state).ignore_quote,
        old(state).fuel > 0 && kind_at(old(memory)@, node) != Kind::Eval
            ==> (r matches Err(e) && raised(final(memory)@, e, "VMError"@)),
        old(state).fuel >= 3 ==> (old(memory)@[node.id as int] matches Node::AstroEval(x)
            ==> (is_value_kind(kind_at(old(memory)@, x.expression)) ==> r == Ok::<NodeRef, NodeRef>(x.expression))),
        old(state).fuel >= 6 && !old(state).ignore_quote ==> (old(memory)@[node.id as int] matches Node::AstroEval(x)
            ==> (old(memory)@[x.expression.id as int] matches Node::AstroQuote(q)
            ==> (is_value_kind(kind_at(old(memory)@, q.expression)) ==> r == Ok::<NodeRef, NodeRef>(q.expression)))),
    decreases old(state).fuel,
{
    match spend(state, memory) { Err(e) => return Err(e), Ok(()) => {} }
    let exp = match memory.get(node) { Node::AstroEval(x) => Some(x.expression), _ => None };
    let exp = match exp {
        None => return Err(raise("VMError", "walk: expected eval expression in exal_exp().", state, memory)),
        Some(x) => x,
    };
    proof { assert(node_ok(memory@[node.id as int], memory@.len(), state.frames@.len())); }
    let expanded = match walk(exp, state, memory) { Ok(v) => v, Err(e) => return Err(e) };
    state.ignore_quote_on();
    let v = match walk(expanded, state, memory) { Ok(v) => v, Err(e) => return Err(e) };
    state.ignore_quote_off();
    Ok(v)
}

/// A quoted expression is a constant, unless quotes are being dropped.
pub fn quote_exp<H: Host>(node: NodeRef, state: &mut State<H>, memory: &mut Memory) -> (r: Result<NodeRef, NodeRef>)
    requires
        walk_pre(*old(state), old(memory)@, node),
    ensures
        walk_post(*old(state), old(memory)@, *final(state), final(memory)@, r),
        old(state).fuel > 0 && kind_at(old(memory)@, node) == Kind::Quote && !old(state).ignore_quote
            ==> r == Ok::<NodeRef, NodeRef>(node) && final(memory)@ == old(memory)@ && spent(*old(state), *final(state)),
        old(state).fuel >= 2 && old(state).ignore_quote ==> (old(memory)@[node.id as int] matches Node::AstroQuote(q)
            ==> (is_value_kind(kind_at(old(memory)@, q.expression)) ==> r == Ok::<NodeRef, NodeRef>(q.expression)
                && final(memory)@ == old(memory)@ && *final(state) == (State { fuel: (old(state).fuel - 2) as u64, ..*old(state) }))),
        old(state).fuel > 0 && kind_at(old(memory)@, node) != Kind::Quote
            ==> (r matches Err(e) && raised(final(memory)@, e, "VMError"@)),
    decreases old(state).fuel,
{
    match spend(state, memory) { Err(e) => return Err(e), Ok(()) => {} }
    let exp = match memory.get(node) { Node::AstroQuote(x) => Some(x.expression), _ => None };
    let exp = match exp {
        None => return Err(raise("VMError", "walk: expected quote expression in quote_exp()", state, memory)),
        Some(x) => x,
    };
    proof { assert(node_ok(memory@[node.id as int], memory@.len(), state.frames@.len())); }
    if state.ignore_quote {
        walk(exp, state, memory)
    } else {
        Ok(node)
    }
}

/// Constraint and type patterns cannot be evaluated.
pub fn constraint_exp<H: Host>(node: NodeRef, state: &mut State<H>, memory: &mut Memory) -> (r: Result<NodeRef, NodeRef>)
    requires
        walk_pre(*old(state), old(memory)@, node),
    ensures
        steps(*old(state), old(memory)@, *final(state), final(memory)@),
        *final(state) == *old(state),
        r matches Err(e) && raised(final(memory)@, e, "VMError"@),
{
    Err(raise("VMError", "constraint patterns cannot be used as constructors.", state, memory))
}

/// Evaluates a variable: its value in the current scope.
pub fn id_exp<H: Host>(node: NodeRef, state: &mut State<H>, memory: &mut Memory) -> (r: Result<NodeRef, NodeRef>)
    requires
        walk_pre(*old(state), old(memory)@, node),
    ensures
        steps(*old(state), old(memory)@, *final(state), final(memory)@),
        result_ok(r, final(memory)@),
        *final(state) == *old(state),
        id_at(old(memory)@, node) matches Some(n) ==> (old(state).lookup_spec(n) matches Some(v)
            ==> r == Ok::<NodeRef, NodeRef>(v) && final(memory)@ == old(memory)@),
        id_at(old(memory)@, node) matches Some(n) ==> (old(state).lookup_spec(n) is None
            ==> (r matches Err(e) && raised(final(memory)@, e, "ValueError"@))),
        id_at(old(memory)@, node) is None ==> (r matches Err(e) && raised(final(memory)@, e, "VMError"@)),
{
    let name = match memory.get(node) { Node::AstroID(x) => Some(x.name.clone()), _ => None };
    let name = match name {
        None => return Err(raise("VMError", "walk: expected id expression in id_exp().", state, memory)),
        Some(x) => x,
    };
    match state.lookup_sym(name.as_str()) {
        Some(v) => Ok(v),
        None => {
            let msg = text3("'", name.as_str(), "' is not defined");
            Err(new_exception("ValueError".to_owned(), msg, state, memory))
        },
    }
}

/// Evaluating a dereference gives it back.
pub fn deref_exp<H: Host>(node: NodeRef, state: &mut State<H>, memory: &mut Memory) -> (r: Result<NodeRef, NodeRef>)
    requires
        walk_pre(*old(state), old(memory)@, node),
    ensures
        r == Ok::<NodeRef, NodeRef>(node),
        *final(state) == *old(state),
        final(memory)@ == old(memory)@,
{
    Ok(node)
}

/// Evaluating a named pattern evaluates its pattern; the name is ignored.
pub fn named_pattern_exp<H: Host>(node: NodeRef, state: &mut State<H>, memory: &mut Memory) -> (r: Result<NodeRef, NodeRef>)
    requires
        walk_pre(*old(state), old(memory)@, node),
    ensures
        walk_post(*old(state), old(memory)@, *final(state), final(memory)@, r),
        old(state).fuel > 0 && kind_at(old(memory)@, node) != Kind::NamedPattern
            ==> (r matches Err(e) && raised(final(memory)@, e, "VMError"@)),
        old(state).fuel >= 2 ==> (old(memory)@[node.id as int] matches Node::AstroNamedPattern(np)
            ==> (is_value_kind(kind_at(old(memory)@, np.pattern)) ==> r == Ok::<NodeRef, NodeRef>(np.pattern))),
    decreases old(state).fuel,
{
    match spend(state, memory) { Err(e) => return Err(e), Ok(()) => {} }
    let p = match memory.get(node) { Node::AstroNamedPattern(x) => Some(x.pattern), _ => None };
    match p {
        None => Err(raise("VMError", "walk: expected named pattern expression in named_pattern_exp().", state, memory)),
        Some(p) => {
            proof { assert(node_ok(memory@[node.id as int], memory@.len(), state.frames@.len())); }
            walk(p, state, memory)
        },
    }
}

/// The condition and the two branches of a conditional expression.
pub open spec fn if_parts(m: Seq<Node>, node: NodeRef) -> Option<(NodeRef, NodeRef, NodeRef)> {
    match m[node.id as int] {
        Node::AstroIf(x) => Some((x.cond_exp, x.then_exp, x.else_exp)),
        _ => None,
    }
}

/// Evaluates a conditional expression: the branch that the truth of the
/// condition picks.
pub fn if_exp<H: Host>(node: NodeRef, state: &mut State<H>, memory: &mut Memory) -> (r: Result<NodeRef, NodeRef>)
    requires
        walk_pre(*old(state), old(memory)@, node),
    ensures
        walk_post(*old(state), old(memory)@, *final(state), final(memory)@, r),
        old(state).fuel >= 3 ==> (if_parts(old(memory)@, node) matches Some((c, t, e))
            ==> (truth(old(memory)@[c.id as int]) matches Some(b) ==> (is_value_kind(kind_at(old(memory)@, c)) ==> {
                &&& b && is_value_kind(kind_at(old(memory)@, t)) ==> r == Ok::<NodeRef, NodeRef>(t)
                &&& !b && is_value_kind(kind_at(old(memory)@, e)) ==> r == Ok::<NodeRef, NodeRef>(e)
            }))),
        old(state).fuel > 0 && kind_at(old(memory)@, node) != Kind::If
            ==> (r matches Err(e) && raised(final(memory)@, e, "VMError"@)),
    decreases old(state).fuel,
{
    match spend(state, memory) { Err(e) => return Err(e), Ok(()) => {} }
    let parts = match memory.get(node) { Node::AstroIf(x) => Some((x.cond_exp, x.then_exp, x.else_exp)), _ => None };
    let (c, t, e) = match parts {
        None => return Err(raise("VMError", "walk: expected if expression in if_exp().", state, memory)),
        Some(x) => x,
    };
    proof { assert(node_ok(memory@[node.id as int], memory@.len(), state.frames@.len())); }
    let cv = match walk(c, state, memory) { Ok(v) => v, Err(x) => return Err(x) };
    let b = map2boolean::<H>(memory.get(cv));
    let holds = match b { Node::AstroBool(x) => x.value, _ => false };
    if holds {
        walk(t, state, memory)
    } else {
        walk(e, state, memory)
    }
}

/// A call of a built-in operator on two operands that evaluate to
/// themselves: the operator's name and the two operands.
pub open spec fn builtin_call(m: Seq<Node>, node: NodeRef) -> Option<(Op, NodeRef, NodeRef)> {
    match m[node.id as int] {
        Node::AstroApply(x) => if x.function.id < m.len() && x.argument.id < m.len() {
            match (m[x.function.id as int], m[x.argument.id as int]) {
                (Node::AstroID(f), Node::AstroPair(p)) => if op_of(f.name@) is Some && p.first.id < m.len()
                    && p.second.id < m.len() && is_value_kind(kind_at(m, p.first)) && is_value_kind(kind_at(m, p.second)) {
                    Some((op_of(f.name@).unwrap(), p.first, p.second))
                } else {
                    None
                },
                _ => None,
            }
        } else {
            None
        },
        _ => None,
    }
}

/// The result of a built-in operator applied to its operands is what
/// [`builtin_outcome`] says.
pub open spec fn builtin_holds(m0: Seq<Node>, m1: Seq<Node>, node: NodeRef, r: Result<NodeRef, NodeRef>) -> bool {
    builtin_call(m0, node) matches Some((op, a, b)) ==> (builtin_outcome(m0, op, a, b) matches Some(o) ==> outcome_holds(m1, r, o))
}

/// The function and the argument of an application.
pub open spec fn apply_parts(m: Seq<Node>, node: NodeRef) -> Option<(NodeRef, NodeRef)> {
    match m[node.id as int] {
        Node::AstroApply(x) => Some((x.function, x.argument)),
        _ => None,
    }
}

/// What [`handle_builtins`] decides before it evaluates anything: `None`
/// where it goes on to the operands, `Some(Ok(()))` where it gives the
/// application back, `Some(Err(()))` where it refuses the node's shape.
pub open spec fn builtin_shape(m: Seq<Node>, node: NodeRef) -> Option<Result<(), ()>> {
    match apply_parts(m, node) {
        None => Some(Err(())),
        Some((f, a)) => match m[f.id as int] {
            Node::AstroID(x) => if op_of(x.name@) is None {
                Some(Ok(()))
            } else if kind_at(m, a) != Kind::Pair {
                Some(Err(()))
            } else {
                None
            },
            _ => Some(Err(())),
        },
    }
}

/// What an operand evaluates to, where that is decided without further
/// work: a value is itself, a variable is the value it is bound to, a list
/// of values is itself; with the evaluation budget that this takes.
pub open spec fn operand_value<H>(s: State<H>, m: Seq<Node>, r: NodeRef) -> Option<(NodeRef, nat)> {
    if is_value_kind(kind_at(m, r)) {
        Some((r, 1nat))
    } else {
        match id_at(m, r) {
            Some(n) => match s.lookup_spec(n) {
                Some(v) => Some((v, 1nat)),
                None => None,
            },
            None => match list_at(m, r) {
                Some(items) => if all_values(m, items) { Some((r, (3 + items.len()) as nat)) } else { None },
                None => None,
            },
        }
    }
}

/// A call of a built-in operator whose operands evaluate as
/// [`operand_value`] says: the operator, the two operand values, and the
/// budget that evaluating both takes.
pub open spec fn operator_call<H>(s: State<H>, m: Seq<Node>, node: NodeRef) -> Option<(Op, NodeRef, NodeRef, nat)> {
    match apply_parts(m, node) {
        Some((f, a)) => match (m[f.id as int], m[a.id as int]) {
            (Node::AstroID(x), Node::AstroPair(p)) => if op_of(x.name@) is Some {
                match (operand_value(s, m, p.first), operand_value(s, m, p.second)) {
                    (Some((va, fa)), Some((vb, fb))) => Some((op_of(x.name@).unwrap(), va, vb, fa + fb)),
                    _ => None,
                }
            } else {
                None
            },
            _ => None,
        },
        None => None,
    }
}

/// What applying the operator `op` to the values `a` and `b` gives (see
/// [`binary_op`]).
pub open spec fn operator_result(m0: Seq<Node>, m1: Seq<Node>, op: Op, a: NodeRef, b: NodeRef, node: NodeRef, r: Result<NodeRef, NodeRef>) -> bool {
    &&& builtin_outcome(m0, op, a, b) matches Some(o) ==> outcome_holds(m1, r, o)
    &&& op == Op::Plus && kind_at(m0, a) == Kind::List ==> joined(m0, m1, a, b, node, r)
    &&& op == Op::Divide && (kind_at(m0, a) == Kind::Integer || kind_at(m0, a) == Kind::Real) && int_at(m0, b) == Some(0int)
        ==> (r matches Err(e) && exception_parts(m1, e) == Some(("ArithmeticError"@, "divison by zero"@)))
}

/// The value of the node a variable is bound to, as far as terms of
/// [`term_value`] use it: an integer or a boolean.
pub open spec fn bound_outcome(m: Seq<Node>, v: NodeRef) -> Option<Outcome> {
    if v.id < m.len() {
        match m[v.id as int] {
            Node::AstroInteger(x) => Some(Outcome::Int(x.value as int)),
            Node::AstroBool(x) => Some(Outcome::Bool(x.value)),
            _ => None,
        }
    } else {
        None
    }
}

/// The truth of an integer or a boolean.
pub open spec fn outcome_truth(o: Outcome) -> Option<bool> {
    match o {
        Outcome::Int(x) => Some(x != 0),
        Outcome::Bool(b) => Some(b),
        _ => None,
    }
}

/// What a built-in operator gives on two integers or booleans, where
/// [`builtin_outcome`] decides it: `and` and `or` on their truth, the
/// others on two integers as [`int_builtin`] says.
pub open spec fn value_op(op: Op, a: Outcome, b: Outcome) -> Option<Outcome> {
    if op == Op::Or || op == Op::And {
        match (outcome_truth(a), outcome_truth(b)) {
            (Some(x), Some(y)) => Some(Outcome::Bool(if op == Op::Or { x || y } else { x && y })),
            _ => None,
        }
    } else {
        match (a, b) {
            (Outcome::Int(x), Outcome::Int(y)) => Some(int_builtin(op, x, y)),
            _ => None,
        }
    }
}

/// The value of a term built of integer and boolean literals, variables
/// bound to integers or booleans, and built-in operators applied to pairs
/// of such terms, evaluated with the budget `b`; with it the budget that
/// evaluating it takes. Operands are evaluated left to right, and the
/// first exception raised is the outcome. `None` where the term is of
/// another form or the budget does not suffice.
pub open spec fn term_value<H>(s: State<H>, m: Seq<Node>, r: NodeRef, b: nat) -> Option<(Outcome, nat)>
    decreases b,
{
    if b == 0 || r.id >= m.len() {
        None
    } else {
        match m[r.id as int] {
            Node::AstroInteger(x) => Some((Outcome::Int(x.value as int), 1nat)),
            Node::AstroBool(x) => Some((Outcome::Bool(x.value), 1nat)),
            Node::AstroID(x) => match s.lookup_spec(x.name@) {
                Some(v) => match bound_outcome(m, v) {
                    Some(o) => Some((o, 1nat)),
                    None => None,
                },
                None => None,
            },
            Node::AstroApply(_) => if b >= 3 {
                match builtin_value(s, m, r, (b - 2) as nat) {
                    Some((o, f)) => Some((o, f + 2)),
                    None => None,
                }
            } else {
                None
            },
            _ => None,
        }
    }
}

/// The operator and the two operands of an application of a built-in
/// operator to a pair.
pub open spec fn builtin_operands(m: Seq<Node>, r: NodeRef) -> Option<(Op, NodeRef, NodeRef)> {
    match apply_parts(m, r) {
        Some((f, a)) => if f.id < m.len() && a.id < m.len() {
            match (m[f.id as int], m[a.id as int]) {
                (Node::AstroID(x), Node::AstroPair(p)) => match op_of(x.name@) {
                    Some(op) => Some((op, p.first, p.second)),
                    None => None,
                },
                _ => None,
            }
        } else {
            None
        },
        None => None,
    }
}

/// The outcome of an operator once its first operand gave `va` at the
/// cost `fa` and its second gave `rb`.
pub open spec fn combine(op: Op, va: Outcome, fa: nat, rb: Option<(Outcome, nat)>) -> Option<(Outcome, nat)> {
    match rb {
        Some((vb, fb)) => if vb is Raise {
            Some((vb, fa + fb + 1))
        } else {
            match value_op(op, va, vb) {
                Some(o) => Some((o, fa + fb + 1)),
                None => None,
            }
        },
        None => None,
    }
}

/// [`term_value`] of an operator application, from where
/// [`handle_builtins`] takes it over with the budget `c`.
pub open spec fn builtin_value<H>(s: State<H>, m: Seq<Node>, r: NodeRef, c: nat) -> Option<(Outcome, nat)>
    decreases c,
{
    if c == 0 || r.id >= m.len() {
        None
    } else {
        match builtin_operands(m, r) {
            Some((op, first, second)) => match term_value(s, m, first, (c - 1) as nat) {
                Some((va, fa)) => if va is Raise {
                    Some((va, fa + 1))
                } else if fa + 1 <= c {
                    combine(op, va, fa, term_value(s, m, second, (c - 1 - fa) as nat))
                } else {
                    None
                },
                None => None,
            },
            None => None,
        }
    }
}

/// What evaluating a term of [`term_value`] with budget `b` takes lies
/// between one step and the whole budget.
pub proof fn lemma_term_cost<H>(s: State<H>, m: Seq<Node>, r: NodeRef, b: nat)
    ensures
        term_value(s, m, r, b) matches Some((o, f)) ==> 1 <= f <= b,
        builtin_value(s, m, r, b) matches Some((o, f)) ==> 1 <= f <= b,
    decreases b,
{
    if b > 0 && r.id < m.len() {
        if let Node::AstroApply(x) = m[r.id as int] {
            if b >= 3 {
                lemma_term_cost(s, m, r, (b - 2) as nat);
            }
            if x.function.id < m.len() && x.argument.id < m.len() {
                if let Node::AstroPair(p) = m[x.argument.id as int] {
                    lemma_term_cost(s, m, p.first, (b - 1) as nat);
                    if let Some((va, fa)) = term_value(s, m, p.first, (b - 1) as nat) {
                        if fa + 1 <= b {
                            lemma_term_cost(s, m, p.second, (b - 1 - fa) as nat);
                        }
                    }
                }
            }
        }
    }
}

/// The value of a term does not change when the store grows or the
/// budget of the state changes: it depends on the nodes it reaches and on
/// what the variables are bound to.
pub proof fn lemma_term_extend<H>(s: State<H>, m: Seq<Node>, s2: State<H>, m2: Seq<Node>, r: NodeRef, b: nat)
    requires
        s.wf(),
        s.values_below(m.len()),
        mem_ok(m, s.frames@.len()),
        s2.frames == s.frames,
        s2.scopes == s.scopes,
        m.len() <= m2.len(),
        m2.subrange(0, m.len() as int) == m,
        r.id < m.len(),
    ensures
        term_value(s2, m2, r, b) == term_value(s, m, r, b),
        builtin_value(s2, m2, r, b) == builtin_value(s, m, r, b),
    decreases b,
{
    assert(m2[r.id as int] == m2.subrange(0, m.len() as int)[r.id as int]);
    assert(node_ok(m[r.id as int], m.len(), s.frames@.len()));
    if b > 0 {
        match m[r.id as int] {
            Node::AstroID(x) => {
                lemma_lookup_below(s, x.name@, m.len());
                if let Some(v) = s.lookup_spec(x.name@) {
                    assert(m2[v.id as int] == m2.subrange(0, m.len() as int)[v.id as int]);
                }
            },
            Node::AstroApply(x) => {
                if b >= 3 {
                    lemma_term_extend(s, m, s2, m2, r, (b - 2) as nat);
                }
                assert(m2[x.function.id as int] == m2.subrange(0, m.len() as int)[x.function.id as int]);
                assert(m2[x.argument.id as int] == m2.subrange(0, m.len() as int)[x.argument.id as int]);
                if let Node::AstroPair(p) = m[x.argument.id as int] {
                    assert(node_ok(m[x.argument.id as int], m.len(), s.frames@.len()));
                    lemma_term_extend(s, m, s2, m2, p.first, (b - 1) as nat);
                    if let Some((va, fa)) = term_value(s, m, p.first, (b - 1) as nat) {
                        if fa + 1 <= b {
                            lemma_term_extend(s, m, s2, m2, p.second, (b - 1 - fa) as nat);
                        }
                    }
                }
            },
            _ => {},
        }
    }
}

/// A value that an outcome describes stays so when the store grows.
pub proof fn lemma_outcome_extend(m: Seq<Node>, m2: Seq<Node>, r: Result<NodeRef, NodeRef>, o: Outcome)
    requires
        outcome_holds(m, r, o),
        m.len() <= m2.len(),
        m2.subrange(0, m.len() as int) == m,
        r is Ok,
    ensures
        outcome_holds(m2, r, o),
{
    if let Ok(n) = r {
        assert(m2[n.id as int] == m2.subrange(0, m.len() as int)[n.id as int]);
    }
}

/// On integers and booleans that [`value_op`] decides, the built-in
/// operators give what it says.
pub proof fn lemma_value_op(m: Seq<Node>, op: Op, a: NodeRef, b: NodeRef, va: Outcome, vb: Outcome)
    requires
        outcome_holds(m, Ok::<NodeRef, NodeRef>(a), va),
        outcome_holds(m, Ok::<NodeRef, NodeRef>(b), vb),
        value_op(op, va, vb) is Some,
    ensures
        builtin_outcome(m, op, a, b) == value_op(op, va, vb),
{
}

/// The integer that a term of [`term_value`] evaluates to with the budget
/// `b`, and the budget it takes.
pub open spec fn int_term<H>(s: State<H>, m: Seq<Node>, r: NodeRef, b: nat) -> Option<(int, nat)> {
    match term_value(s, m, r, b) {
        Some((Outcome::Int(v), f)) => Some((v, f)),
        _ => None,
    }
}

/// The start, stop and stride of a range node whose three bounds are terms
/// of [`term_value`] with integer values, evaluated in that order from the
/// budget `b` with which [`to_list_exp`] starts.
pub open spec fn range_terms<H>(s: State<H>, m: Seq<Node>, node: NodeRef, b: nat) -> Option<(int, int, int)> {
    if b >= 1 && node.id < m.len() {
        match m[node.id as int] {
            Node::AstroToList(x) => match int_term(s, m, x.start, (b - 1) as nat) {
                Some((lo, fa)) => match int_term(s, m, x.stop, (b - 1 - fa) as nat) {
                    Some((hi, fb)) => match int_term(s, m, x.stride, (b - 1 - fa - fb) as nat) {
                        Some((st, fc)) => Some((lo, hi, st)),
                        None => None,
                    },
                    None => None,
                },
                None => None,
            },
            _ => None,
        }
    } else {
        None
    }
}

/// [`range_terms`] does not change when the store grows or the budget of
/// the state changes.
pub proof fn lemma_range_extend<H>(s: State<H>, m: Seq<Node>, s2: State<H>, m2: Seq<Node>, node: NodeRef, b: nat)
    requires
        s.wf(),
        s.values_below(m.len()),
        mem_ok(m, s.frames@.len()),
        s2.frames == s.frames,
        s2.scopes == s.scopes,
        m.len() <= m2.len(),
        m2.subrange(0, m.len() as int) == m,
        node.id < m.len(),
    ensures
        range_terms(s2, m2, node, b) == range_terms(s, m, node, b),
{
    assert(m2[node.id as int] == m2.subrange(0, m.len() as int)[node.id as int]);
    assert(node_ok(m[node.id as int], m.len(), s.frames@.len()));
    if b >= 1 {
        if let Node::AstroToList(x) = m[node.id as int] {
            lemma_term_extend(s, m, s2, m2, x.start, (b - 1) as nat);
            if let Some((lo, fa)) = int_term(s, m, x.start, (b - 1) as nat) {
                lemma_term_extend(s, m, s2, m2, x.stop, (b - 1 - fa) as nat);
                if let Some((hi, fb)) = int_term(s, m, x.stop, (b - 1 - fa) as nat) {
                    lemma_term_extend(s, m, s2, m2, x.stride, (b - 1 - fa - fb) as nat);
                }
            }
        }
    }
}

/// The pattern of an `is` expression is a variable that a match binds in
/// the current scope: not `_` or `this`, and not declared global there.
pub open spec fn is_var_pattern<H>(s: State<H>, m: Seq<Node>, p: NodeRef) -> bool {
    id_at(m, p) matches Some(n) && n != "_"@ && n != "this"@ && !names_has(inner_globals(s), n)
}

/// Applies a built-in operator: `op(a, b)` with the pair of operands
/// evaluated first. An application of another function is given back.
#[verifier::rlimit(60)]
pub fn handle_builtins<H: Host>(node: NodeRef, state: &mut State<H>, memory: &mut Memory) -> (r: Result<NodeRef, NodeRef>)
    requires
        walk_pre(*old(state), old(memory)@, node),
    ensures
        walk_post(*old(state), old(memory)@, *final(state), final(memory)@, r),
        old(state).fuel >= 3 ==> builtin_holds(old(memory)@, final(memory)@, node, r),
        operator_call(*old(state), old(memory)@, node) matches Some((op, a, b, f))
            ==> (old(state).fuel > f ==> operator_result(old(memory)@, final(memory)@, op, a, b, node, r)
                && *final(state) == (State { fuel: (old(state).fuel - 1 - f) as u64, ..*old(state) })
                && old(memory)@.len() <= final(memory)@.len()
                && final(memory)@.subrange(0, old(memory)@.len() as int) == old(memory)@),
        builtin_value(*old(state), old(memory)@, node, old(state).fuel as nat) matches Some((o, f))
            ==> (outcome_holds(final(memory)@, r, o)
                && *final(state) == (State { fuel: (old(state).fuel - f) as u64, ..*old(state) })
                && old(memory)@.len() <= final(memory)@.len()
                && final(memory)@.subrange(0, old(memory)@.len() as int) == old(memory)@),
        old(state).fuel > 0 && builtin_shape(old(memory)@, node) == Some(Ok::<(), ()>(()))
            ==> r == Ok::<NodeRef, NodeRef>(node),
        old(state).fuel > 0 && builtin_shape(old(memory)@, node) == Some(Err::<(), ()>(()))
            ==> (r matches Err(e) && raised(final(memory)@, e, "VMError"@)),
        old(state).fuel > 0 && kind_at(old(memory)@, node) != Kind::Apply
            ==> (r matches Err(e) && raised(final(memory)@, e, "VMError"@)),
    decreases old(state).fuel,
{
    match spend(state, memory) { Err(e) => return Err(e), Ok(()) => {} }
    let parts = match memory.get(node) { Node::AstroApply(x) => Some((x.function, x.argument)), _ => None };
    let (function, argument) = match parts {
        None => return Err(raise("VMError", "handle_builtins: expected apply expression.", state, memory)),
        Some(x) => x,
    };
    proof { assert(node_ok(memory@[node.id as int], memory@.len(), state.frames@.len())); }
    let op = match memory.get(function) { Node::AstroID(x) => Some(x.name.clone()), _ => None };
    let op = match op {
        None => return Err(raise("VMError", "handle_builtins: expected id.", state, memory)),
        Some(x) => x,
    };
    let op = match operator_symbol(op.as_str()) {
        None => return Ok(node),
        Some(o) => o,
    };
    let operands = match memory.get(argument) { Node::AstroPair(x) => Some((x.first, x.second)), _ => None };
    let (first, second) = match operands {
        None => return Err(raise("VMError", "handle_builtins: expected tuple for args.", state, memory)),
        Some(x) => x,
    };
    proof { assert(node_ok(memory@[argument.id as int], memory@.len(), state.frames@.len())); }
    let ghost s1 = *state;
    proof {
        if let Some((o, f)) = builtin_value(*old(state), old(memory)@, node, old(state).fuel as nat) {
            lemma_term_extend(*old(state), old(memory)@, *state, memory@, first, (old(state).fuel - 1) as nat);
            lemma_term_cost(*old(state), old(memory)@, first, (old(state).fuel - 1) as nat);
        }
    }
    let a = match walk(first, state, memory) { Ok(v) => v, Err(e) => return Err(e) };
    proof {
        if let Some((o, f)) = builtin_value(*old(state), old(memory)@, node, old(state).fuel as nat) {
            let (va, fa) = term_value(*old(state), old(memory)@, first, (old(state).fuel - 1) as nat).unwrap();
            if !(va is Raise) {
                lemma_term_extend(*old(state), old(memory)@, *state, memory@, second, (old(state).fuel - 1 - fa) as nat);
                lemma_term_cost(*old(state), old(memory)@, second, (old(state).fuel - 1 - fa) as nat);
            }
        }
    }
    let ghost m_a = memory@;
    proof {
        if let Some((op0, va, vb, f)) = operator_call(*old(state), old(memory)@, node) {
            if old(state).fuel > f {
                assert(memory@ == old(memory)@);
                assert(state.frames == s1.frames && state.scopes == s1.scopes);
                assert(state.lookup_spec(id_at(old(memory)@, second).unwrap()) == old(state).lookup_spec(id_at(old(memory)@, second).unwrap()));
                assert(operand_value(*state, memory@, second) == operand_value(*old(state), old(memory)@, second));
            }
        }
    }
    let b = match walk(second, state, memory) { Ok(v) => v, Err(e) => return Err(e) };
    proof {
        if let Some((o, f)) = builtin_value(*old(state), old(memory)@, node, old(state).fuel as nat) {
            let (va, fa) = term_value(*old(state), old(memory)@, first, (old(state).fuel - 1) as nat).unwrap();
            let (vb, fb) = term_value(*old(state), old(memory)@, second, (old(state).fuel - 1 - fa) as nat).unwrap();
            lemma_outcome_extend(m_a, memory@, Ok::<NodeRef, NodeRef>(a), va);
            lemma_value_op(memory@, op, a, b, va, vb);
            assert(memory@.subrange(0, old(memory)@.len() as int) == old(memory)@) by {
                assert(memory@.subrange(0, old(memory)@.len() as int) == memory@.subrange(0, m_a.len() as int).subrange(0, old(memory)@.len() as int));
            }
        }
    }
    binary_op(op, a, b, node, state, memory)
}

/// The name of the compiled function that the body of the function value
/// `node` names.
pub open spec fn fn_value_name(m: Seq<Node>, node: NodeRef) -> Option<Seq<char>> {
    match m[node.id as int] {
        Node::AstroFunctionVal(fv) => id_at(m, fv.body_list),
        _ => None,
    }
}

/// Why the call of `node` is refused before any compiled function runs: the
/// message of the `VMError`, or `None` where `node` is a function value
/// whose body names a compiled function of the host and whose closure has a
/// scope.
pub open spec fn call_refusal<H: Host>(s: State<H>, m: Seq<Node>, node: NodeRef) -> Option<Seq<char>> {
    match m[node.id as int] {
        Node::AstroFunctionVal(fv) => match id_at(m, fv.body_list) {
            None => Some("handle_call: expected id for function name."@),
            Some(n) => if fv.closure.scopes@.len() == 0 {
                Some("handle_call: function value without a scope."@)
            } else if s.dispatch_table.named(n) is None {
                Some("handle_call: unknown function '"@ + n + "'"@)
            } else {
                None
            },
        },
        _ => Some("handle call: expected function value."@),
    }
}

/// The state `s1` that the call of the function value `node` runs in,
/// prepared from `s0`: the scope chain that the function value captured,
/// with a new, empty namespace on top, in which `obj`, unless it is
/// `none`, is bound to `this`; one level deeper; the rest as in `s0`.
pub open spec fn call_prepared<H>(s0: State<H>, m: Seq<Node>, obj: NodeRef, node: NodeRef, s1: State<H>) -> bool {
    &&& m[node.id as int] matches Node::AstroFunctionVal(fv)
    &&& s1.fuel == s0.fuel
    &&& s1.lineinfo == s0.lineinfo
    &&& s1.frames@.len() == s0.frames@.len() + 1
    &&& s1.scopes@ == fv.closure.scopes@.push(s0.frames@.len() as usize)
    &&& s1.curr_scope == (if fv.closure.level < usize::MAX { (fv.closure.level + 1) as usize } else { fv.closure.level })
    &&& kind_at(m, obj) != Kind::NoneValue ==> s1.lookup_spec("this"@) == Some(obj)
    &&& forall|k: Seq<char>| k != "this"@ ==> #[trigger] s1.lookup_spec(k) == lookup_chain(s0.frames@, fv.closure.scopes@, k)
}

/// The compiled function that the function value `node` names.
pub open spec fn called_function<H>(s: State<H>, m: Seq<Node>, node: NodeRef) -> H {
    s.dispatch_table.named(fn_value_name(m, node).unwrap()).unwrap()
}

/// The caller's state after a call: what the compiled function left in
/// `sb`, run from `sa`, with the caller's scope chain, level and line back,
/// and no budget regained.
pub open spec fn returned<H>(caller: State<H>, sa: State<H>, sb: State<H>, s1: State<H>) -> bool {
    &&& s1.frames@ == sb.frames@
    &&& s1.scopes@ == caller.scopes@
    &&& s1.curr_scope == caller.curr_scope
    &&& s1.lineinfo == caller.lineinfo
    &&& s1.fuel == (if sb.fuel > sa.fuel { sa.fuel } else { sb.fuel })
    &&& s1.constraint_lvl == sb.constraint_lvl
    &&& s1.ignore_quote == sb.ignore_quote
    &&& s1.cond_warning == sb.cond_warning
    &&& s1.warnings == sb.warnings
    &&& s1.dispatch_table == sb.dispatch_table
}

/// The compiled function that `node` names ran on `args`, in the state
/// that [`call_setup`] prepares from `s0` (one step of the budget spent)
/// and in the store `m0`, and the caller got back the state `s1`, the store
/// `m1` and the result `r` that it handed back.
pub open spec fn called<H: Host>(s0: State<H>, m0: Seq<Node>, obj: NodeRef, node: NodeRef, args: NodeRef,
    s1: State<H>, m1: Seq<Node>, r: Result<NodeRef, NodeRef>) -> bool {
    exists|sa: State<H>, ma: Memory, sb: State<H>, mb: Memory|
        call_prepared(State { fuel: (s0.fuel - 1) as u64, ..s0 }, m0, obj, node, sa) && ma@ == m0
        && #[trigger] host_ran(called_function(s0, m0, node), args, sa, ma, sb, mb, r)
        && mb@ == m1 && returned(s0, sa, sb, s1)
}

/// What calling the function value `node` on `args`, with `obj` for
/// `this`, does from the state `s0` and the store `m0` (see
/// [`handle_call`]).
pub open spec fn call_post<H: Host>(s0: State<H>, m0: Seq<Node>, obj: NodeRef, node: NodeRef, args: NodeRef,
    s1: State<H>, m1: Seq<Node>, r: Result<NodeRef, NodeRef>) -> bool {
    &&& walk_post(s0, m0, s1, m1, r)
    &&& s1.scopes@ == s0.scopes@
    &&& s1.curr_scope == s0.curr_scope
    &&& s1.lineinfo == s0.lineinfo
    &&& s0.fuel > 0 ==> (call_refusal(s0, m0, node) matches Some(msg)
        ==> (r matches Err(e) && exception_parts(m1, e) == Some(("VMError"@, msg))
            && s1 == (State { fuel: (s0.fuel - 1) as u64, ..s0 })))
    &&& s0.fuel > 0 && call_refusal(s0, m0, node) is None ==> called(s0, m0, obj, node, args, s1, m1, r)
}

/// Prepares the call of the function value `node`: the compiled function
/// that its body names is looked up, and the scope chain it captured is
/// installed with a new, empty namespace on top, in which `obj_ref`,
/// unless it is `none`, is bound to `this`. Gives back the compiled
/// function and the caller's scope chain and level, to be restored.
pub fn call_setup<H: Host>(obj_ref: NodeRef, node: NodeRef, state: &mut State<H>, memory: &mut Memory)
    -> (r: Result<(H, (Vec<usize>, usize)), NodeRef>)
    requires
        env_ok(*old(state), old(memory)@),
        obj_ref.id < old(memory)@.len(),
        node.id < old(memory)@.len(),
    ensures
        env_ok(*final(state), final(memory)@),
        grows(*old(state), old(memory)@, *final(state), final(memory)@),
        final(state).fuel == old(state).fuel,
        final(state).lineinfo == old(state).lineinfo,
        r is Err <==> call_refusal(*old(state), old(memory)@, node) is Some,
        r matches Err(e) ==> (call_refusal(*old(state), old(memory)@, node) matches Some(msg)
            && e.id < final(memory)@.len() && exception_parts(final(memory)@, e) == Some(("VMError"@, msg))
            && *final(state) == *old(state)),
        r matches Ok((f, saved)) ==> (call_prepared(*old(state), old(memory)@, obj_ref, node, *final(state))
            && called_function(*old(state), old(memory)@, node) == f
            && final(memory)@ == old(memory)@
            && saved.0@ == old(state).scopes@ && saved.1 == old(state).curr_scope),
{
    let parts = match memory.get(node) {
        Node::AstroFunctionVal(x) => Some((x.body_list, crate::state::copy_indices(&x.closure.scopes), x.closure.level)),
        _ => None,
    };
    let (body, scopes, level) = match parts {
        None => return Err(raise("VMError", "handle call: expected function value.", state, memory)),
        Some(x) => x,
    };
    proof { assert(node_ok(memory@[node.id as int], memory@.len(), state.frames@.len())); }
    let fname = match memory.get(body) { Node::AstroID(x) => Some(x.name.clone()), _ => None };
    let fname = match fname {
        None => return Err(raise("VMError", "handle_call: expected id for function name.", state, memory)),
        Some(x) => x,
    };
    if scopes.len() == 0 {
        return Err(raise("VMError", "handle_call: function value without a scope.", state, memory));
    }
    let f = match state.dispatch_table.lookup(fname.as_str()) {
        Some(f) => f,
        None => {
            let msg = text3("handle_call: unknown function '", fname.as_str(), "'");
            return Err(new_exception("VMError".to_owned(), msg, state, memory));
        },
    };
    let save = state.get_config();
    proof {
        assert(crate::state::frames_below_len(scopes@, state.frames@.len()));
    }
    let ghost closure_scopes = scopes@;
    let ghost frames0 = state.frames@;
    let nframes = state.frames.len();
    state.set_config(scopes, level);
    state.push_scope();
    proof {
        crate::memory::lemma_mem_ok_frames(memory@, (state.frames@.len() - 1) as nat, state.frames@.len());
        reveal_strlit("this");
    }
    let ghost s2 = *state;
    proof {
        assert(frames0.len() == nframes);
        assert(s2.innermost() as int == frames0.len());
        assert(s2.frames@[s2.innermost() as int].globals@.len() == 0);
        assert(!names_has(s2.frames@[s2.innermost() as int].globals@, "this"@));
    }
    if node_kind(memory.get(obj_ref)) != Kind::NoneValue {
        state.enter_sym("this", obj_ref);
    }
    proof {
        assert(s2.scopes@ == closure_scopes.push(frames0.len() as usize));
        assert(forall|k: Seq<char>| #[trigger] s2.lookup_spec(k) == lookup_chain(frames0, closure_scopes, k));
        assert(forall|k: Seq<char>| k != "this"@ ==> #[trigger] state.lookup_spec(k) == s2.lookup_spec(k));
        assert(state.scopes@ == s2.scopes@);
        assert(frames0 == old(state).frames@);
    }
    Ok((f, save))
}

/// The host ran the compiled function `f` on `args`, from the state `s0`
/// and the store `m0`, and handed back the state `s1`, the store `m1` and
/// the result `r`.
pub open spec fn host_ran<H: Host>(f: H, args: NodeRef, s0: State<H>, m0: Memory, s1: State<H>, m1: Memory,
    r: Result<NodeRef, NodeRef>) -> bool {
    call_ensures(H::call_function, (f, args, s0, m0), (s1, m1, r))
}

/// Runs the compiled function `f` on `args` in the current state and store
/// (see [`Host::call_function`]).
pub fn run_host<H: Host>(f: H, args: NodeRef, state: &mut State<H>, memory: &mut Memory) -> (r: Result<NodeRef, NodeRef>)
    requires
        env_ok(*old(state), old(memory)@),
        args.id < old(memory)@.len(),
    ensures
        host_ran(f, args, *old(state), *old(memory), *final(state), *final(memory), r),
        env_ok(*final(state), final(memory)@),
        grows(*old(state), old(memory)@, *final(state), final(memory)@),
        result_ok(r, final(memory)@),
{
    let mut s0: State<H> = State::new();
    let mut m0 = Memory::new();
    core::mem::swap(&mut s0, state);
    core::mem::swap(&mut m0, memory);
    let call = H::call_function;
    let (s1, m1, r) = call(f, args, s0, m0);
    *state = s1;
    *memory = m1;
    r
}

/// Calls the function value `node` on the evaluated argument `args`: the
/// compiled function that its body names runs on `args` in the state that
/// [`call_setup`] prepares, and its result is the result of the call. The
/// caller's scope and line are restored afterwards.
pub fn handle_call<H: Host>(obj_ref: NodeRef, node: NodeRef, args: NodeRef, state: &mut State<H>, memory: &mut Memory) -> (r: Result<NodeRef, NodeRef>)
    requires
        env_ok(*old(state), old(memory)@),
        obj_ref.id < old(memory)@.len(),
        node.id < old(memory)@.len(),
        args.id < old(memory)@.len(),
    ensures
        call_post(*old(state), old(memory)@, obj_ref, node, args, *final(state), final(memory)@, r),
{
    match spend(state, memory) { Err(e) => return Err(e), Ok(()) => {} }
    let (f, save) = match call_setup(obj_ref, node, state, memory) {
        Ok(x) => x,
        Err(e) => return Err(e),
    };
    proof { assert(crate::state::frames_below_len(save.0@, state.frames@.len())); }
    let ghost sa = *state;
    let ghost ma = *memory;
    let old_lineinfo = (state.lineinfo.0.clone(), state.lineinfo.1);
    let fuel = state.fuel;
    let r = run_host(f, args, state, memory);
    let ghost sb = *state;
    let ghost mb = *memory;
    if state.fuel > fuel {
        state.fuel = fuel;
    }
    state.lineinfo = old_lineinfo;
    state.set_config(save.0, save.1);
    proof {
        assert(host_ran(called_function(*old(state), old(memory)@, node), args, sa, ma, sb, mb, r));
        assert(returned(*old(state), sa, sb, *state));
    }
    r
}

/// Why an escape is refused before any compiled function runs: the message
/// of the `VMError`, or `None` where `node` is an escape that names a
/// compiled function of the host.
pub open spec fn escape_refusal<H: Host>(s: State<H>, m: Seq<Node>, node: NodeRef) -> Option<Seq<char>> {
    match m[node.id as int] {
        Node::AstroEscape(x) => if s.dispatch_table.named(x.content@) is None {
            Some("escape_exp(): unknown function '"@ + x.content@ + "'"@)
        } else {
            None
        },
        _ => Some("escape_exp(): expected ID."@),
    }
}

/// Prepares an escape: looks up the compiled function that it names and
/// stores the argument it is called on, a new `none` node. Gives back both.
pub fn escape_setup<H: Host>(node: NodeRef, state: &mut State<H>, memory: &mut Memory)
    -> (r: Result<(H, NodeRef), NodeRef>)
    requires
        env_ok(*old(state), old(memory)@),
        node.id < old(memory)@.len(),
    ensures
        env_ok(*final(state), final(memory)@),
        grows(*old(state), old(memory)@, *final(state), final(memory)@),
        *final(state) == *old(state),
        final(memory)@.subrange(0, old(memory)@.len() as int) == old(memory)@,
        r is Err <==> escape_refusal(*old(state), old(memory)@, node) is Some,
        r matches Err(e) ==> (escape_refusal(*old(state), old(memory)@, node) matches Some(msg)
            && e.id < final(memory)@.len() && exception_parts(final(memory)@, e) == Some(("VMError"@, msg))),
        r matches Ok((f, arg)) ==> (old(memory)@[node.id as int] matches Node::AstroEscape(x)
            && old(state).dispatch_table.named(x.content@) == Some(f)
            && final(memory)@ == old(memory)@.push(Node::AstroNone(AstroNone {}))
            && arg.id == old(memory)@.len()),
{
    let fname = match memory.get(node) { Node::AstroEscape(x) => Some(x.content.clone()), _ => None };
    let fname = match fname {
        None => return Err(raise("VMError", "escape_exp(): expected ID.", state, memory)),
        Some(x) => x,
    };
    let f = match state.dispatch_table.lookup(fname.as_str()) {
        Some(f) => f,
        None => {
            let msg = text3("escape_exp(): unknown function '", fname.as_str(), "'");
            return Err(new_exception("VMError".to_owned(), msg, state, memory));
        },
    };
    let arg = store(state, memory, Node::AstroNone(AstroNone {}));
    Ok((f, arg))
}

/// The compiled function that the escape `node` names.
pub open spec fn escape_function<H>(s: State<H>, m: Seq<Node>, node: NodeRef) -> H {
    match m[node.id as int] {
        Node::AstroEscape(x) => s.dispatch_table.named(x.content@).unwrap(),
        _ => arbitrary(),
    }
}

/// The compiled function that the escape `node` names ran on a new `none`
/// node stored at the end of `m0`, from the state `s0` with one step of the
/// budget spent, and the caller got back the state it handed back, with
/// its own line and no budget regained, its store `m1` and its result `r`.
pub open spec fn escaped<H: Host>(s0: State<H>, m0: Seq<Node>, node: NodeRef, s1: State<H>, m1: Seq<Node>,
    r: Result<NodeRef, NodeRef>) -> bool {
    exists|ma: Memory, sb: State<H>, mb: Memory| {
        &&& ma@ == m0.push(Node::AstroNone(AstroNone {}))
        &&& #[trigger] host_ran(escape_function(s0, m0, node), NodeRef { id: m0.len() as usize },
            State { fuel: (s0.fuel - 1) as u64, ..s0 }, ma, sb, mb, r)
        &&& mb@ == m1
        &&& s1 == (State { lineinfo: s0.lineinfo,
            fuel: if sb.fuel > (s0.fuel - 1) as u64 { (s0.fuel - 1) as u64 } else { sb.fuel }, ..sb })
    }
}

/// Evaluates an escape: calls the compiled function it names, on a new
/// `none` node (see [`escape_setup`]); the result is that of the call.
pub fn escape_exp<H: Host>(node: NodeRef, state: &mut State<H>, memory: &mut Memory) -> (r: Result<NodeRef, NodeRef>)
    requires
        walk_pre(*old(state), old(memory)@, node),
    ensures
        walk_post(*old(state), old(memory)@, *final(state), final(memory)@, r),
        final(state).lineinfo == old(state).lineinfo,
        old(state).fuel > 0 ==> (escape_refusal(*old(state), old(memory)@, node) matches Some(msg)
            ==> (r matches Err(e) && exception_parts(final(memory)@, e) == Some(("VMError"@, msg))
                && *final(state) == (State { fuel: (old(state).fuel - 1) as u64, ..*old(state) }))),
        old(state).fuel > 0 && escape_refusal(*old(state), old(memory)@, node) is None
            ==> escaped(*old(state), old(memory)@, node, *final(state), final(memory)@, r),
{
    match spend(state, memory) { Err(e) => return Err(e), Ok(()) => {} }
    let (f, arg) = match escape_setup(node, state, memory) {
        Ok(x) => x,
        Err(e) => return Err(e),
    };
    let ghost sa = *state;
    let ghost ma = *memory;
    let old_lineinfo = (state.lineinfo.0.clone(), state.lineinfo.1);
    let fuel = state.fuel;
    let r = run_host(f, arg, state, memory);
    let ghost sb = *state;
    let ghost mb = *memory;
    if state.fuel > fuel {
        state.fuel = fuel;
    }
    state.lineinfo = old_lineinfo;
    proof {
        assert(host_ran(escape_function(*old(state), old(memory)@, node), NodeRef { id: old(memory)@.len() as usize },
            State { fuel: (old(state).fuel - 1) as u64, ..*old(state) }, ma, sb, mb, r));
    }
    r
}

/// The structure declares a member of the given name.
pub open spec fn has_member(m: Seq<Node>, names: Seq<NodeRef>, tag: Seq<char>) -> bool {
    exists|i: int| 0 <= i < names.len() && names[i].id < m.len() && #[trigger] id_at(m, names[i]) == Some(tag)
}

/// `k` is the slot of the first member named `tag`.
pub open spec fn first_slot(m: Seq<Node>, names: Seq<NodeRef>, tag: Seq<char>, k: int) -> bool {
    &&& 0 <= k < names.len()
    &&& names[k].id < m.len()
    &&& id_at(m, names[k]) == Some(tag)
    &&& forall|j: int| 0 <= j < k ==> !(names[j].id < m.len() && #[trigger] id_at(m, names[j]) == Some(tag))
}

/// The slot of the first member of the given name.
fn first_member(names: &Vec<NodeRef>, tag: &str, memory: &Memory) -> (r: Option<usize>)
    ensures
        r is None <==> !has_member(memory@, names@, tag@),
        r matches Some(i) ==> first_slot(memory@, names@, tag@, i as int),
{
    let mut i: usize = 0;
    while i < names.len()
        invariant
            i <= names@.len(),
            forall|j: int| 0 <= j < i ==> !(names@[j].id < memory@.len() && #[trigger] id_at(memory@, names@[j]) == Some(tag@)),
        decreases names@.len() - i,
    {
        let r = names[i];
        if r.id < memory.len() {
            let hit = match memory.get(r) { Node::AstroID(x) => str_eq(x.name.as_str(), tag), _ => false };
            if hit {
                assert(id_at(memory@, names@[i as int]) == Some(tag@));
                return Some(i);
            }
        }
        i = i + 1;
    }
    None
}

/// The arguments of a constructor call: the items of a tuple, or the two
/// parts of a pair.
pub open spec fn ctor_args(m: Seq<Node>, arg: NodeRef) -> Option<Seq<NodeRef>> {
    match m[arg.id as int] {
        Node::AstroTuple(t) => Some(t.contents@),
        Node::AstroPair(p) => Some(seq![p.first, p.second]),
        _ => None,
    }
}

/// The object at `v` is the default construction of the structure's
/// memory `cells` from `args`: the data cells take the arguments in order,
/// the member functions stay.
pub open spec fn default_built(m0: Seq<Node>, m1: Seq<Node>, v: NodeRef, tag: Seq<char>, cells: Seq<NodeRef>, args: Seq<NodeRef>) -> bool {
    let d = data_indices(m0, cells, cells.len());
    &&& v.id < m1.len()
    &&& m1[v.id as int] matches Node::AstroObject(o)
    &&& o.struct_id.name@ == tag
    &&& o.object_memory@.len() == cells.len()
    &&& forall|j: int| 0 <= j < d.len() ==> o.object_memory@[#[trigger] d[j] as int] == args[j]
    &&& forall|c: int| 0 <= c < cells.len() && !is_data(m0, cells[c]) ==> #[trigger] o.object_memory@[c] == cells[c]
}

/// `__init__`, the member `init` of a structure of the given `tag` and
/// memory `cells`, was called on `args` with a new object for `this`, stored
/// at the end of `m0` with that name and memory, from the state `s0` (see
/// [`call_post`]), and left the state `s1` and the store `m1`.
pub open spec fn init_called<H: Host>(s0: State<H>, m0: Seq<Node>, tag: Seq<char>, cells: Seq<NodeRef>, init: NodeRef,
    args: NodeRef, s1: State<H>, m1: Seq<Node>) -> bool {
    exists|m_mid: Seq<Node>, rc: Result<NodeRef, NodeRef>| {
        &&& m_mid.len() == m0.len() + 1
        &&& m_mid.subrange(0, m0.len() as int) == m0
        &&& m_mid[m0.len() as int] matches Node::AstroObject(o)
        &&& o.struct_id.name@ == tag
        &&& o.object_memory@ == cells
        &&& #[trigger] call_post(s0, m_mid, NodeRef { id: m0.len() as usize }, init, args, s1, m1, rc)
    }
}

/// What constructing an object of the structure `st`, named `tag`, whose
/// first `__init__` member is a data slot, does from the state `s0` and
/// the store `m0` on the evaluated argument `args`: a new object of that
/// structure, whose memory is the structure's, is stored and is the result,
/// and `__init__` is called on `args` with the object for `this` (see
/// [`init_called`]); what that call gives back is not used.
pub open spec fn init_post<H: Host>(s0: State<H>, m0: Seq<Node>, tag: Seq<char>, st: NodeRef, args: NodeRef,
    s1: State<H>, m1: Seq<Node>, r: Result<NodeRef, NodeRef>) -> bool {
    m0[st.id as int] matches Node::AstroStruct(x) ==> (s0.fuel > 0 ==> forall|k: int|
        #[trigger] first_slot(m0, x.member_names@, "__init__"@, k) && k < x.struct_memory@.len() ==> {
            &&& r == Ok::<NodeRef, NodeRef>(NodeRef { id: m0.len() as usize })
            &&& init_called(State { fuel: (s0.fuel - 1) as u64, ..s0 }, m0, tag, x.struct_memory@, x.struct_memory@[k],
                args, s1, m1)
        })
}

/// Constructs an object of the structure `f_val`, named `tag`: by calling
/// its `__init__` member on the argument where it has one, else by filling
/// its data members with the arguments in order.
pub fn construct_object<H: Host>(tag: &String, f_val: NodeRef, arg_val: NodeRef, state: &mut State<H>, memory: &mut Memory) -> (r: Result<NodeRef, NodeRef>)
    requires
        env_ok(*old(state), old(memory)@),
        f_val.id < old(memory)@.len(),
        arg_val.id < old(memory)@.len(),
    ensures
        walk_post(*old(state), old(memory)@, *final(state), final(memory)@, r),
        old(state).fuel > 0 ==> (old(memory)@[f_val.id as int] matches Node::AstroStruct(st)
            ==> (ctor_args(old(memory)@, arg_val) matches Some(args)
            ==> (!has_member(old(memory)@, st.member_names@, "__init__"@) ==> {
                let d = data_indices(old(memory)@, st.struct_memory@, st.struct_memory@.len());
                &&& args.len() == d.len() ==> (r matches Ok(v)
                    && default_built(old(memory)@, final(memory)@, v, tag@, st.struct_memory@, args))
                &&& args.len() != d.len() ==> (r matches Err(e) && raised(final(memory)@, e, "ValueError"@))
            }))),
        old(state).fuel > 0 && kind_at(old(memory)@, f_val) != Kind::Struct
            ==> (r matches Err(e) && raised(final(memory)@, e, "VMError"@)),
        init_post(*old(state), old(memory)@, tag@, f_val, arg_val, *final(state), final(memory)@, r),
        old(state).fuel > 0 ==> (old(memory)@[f_val.id as int] matches Node::AstroStruct(st)
            ==> ((has_member(old(memory)@, st.member_names@, "__init__"@) && st.member_names@.len() <= st.struct_memory@.len()
                ==> (r matches Ok(v) && v.id == old(memory)@.len()))
            && (!has_member(old(memory)@, st.member_names@, "__init__"@) && ctor_args(old(memory)@, arg_val) is None
                ==> (r matches Err(e) && raised(final(memory)@, e, "VMError"@))))),
    decreases old(state).fuel,
{
    match spend(state, memory) { Err(e) => return Err(e), Ok(()) => {} }
    let parts = match memory.get(f_val) {
        Node::AstroStruct(x) => Some((copy_refs(&x.member_names), copy_refs(&x.struct_memory))),
        _ => None,
    };
    let (names, cells) = match parts {
        None => return Err(raise("VMError", "apply exp: expected struct.", state, memory)),
        Some(x) => x,
    };
    proof { assert(node_ok(memory@[f_val.id as int], memory@.len(), state.frames@.len())); }
    let ghost m1 = memory@;
    proof { reveal_strlit("__init__"); }
    match first_member(&names, "__init__", memory) {
        Some(slot) => {
            let obj = store(state, memory, Node::AstroObject(AstroObject {
                struct_id: AstroID { name: tag.clone() },
                object_memory: copy_refs(&cells),
            }));
            if slot >= cells.len() {
                return Err(raise("VMError", "apply exp: the structure has no __init__ function.", state, memory));
            }
            let init = cells[slot];
            let ghost s_mid = *state;
            let ghost m_mid = memory@;
            let rc = handle_call(obj, init, arg_val, state, memory);
            proof {
                assert(call_post(s_mid, m_mid, obj, init, arg_val, *state, memory@, rc));
                assert(s_mid == (State { fuel: (old(state).fuel - 1) as u64, ..*old(state) }));
                assert(m_mid.subrange(0, m1.len() as int) =~= m1);
                assert(m1 == old(memory)@);
                assert(obj == NodeRef { id: m1.len() as usize });
                let x = match m1[f_val.id as int] { Node::AstroStruct(x) => x, _ => arbitrary() };
                assert(names@ == x.member_names@ && cells@ == x.struct_memory@);
                assert(first_slot(m1, names@, "__init__"@, slot as int));
                assert forall|k: int| #[trigger] first_slot(m1, x.member_names@, "__init__"@, k) && k < x.struct_memory@.len() implies
                    init_called(State { fuel: (old(state).fuel - 1) as u64, ..*old(state) }, m1, tag@, x.struct_memory@,
                        x.struct_memory@[k], arg_val, *state, memory@) by {
                    if k < slot {
                        assert(id_at(m1, names@[k]) == Some("__init__"@));
                    }
                    if k > slot {
                        assert(id_at(m1, names@[slot as int]) == Some("__init__"@));
                    }
                    assert(k == slot);
                    assert(call_post(State { fuel: (old(state).fuel - 1) as u64, ..*old(state) }, m_mid, NodeRef { id: m1.len() as usize },
                        x.struct_memory@[k], arg_val, *state, memory@, rc));
                }
            }
            return Ok(obj);
        },
        None => {},
    }
    let args = match memory.get(arg_val) {
        Node::AstroTuple(x) => Some(copy_refs(&x.contents)),
        Node::AstroPair(x) => {
            let mut v: Vec<NodeRef> = Vec::new();
            v.push(x.first);
            v.push(x.second);
            Some(v)
        },
        _ => None,
    };
    let args = match args {
        None => return Err(raise("VMError", "apply exp: expected tuple.", state, memory)),
        Some(x) => x,
    };
    proof {
        assert(node_ok(memory@[arg_val.id as int], memory@.len(), state.frames@.len()));
        assert(ctor_args(memory@, arg_val) == Some(args@));
    }
    let d = data_ix_list(&cells, memory);
    if args.len() != d.len() {
        let msg = text4("default constructor expected ", nat_to_string(args.len() as u64).as_str(), " arguments got ",
            nat_to_string(d.len() as u64).as_str());
        return Err(new_exception("ValueError".to_owned(), msg, state, memory));
    }
    let ncells = cells.len();
    proof { lemma_data_indices_order(memory@, cells@, ncells as nat); }
    let mut filled = copy_refs(&cells);
    let mut i: usize = 0;
    while i < d.len()
        invariant
            d@ == data_indices(m1, cells@, cells@.len()),
            args@.len() == d@.len(),
            i <= d@.len(),
            filled@.len() == cells@.len(),
            forall|k: int| 0 <= k < d@.len() ==> #[trigger] d@[k] < cells@.len() && is_data(m1, cells@[d@[k] as int]),
            forall|k1: int, k2: int| 0 <= k1 < k2 < d@.len() ==> #[trigger] d@[k1] < #[trigger] d@[k2],
            forall|j: int| 0 <= j < i ==> filled@[#[trigger] d@[j] as int] == args@[j],
            forall|c: int| 0 <= c < cells@.len() && (forall|j: int| 0 <= j < i ==> #[trigger] d@[j] != c)
                ==> #[trigger] filled@[c] == cells@[c],
        decreases d@.len() - i,
    {
        filled.set(d[i], args[i]);
        i = i + 1;
    }
    proof {
        assert(refs_below(filled@, memory@.len())) by {
            assert forall|c: int| 0 <= c < filled@.len() implies (#[trigger] filled@[c]).id < memory@.len() by {
                if exists|j: int| 0 <= j < d@.len() && #[trigger] d@[j] == c {
                    let j = choose|j: int| 0 <= j < d@.len() && #[trigger] d@[j] == c;
                    assert(filled@[d@[j] as int] == args@[j]);
                }
            }
        }
        assert forall|c: int| 0 <= c < cells@.len() && !is_data(m1, cells@[c]) implies #[trigger] filled@[c] == cells@[c] by {
            assert forall|j: int| 0 <= j < d@.len() implies #[trigger] d@[j] != c by {
                assert(is_data(m1, cells@[d@[j] as int]));
            }
        }
    }
    let obj = store(state, memory, Node::AstroObject(AstroObject {
        struct_id: AstroID { name: tag.clone() },
        object_memory: filled,
    }));
    Ok(obj)
}

/// Data indices point into the cells at data, in increasing order.
pub proof fn lemma_data_indices_order(m: Seq<Node>, cells: Seq<NodeRef>, n: nat)
    requires
        n <= cells.len(),
        cells.len() <= usize::MAX,
    ensures
        forall|k: int| 0 <= k < data_indices(m, cells, n).len()
            ==> #[trigger] data_indices(m, cells, n)[k] < n && is_data(m, cells[data_indices(m, cells, n)[k] as int]),
        forall|k1: int, k2: int| 0 <= k1 < k2 < data_indices(m, cells, n).len()
            ==> #[trigger] data_indices(m, cells, n)[k1] < #[trigger] data_indices(m, cells, n)[k2],
    decreases n,
{
    if n > 0 {
        lemma_data_indices_order(m, cells, (n - 1) as nat);
        let rest = data_indices(m, cells, (n - 1) as nat);
        let d = data_indices(m, cells, n);
        assert(forall|k: int| 0 <= k < rest.len() ==> d[k] == rest[k]);
        if is_data(m, cells[n - 1]) {
            assert(d[rest.len() as int] == (n - 1) as usize);
        }
        assert forall|k1: int, k2: int| 0 <= k1 < k2 < d.len() implies #[trigger] d[k1] < #[trigger] d[k2] by {
            assert(d[k1] == rest[k1]);
            if k2 < rest.len() {
                assert(d[k2] == rest[k2]);
            }
        }
    }
}

/// A call `S(a, ...)` of a variable `S` bound to a structure, on a tuple of
/// values: the name, the structure and the arguments.
pub open spec fn struct_call<H>(s: State<H>, m: Seq<Node>, node: NodeRef) -> Option<(Seq<char>, NodeRef, Seq<NodeRef>)> {
    match apply_parts(m, node) {
        Some((f, a)) => match id_at(m, f) {
            Some(tag) => if op_of(tag) is None {
                match s.lookup_spec(tag) {
                    Some(st) => match tuple_at(m, a) {
                        Some(args) => if kind_at(m, st) == Kind::Struct && all_values(m, args) {
                            Some((tag, st, args))
                        } else {
                            None
                        },
                        None => None,
                    },
                    None => None,
                }
            } else {
                None
            },
            None => None,
        },
        None => None,
    }
}

/// What constructing an object of the structure `st`, named `tag`, from
/// the arguments `args` gives (see [`construct_object`]).
pub open spec fn construct_result(m0: Seq<Node>, m1: Seq<Node>, st: NodeRef, tag: Seq<char>, args: Seq<NodeRef>,
    r: Result<NodeRef, NodeRef>) -> bool {
    m0[st.id as int] matches Node::AstroStruct(x) ==> {
        let d = data_indices(m0, x.struct_memory@, x.struct_memory@.len());
        &&& !has_member(m0, x.member_names@, "__init__"@) && args.len() == d.len()
            ==> (r matches Ok(v) && default_built(m0, m1, v, tag, x.struct_memory@, args))
        &&& !has_member(m0, x.member_names@, "__init__"@) && args.len() != d.len()
            ==> (r matches Err(e) && raised(m1, e, "ValueError"@))
        &&& has_member(m0, x.member_names@, "__init__"@) && x.member_names@.len() <= x.struct_memory@.len()
            ==> (r matches Ok(v) && v.id == m0.len())
    }
}

/// A call `f(a)` where `f` is a variable, not the name of a built-in
/// operator, bound to a function value, and `a` evaluates as
/// [`operand_value`] says: the function value, the value of the argument,
/// and the budget that evaluating the argument takes.
pub open spec fn call_target<H>(s: State<H>, m: Seq<Node>, node: NodeRef) -> Option<(NodeRef, NodeRef, nat)> {
    match apply_parts(m, node) {
        Some((f, a)) => match id_at(m, f) {
            Some(n) => if op_of(n) is None {
                match s.lookup_spec(n) {
                    Some(fv) => if fv.id < m.len() && kind_at(m, fv) == Kind::FunctionVal {
                        match operand_value(s, m, a) {
                            Some((av, fa)) => Some((fv, av, fa)),
                            None => None,
                        }
                    } else {
                        None
                    },
                    None => None,
                }
            } else {
                None
            },
            None => None,
        },
        None => None,
    }
}

/// A construction `S(a)` where `S` is a variable, not the name of a
/// built-in operator, bound to a structure, and `a` evaluates as
/// [`operand_value`] says: the name, the structure, the value of the
/// argument, and the budget that evaluating the argument takes.
pub open spec fn ctor_target<H>(s: State<H>, m: Seq<Node>, node: NodeRef) -> Option<(Seq<char>, NodeRef, NodeRef, nat)> {
    match apply_parts(m, node) {
        Some((f, a)) => match id_at(m, f) {
            Some(n) => if op_of(n) is None {
                match s.lookup_spec(n) {
                    Some(st) => if st.id < m.len() && kind_at(m, st) == Kind::Struct {
                        match operand_value(s, m, a) {
                            Some((av, fa)) => Some((n, st, av, fa)),
                            None => None,
                        }
                    } else {
                        None
                    },
                    None => None,
                }
            } else {
                None
            },
            None => None,
        },
        None => None,
    }
}

/// Evaluates an application: a built-in operator, a call of a function
/// value, or the construction of an object from a structure.
pub fn apply_exp<H: Host>(node: NodeRef, state: &mut State<H>, memory: &mut Memory) -> (r: Result<NodeRef, NodeRef>)
    requires
        walk_pre(*old(state), old(memory)@, node),
    ensures
        walk_post(*old(state), old(memory)@, *final(state), final(memory)@, r),
        old(state).fuel >= 4 ==> builtin_holds(old(memory)@, final(memory)@, node, r),
        old(state).fuel >= 1 ==> (builtin_value(*old(state), old(memory)@, node, (old(state).fuel - 1) as nat) matches Some((o, f))
            ==> outcome_holds(final(memory)@, r, o)
                && *final(state) == (State { fuel: (old(state).fuel - 1 - f) as u64, ..*old(state) })
                && old(memory)@.len() <= final(memory)@.len()
                && final(memory)@.subrange(0, old(memory)@.len() as int) == old(memory)@),
        operator_call(*old(state), old(memory)@, node) matches Some((op, a, b, f))
            ==> (old(state).fuel > f + 1 ==> operator_result(old(memory)@, final(memory)@, op, a, b, node, r)
                && *final(state) == (State { fuel: (old(state).fuel - 2 - f) as u64, ..*old(state) })
                && old(memory)@.len() <= final(memory)@.len()
                && final(memory)@.subrange(0, old(memory)@.len() as int) == old(memory)@),
        struct_call(*old(state), old(memory)@, node) matches Some((tag, st, args))
            ==> (old(state).fuel > args.len() + 5 ==> construct_result(old(memory)@, final(memory)@, st, tag, args, r)),
        call_target(*old(state), old(memory)@, node) matches Some((fv, av, fa)) ==> (old(state).fuel > fa + 1
            ==> call_post(State { fuel: (old(state).fuel - 2 - fa) as u64, ..*old(state) },
                old(memory)@.push(Node::AstroNone(AstroNone {})), NodeRef { id: old(memory)@.len() as usize },
                fv, av, *final(state), final(memory)@, r)),
        ctor_target(*old(state), old(memory)@, node) matches Some((tag, st, av, fa)) ==> (old(state).fuel > fa + 1
            ==> init_post(State { fuel: (old(state).fuel - 2 - fa) as u64, ..*old(state) }, old(memory)@, tag, st, av,
                *final(state), final(memory)@, r)),
        old(state).fuel >= 2 && (apply_parts(old(memory)@, node) matches Some((f, a)) && kind_at(old(memory)@, f) == Kind::ID)
            && builtin_shape(old(memory)@, node) == Some(Err::<(), ()>(()))
            ==> (r matches Err(e) && raised(final(memory)@, e, "VMError"@)),
        old(state).fuel > 0 && (apply_parts(old(memory)@, node) matches Some((f, a))
            && kind_at(old(memory)@, f) != Kind::ID && kind_at(old(memory)@, f) != Kind::Index && kind_at(old(memory)@, f) != Kind::Apply)
            ==> r == Ok::<NodeRef, NodeRef>(node),
        old(state).fuel > 0 && kind_at(old(memory)@, node) != Kind::Apply
            ==> (r matches Err(e) && raised(final(memory)@, e, "VMError"@)),
    decreases old(state).fuel,
{
    match spend(state, memory) { Err(e) => return Err(e), Ok(()) => {} }
    let parts = match memory.get(node) { Node::AstroApply(x) => Some((x.function, x.argument)), _ => None };
    let (function, argument) = match parts {
        None => return Err(raise("VMError", "walk: expected apply expression in apply_exp().", state, memory)),
        Some(x) => x,
    };
    proof { assert(node_ok(memory@[node.id as int], memory@.len(), state.frames@.len())); }
    let fk = node_kind(memory.get(function));
    if fk == Kind::ID {
        let tag = match memory.get(function) { Node::AstroID(x) => x.name.clone(), _ => String::new() };
        if operator_symbol(tag.as_str()).is_some() {
            proof {
                assert(operator_call(*state, memory@, node) == operator_call(*old(state), old(memory)@, node)) by {
                    assert(memory@ == old(memory)@ || old(state).fuel == 0);
                }
                if old(state).fuel >= 1 {
                    lemma_term_extend(*old(state), old(memory)@, *state, memory@, node, (old(state).fuel - 1) as nat);
                    lemma_term_cost(*old(state), old(memory)@, node, (old(state).fuel - 1) as nat);
                }
            }
            return handle_builtins(node, state, memory);
        }
        let ghost s_f = *state;
        let f_val = match walk(function, state, memory) { Ok(v) => v, Err(e) => return Err(e) };
        proof {
            if let Some((fv, av, fa)) = call_target(*old(state), old(memory)@, node) {
                if old(state).fuel > fa + 1 {
                    assert(f_val == fv && memory@ == old(memory)@);
                    assert(operand_value(*state, memory@, argument) == operand_value(*old(state), old(memory)@, argument));
                }
            }
            if let Some((tg, st, av, fa)) = ctor_target(*old(state), old(memory)@, node) {
                if old(state).fuel > fa + 1 {
                    assert(f_val == st && memory@ == old(memory)@);
                    assert(operand_value(*state, memory@, argument) == operand_value(*old(state), old(memory)@, argument));
                    assert(tag@ == tg);
                }
            }
        }
        let arg_val = match walk(argument, state, memory) { Ok(v) => v, Err(e) => return Err(e) };
        let k = node_kind(memory.get(f_val));
        if k == Kind::FunctionVal {
            let none = store(state, memory, Node::AstroNone(AstroNone {}));
            return handle_call(none, f_val, arg_val, state, memory);
        } else if k == Kind::Struct {
            return construct_object(&tag, f_val, arg_val, state, memory);
        }
        Ok(node)
    } else if fk == Kind::Index {
        let idx = match memory.get(function) { Node::AstroIndex(x) => Some((x.structure, x.index_exp)), _ => None };
        let (s, ix) = match idx {
            Some(x) => x,
            None => return Ok(node),
        };
        proof { assert(node_ok(memory@[function.id as int], memory@.len(), state.frames@.len())); }
        let f_val = match walk(ix, state, memory) { Ok(v) => v, Err(e) => return Err(e) };
        let arg_val = match walk(s, state, memory) { Ok(v) => v, Err(e) => return Err(e) };
        if node_kind(memory.get(f_val)) == Kind::FunctionVal {
            let none = store(state, memory, Node::AstroNone(AstroNone {}));
            return handle_call(none, f_val, arg_val, state, memory);
        }
        Ok(node)
    } else if fk == Kind::Apply {
        let result = match walk(function, state, memory) { Ok(v) => v, Err(e) => return Err(e) };
        apply_exp(result, state, memory)
    } else {
        Ok(node)
    }
}

/// What an index expression `v[i]` reads where `v` is a variable bound to
/// a list and `i` an integer: `Some(Ok(item))` within the list,
/// `Some(Err(()))` outside it.
pub open spec fn bound_list_item<H>(s: State<H>, m: Seq<Node>, node: NodeRef) -> Option<Result<NodeRef, ()>> {
    match index_parts(m, node) {
        Some((st, ix)) => match id_at(m, st) {
            Some(n) => match s.lookup_spec(n) {
                Some(l) => match (list_at(m, l), int_at(m, ix)) {
                    (Some(items), Some(i)) => if 0 <= i < items.len() { Some(Ok(items[i])) } else { Some(Err(())) },
                    _ => None,
                },
                None => None,
            },
            None => None,
        },
        None => None,
    }
}

/// The parts of an index expression: the structure and the index.
pub open spec fn index_parts(m: Seq<Node>, node: NodeRef) -> Option<(NodeRef, NodeRef)> {
    match m[node.id as int] {
        Node::AstroIndex(x) => Some((x.structure, x.index_exp)),
        _ => None,
    }
}

/// Evaluates `structure[ix]` (see [`read_at_ix`]).
pub fn index_exp<H: Host>(node: NodeRef, state: &mut State<H>, memory: &mut Memory) -> (r: Result<NodeRef, NodeRef>)
    requires
        walk_pre(*old(state), old(memory)@, node),
    ensures
        walk_post(*old(state), old(memory)@, *final(state), final(memory)@, r),
        old(state).fuel >= 4 ==> (index_parts(old(memory)@, node) matches Some((s, ix))
            ==> (id_at(old(memory)@, s) matches Some(n) ==> (old(state).lookup_spec(n) matches Some(l)
            ==> (list_at(old(memory)@, l) matches Some(items) ==> (int_at(old(memory)@, ix) matches Some(i)
            ==> ((0 <= i < items.len() ==> r == Ok::<NodeRef, NodeRef>(items[i]))
                && (!(0 <= i < items.len()) ==> (r matches Err(e) && raised(final(memory)@, e, "ValueError"@))))))))),
        old(state).fuel >= 4 ==> (index_parts(old(memory)@, node) matches Some((s, ix)) ==> (id_at(old(memory)@, s) is Some
            ==> (read_target(*old(state), old(memory)@, s) matches Some(l) ==> (items_any(old(memory)@, l) matches Some(items)
            ==> (int_term(*old(state), old(memory)@, ix, (old(state).fuel - 3) as nat) matches Some((i, fi))
            ==> item_read(final(memory)@, items, i, r)))))),
        old(state).fuel >= 6 ==> (index_parts(old(memory)@, node) matches Some((s, ix)) ==> (id_at(old(memory)@, s) is Some
            ==> (object_member(*old(state), old(memory)@, s, ix) matches Some(v)
            ==> r == Ok::<NodeRef, NodeRef>(v) && final(memory)@.subrange(0, old(memory)@.len() as int) == old(memory)@))),
        old(state).fuel > 0 && kind_at(old(memory)@, node) != Kind::Index
            ==> (r matches Err(e) && raised(final(memory)@, e, "VMError"@)),
    decreases old(state).fuel,
{
    match spend(state, memory) { Err(e) => return Err(e), Ok(()) => {} }
    let parts = match memory.get(node) { Node::AstroIndex(x) => Some((x.structure, x.index_exp)), _ => None };
    let (s, ix) = match parts {
        None => return Err(raise("VMError", "walk: expected index expression in index_exp().", state, memory)),
        Some(x) => x,
    };
    proof { assert(node_ok(memory@[node.id as int], memory@.len(), state.frames@.len())); }
    let sv = match walk(s, state, memory) { Ok(v) => v, Err(e) => return Err(e) };
    proof {
        if old(state).fuel >= 4 && id_at(old(memory)@, s) is Some && read_target(*old(state), old(memory)@, s) is Some {
            lemma_term_extend(*old(state), old(memory)@, *state, memory@, ix, (old(state).fuel - 3) as nat);
        }
    }
    read_at_ix(sv, ix, state, memory)
}

/// The pattern and the term of an `is` expression.
pub open spec fn is_parts(m: Seq<Node>, node: NodeRef) -> Option<(NodeRef, NodeRef)> {
    match m[node.id as int] {
        Node::AstroIs(x) => Some((x.pattern, x.term)),
        _ => None,
    }
}

/// Evaluates `term is pattern`: whether the term's value matches the
/// pattern; the bindings of a match are made in the current scope.
pub fn is_exp<H: Host>(node: NodeRef, state: &mut State<H>, memory: &mut Memory) -> (r: Result<NodeRef, NodeRef>)
    requires
        walk_pre(*old(state), old(memory)@, node),
    ensures
        walk_post(*old(state), old(memory)@, *final(state), final(memory)@, r),
        r matches Ok(v) ==> bool_at(final(memory)@, v) is Some,
        old(state).fuel >= 3 ==> (is_parts(old(memory)@, node) matches Some((p, t)) ==> (is_value_kind(kind_at(old(memory)@, t)) ==> ({
            let rule = unify_rule(kind_at(old(memory)@, t), kind_at(old(memory)@, p), true);
            let same = primitive_same(old(memory)@[t.id as int], old(memory)@[p.id as int]);
            &&& rule == Rule::Id ==> (r matches Ok(v) && bool_at(final(memory)@, v) == Some(true))
            &&& rule == Rule::Primitive && same is Some ==> (r matches Ok(v) && bool_at(final(memory)@, v) == same)
        }))),
        old(state).fuel >= 4 ==> (is_parts(old(memory)@, node) matches Some((p, t)) ==> (is_value_kind(kind_at(old(memory)@, t))
            ==> (id_at(old(memory)@, p) matches Some(n) ==> (n != "_"@ && n != "this"@ && !names_has(inner_globals(*old(state)), n)
            ==> final(state).lookup_spec(n) == Some(t))))),
        old(state).fuel >= 3 ==> (is_parts(old(memory)@, node) matches Some((p, t)) ==> (is_value_kind(kind_at(old(memory)@, t))
            && leaf_match(old(memory)@, t, p, true) == Some(None::<Seq<(NodeRef, NodeRef)>>)
            ==> (r matches Ok(v) && bool_at(final(memory)@, v) == Some(false)
                && *final(state) == (State { fuel: (old(state).fuel - 3) as u64, ..*old(state) })))),
        old(state).fuel >= 1 ==> (is_parts(old(memory)@, node) matches Some((p, t))
            ==> (term_value(*old(state), old(memory)@, t, (old(state).fuel - 1) as nat) matches Some((o, f))
            ==> (!(o is Raise) && old(state).fuel >= f + 3 && is_var_pattern(*old(state), old(memory)@, p)
            ==> (r matches Ok(v) && bool_at(final(memory)@, v) == Some(true)
                && (final(state).lookup_spec(id_at(old(memory)@, p).unwrap()) matches Some(w)
                && outcome_holds(final(memory)@, Ok::<NodeRef, NodeRef>(w), o)))))),
        old(state).fuel >= 2 ==> (is_parts(old(memory)@, node) matches Some((p, t))
            ==> (is_value_kind(kind_at(old(memory)@, t)) ==> r is Ok)),
        old(state).fuel >= 1 ==> (is_parts(old(memory)@, node) matches Some((p, t))
            ==> (term_value(*old(state), old(memory)@, t, (old(state).fuel - 1) as nat) matches Some((o, f))
            ==> (!(o is Raise) ==> r is Ok))),
        old(state).fuel > 0 && kind_at(old(memory)@, node) != Kind::Is
            ==> (r matches Err(e) && raised(final(memory)@, e, "VMError"@)),
    decreases old(state).fuel,
{
    match spend(state, memory) { Err(e) => return Err(e), Ok(()) => {} }
    let parts = match memory.get(node) { Node::AstroIs(x) => Some((x.pattern, x.term)), _ => None };
    let (pattern, term) = match parts {
        None => return Err(raise("VMError", "walk: expected is expression in is_exp().", state, memory)),
        Some(x) => x,
    };
    proof { assert(node_ok(memory@[node.id as int], memory@.len(), state.frames@.len())); }
    let ghost tvo = term_value(*old(state), old(memory)@, term, (old(state).fuel - 1) as nat);
    let ghost compound = old(state).fuel >= 1 && tvo is Some && !(tvo.unwrap().0 is Raise)
        && old(state).fuel >= tvo.unwrap().1 + 3 && is_var_pattern(*old(state), old(memory)@, pattern);
    proof {
        if old(state).fuel >= 1 && tvo is Some {
            lemma_term_extend(*old(state), old(memory)@, *state, memory@, term, (old(state).fuel - 1) as nat);
        }
    }
    let tv = match walk(term, state, memory) { Ok(v) => v, Err(e) => return Err(e) };
    let ghost m_t = memory@;
    proof {
        if compound {
            assert(memory@[pattern.id as int] == memory@.subrange(0, old(memory)@.len() as int)[pattern.id as int]);
        }
    }
    match unify(tv, pattern, state, memory, true) {
        Err(_) => Ok(store(state, memory, Node::AstroBool(AstroBool { value: false }))),
        Ok(u) => {
            proof {
                if compound {
                    let n = id_at(old(memory)@, pattern).unwrap();
                    assert(u@ == seq![(pattern, tv)]);
                    assert(crate::index::plain_bindings(memory@, u@));
                    assert(crate::index::last_binding(memory@, u@, n, u@.len()) == Some(tv));
                }
            }
            proof {
                if old(state).fuel >= 4 && is_value_kind(kind_at(old(memory)@, term)) {
                    if let Some(n) = id_at(old(memory)@, pattern) {
                        if n != "_"@ && n != "this"@ {
                            assert(u@ == seq![(pattern, term)]);
                            assert(crate::index::plain_bindings(memory@, u@));
                            assert(crate::index::last_binding(memory@, u@, n, u@.len()) == Some(term));
                        }
                    }
                }
            }
            let _ = declare_unifiers(&u, state, memory);
            let ghost m_d = memory@;
            let b = store(state, memory, Node::AstroBool(AstroBool { value: true }));
            proof {
                if compound {
                    assert(outcome_holds(m_t, Ok::<NodeRef, NodeRef>(tv), tvo.unwrap().0));
                    assert(m_d == m_t);
                    assert(memory@.subrange(0, m_t.len() as int) =~= m_t);
                    lemma_outcome_extend(m_t, memory@, Ok::<NodeRef, NodeRef>(tv), tvo.unwrap().0);
                }
            }
            Ok(b)
        },
    }
}

/// Whether the term equals one of the items (see [`same_node`]).
pub fn contains_term<H: Host>(v: NodeRef, items: &Vec<NodeRef>, memory: &Memory) -> (b: bool)
    requires
        exists|nf: nat| mem_ok(memory@, nf),
    ensures
        (exists|i: int| 0 <= i < items@.len() && #[trigger] same_node(memory@, v, items@[i], memory@.len()) == Some(true)) ==> b,
        (forall|i: int| 0 <= i < items@.len() ==> #[trigger] same_node(memory@, v, items@[i], memory@.len()) == Some(false)) ==> !b,
{
    let depth = memory.len();
    let mut i: usize = 0;
    while i < items.len()
        invariant
            i <= items@.len(),
            depth == memory@.len(),
            exists|nf: nat| mem_ok(memory@, nf),
            forall|j: int| 0 <= j < i ==> #[trigger] same_node(memory@, v, items@[j], memory@.len()) != Some(true),
        decreases items@.len() - i,
    {
        if node_equal::<H>(v, items[i], memory, depth) {
            proof {
                if same_node(memory@, v, items@[i as int], memory@.len()) == Some(false) {
                    assert(false);
                }
            }
            return true;
        }
        i = i + 1;
    }
    proof {
        if exists|i: int| 0 <= i < items@.len() && #[trigger] same_node(memory@, v, items@[i], memory@.len()) == Some(true) {
            let k = choose|i: int| 0 <= i < items@.len() && #[trigger] same_node(memory@, v, items@[i], memory@.len()) == Some(true);
            assert(false);
        }
    }
    false
}

/// What `e in l` gives on the values `ev` and `lv`: whether `ev` equals an
/// item of the list `lv`, or an error where `lv` is not a list.
pub open spec fn in_result(m0: Seq<Node>, m1: Seq<Node>, ev: NodeRef, lv: NodeRef, r: Result<NodeRef, NodeRef>) -> bool {
    &&& list_at(m0, lv) matches Some(items) ==> (r matches Ok(v)
        && ((exists|i: int| 0 <= i < items.len() && #[trigger] same_node(m0, ev, items[i], m0.len()) == Some(true))
            ==> bool_at(m1, v) == Some(true))
        && ((forall|i: int| 0 <= i < items.len() ==> #[trigger] same_node(m0, ev, items[i], m0.len()) == Some(false))
            ==> bool_at(m1, v) == Some(false)))
    &&& list_at(m0, lv) is None ==> (r matches Err(e) && exception_parts(m1, e)
        == Some(("VMError"@, "right argument to in operator has to be a list."@)))
}

/// The expression and the list of an `in` expression.
pub open spec fn in_parts(m: Seq<Node>, node: NodeRef) -> Option<(NodeRef, NodeRef)> {
    match m[node.id as int] {
        Node::AstroIn(x) => Some((x.expression, x.expression_list)),
        _ => None,
    }
}

/// Evaluates `e in l`: whether the value of `e` equals an item of the list
/// `l` evaluates to.
pub fn in_exp<H: Host>(node: NodeRef, state: &mut State<H>, memory: &mut Memory) -> (r: Result<NodeRef, NodeRef>)
    requires
        walk_pre(*old(state), old(memory)@, node),
    ensures
        walk_post(*old(state), old(memory)@, *final(state), final(memory)@, r),
        r matches Ok(v) ==> bool_at(final(memory)@, v) is Some,
        old(state).fuel >= 3 ==> (in_parts(old(memory)@, node) matches Some((x, l)) ==> (is_value_kind(kind_at(old(memory)@, x))
            ==> (id_at(old(memory)@, l) matches Some(n) ==> (old(state).lookup_spec(n) matches Some(lv) ==> ({
            let m0 = old(memory)@;
            &&& list_at(m0, lv) matches Some(items) ==> (r matches Ok(v)
                && ((exists|i: int| 0 <= i < items.len() && #[trigger] same_node(m0, x, items[i], m0.len()) == Some(true))
                    ==> bool_at(final(memory)@, v) == Some(true))
                && ((forall|i: int| 0 <= i < items.len() ==> #[trigger] same_node(m0, x, items[i], m0.len()) == Some(false))
                    ==> bool_at(final(memory)@, v) == Some(false)))
            &&& list_at(m0, lv) is None ==> (r matches Err(e) && raised(final(memory)@, e, "VMError"@))
        }))))),
        in_parts(old(memory)@, node) matches Some((x, l)) ==> (operand_value(*old(state), old(memory)@, x) matches Some((ev, fa))
            ==> (operand_value(*old(state), old(memory)@, l) matches Some((lv, fb)) ==> (old(state).fuel > fa + fb
            ==> in_result(old(memory)@, final(memory)@, ev, lv, r)))),
        old(state).fuel > 0 && kind_at(old(memory)@, node) != Kind::In
            ==> (r matches Err(e) && raised(final(memory)@, e, "VMError"@)),
    decreases old(state).fuel,
{
    match spend(state, memory) { Err(e) => return Err(e), Ok(()) => {} }
    let parts = match memory.get(node) { Node::AstroIn(x) => Some((x.expression, x.expression_list)), _ => None };
    let (exp, list) = match parts {
        None => return Err(raise("VMError", "walk: expected in expression in in_exp().", state, memory)),
        Some(x) => x,
    };
    proof { assert(node_ok(memory@[node.id as int], memory@.len(), state.frames@.len())); }
    let ghost s1 = *state;
    let ev = match walk(exp, state, memory) { Ok(v) => v, Err(e) => return Err(e) };
    proof {
        if let Some((ev0, fa)) = operand_value(*old(state), old(memory)@, exp) {
            if let Some((lv0, fb)) = operand_value(*old(state), old(memory)@, list) {
                if old(state).fuel > fa + fb {
                    assert(memory@ == old(memory)@);
                    assert(state.frames == s1.frames && state.scopes == s1.scopes);
                    assert(operand_value(*state, memory@, list) == operand_value(*old(state), old(memory)@, list));
                }
            }
        }
    }
    let lv = match walk(list, state, memory) { Ok(v) => v, Err(e) => return Err(e) };
    let items = match memory.get(lv) { Node::AstroList(x) => Some(copy_refs(&x.contents)), _ => None };
    let items = match items {
        None => return Err(raise("VMError", "right argument to in operator has to be a list.", state, memory)),
        Some(x) => x,
    };
    proof { assert(crate::memory::mem_ok(memory@, state.frames@.len())); }
    let found = contains_term::<H>(ev, &items, memory);
    Ok(store(state, memory, Node::AstroBool(AstroBool { value: found })))
}

} // verus!
