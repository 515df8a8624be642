//! Indexing into lists, tuples, strings and objects, and binding the
//! unifiers of a match.

use vstd::prelude::*;
use crate::ast::{Node, NodeRef, Kind, node_kind, node_ok, refs_below, peek, AstroList, AstroTuple, AstroObject, AstroID, AstroString};
use crate::memory::Memory;
use crate::state::{State, str_eq, names_has};
use crate::host::{Host, env_ok, steps, result_ok, unifiers_ok, walk_post};
use crate::exception::{raise, new_exception, spend, store, raised, exception_parts, text2, text3, text4};
use crate::support::int_text;
use crate::unify::{kind_at, copy_refs, id_at, list_at, string_at, var_list, zip_unifiers};
use crate::walk::{walk, int_at, index_parts, int_term, lemma_term_extend, lemma_term_cost, operand_value};

verus! {

/// The member of the structure named `tag`: the last member of that name,
/// or the first member where none has it.
pub open spec fn member_slot(m: Seq<Node>, names: Seq<NodeRef>, tag: Seq<char>, n: nat) -> nat
    decreases n,
{
    if n == 0 {
        0
    } else if names[n - 1].id < m.len() && id_at(m, names[n - 1]) == Some(tag) {
        (n - 1) as nat
    } else {
        member_slot(m, names, tag, (n - 1) as nat)
    }
}

/// Finds the slot of a member by name.
fn find_member(names: &Vec<NodeRef>, tag: &str, memory: &Memory) -> (r: usize)
    ensures
        r == member_slot(memory@, names@, tag@, names@.len()),
{
    let mut found: usize = 0;
    let mut i: usize = 0;
    while i < names.len()
        invariant
            i <= names@.len(),
            found == member_slot(memory@, names@, tag@, i as nat),
        decreases names@.len() - i,
    {
        let r = names[i];
        if r.id < memory.len() {
            let is_tag = match memory.get(r) { Node::AstroID(x) => str_eq(x.name.as_str(), tag), _ => false };
            if is_tag {
                found = i;
            }
        }
        i = i + 1;
    }
    found
}

/// The slot of member `tag` in the objects of the structure that `sname`
/// is bound to: that of the last member name that is `tag`, else the first.
pub open spec fn struct_slot<H>(s: State<H>, m: Seq<Node>, sname: Seq<char>, tag: Seq<char>) -> Option<nat> {
    match s.lookup_spec(sname) {
        Some(d) => match m[d.id as int] {
            Node::AstroStruct(st) => Some(member_slot(m, st.member_names@, tag, st.member_names@.len())),
            _ => None,
        },
        None => None,
    }
}

/// The slot of a member depends only on the nodes of the member names.
proof fn lemma_member_slot_same(m0: Seq<Node>, m1: Seq<Node>, names: Seq<NodeRef>, tag: Seq<char>, n: nat)
    requires
        n <= names.len(),
        forall|k: int| 0 <= k < n ==> (#[trigger] names[k]).id < m0.len() && names[k].id < m1.len()
            && id_at(m1, names[k]) == id_at(m0, names[k]),
    ensures
        member_slot(m1, names, tag, n) == member_slot(m0, names, tag, n),
        n > 0 ==> member_slot(m0, names, tag, n) < n,
    decreases n,
{
    if n > 0 {
        lemma_member_slot_same(m0, m1, names, tag, (n - 1) as nat);
        assert(names[n - 1].id < m0.len());
    }
}

/// Looks up the structure of an object and the slot of its member `tag`.
fn object_slot<H: Host>(struct_name: &String, tag: &String, state: &mut State<H>, memory: &mut Memory) -> (r: Result<usize, NodeRef>)
    requires
        env_ok(*old(state), old(memory)@),
    ensures
        steps(*old(state), old(memory)@, *final(state), final(memory)@),
        r matches Err(e) ==> e.id < final(memory)@.len(),
        old(state).fuel == 0 ==> r is Err,
        old(state).fuel >= 2 ==> (struct_slot(*old(state), old(memory)@, struct_name@, tag@) matches Some(k)
            ==> k <= usize::MAX && r == Ok::<usize, NodeRef>(k as usize)
                && final(memory)@.subrange(0, old(memory)@.len() as int) == old(memory)@
                && final(state).lookup_spec(struct_name@) == old(state).lookup_spec(struct_name@)),
    decreases old(state).fuel,
{
    let ghost m0 = memory@;
    match spend(state, memory) { Err(e) => return Err(e), Ok(()) => {} }
    let id = store(state, memory, Node::AstroID(AstroID { name: struct_name.clone() }));
    let data = match walk(id, state, memory) {
        Ok(v) => v,
        Err(e) => return Err(e),
    };
    proof {
        if old(state).fuel >= 2 {
            if let Some(k) = struct_slot(*old(state), m0, struct_name@, tag@) {
                let d = old(state).lookup_spec(struct_name@).unwrap();
                assert(memory@.len() == m0.len() + 1);
                assert(forall|j: int| 0 <= j < m0.len() ==> memory@[j] == m0[j]);
                assert(data == d);
                crate::state::lemma_lookup_below(*old(state), struct_name@, m0.len());
                assert(d.id < m0.len());
                assert(memory@[d.id as int] == m0[d.id as int]);
                assert(node_ok(m0[d.id as int], m0.len(), old(state).frames@.len()));
                let st = match m0[d.id as int] { Node::AstroStruct(st) => st, _ => arbitrary() };
                assert forall|k: int| 0 <= k < st.member_names@.len() implies (#[trigger] st.member_names@[k]).id < m0.len()
                    && st.member_names@[k].id < memory@.len() && id_at(memory@, st.member_names@[k]) == id_at(m0, st.member_names@[k]) by {
                    assert(refs_below(st.member_names@, m0.len()));
                }
                lemma_member_slot_same(m0, memory@, st.member_names@, tag@, st.member_names@.len());
                assert(memory@.subrange(0, m0.len() as int) =~= m0);
            }
        }
    }
    let names = match memory.get(data) { Node::AstroStruct(x) => Some(copy_refs(&x.member_names)), _ => None };
    match names {
        None => Err(raise("VMError", "index: expected struct.", state, memory)),
        Some(names) => Ok(find_member(&names, tag.as_str(), memory)),
    }
}

/// The structure that an index expression reads: the value that a
/// variable is bound to, or the node itself where it is not a variable.
pub open spec fn read_target<H>(s: State<H>, m: Seq<Node>, r: NodeRef) -> Option<NodeRef> {
    match id_at(m, r) {
        Some(n) => s.lookup_spec(n),
        None => Some(r),
    }
}

/// The evaluation budget that reading an item through [`read_target`]
/// takes.
pub open spec fn read_cost(m: Seq<Node>, r: NodeRef) -> nat {
    if id_at(m, r) is Some { 3 } else { 2 }
}

/// The result of reading item `i` of the items of a list or tuple: the
/// item, or a `ValueError` where `i` lies outside them.
pub open spec fn item_read(m: Seq<Node>, items: Seq<NodeRef>, i: int, r: Result<NodeRef, NodeRef>) -> bool {
    &&& 0 <= i < items.len() ==> r == Ok::<NodeRef, NodeRef>(items[i])
    &&& !(0 <= i < items.len()) ==> (r matches Err(e)
        && exception_parts(m, e) == Some(("ValueError"@, "index out of range: "@ + int_text(i))))
}

/// The member that `ix` names of the object that `r` reads as (see
/// [`read_target`]), where the object's structure declares it.
pub open spec fn object_member<H>(s: State<H>, m: Seq<Node>, r: NodeRef, ix: NodeRef) -> Option<NodeRef> {
    match read_target(s, m, r) {
        Some(sv) => match m[sv.id as int] {
            Node::AstroObject(o) => match (id_at(m, ix), struct_slot(s, m, o.struct_id.name@, id_at(m, ix).unwrap_or(Seq::empty()))) {
                (Some(tag), Some(k)) => if k < o.object_memory@.len() { Some(o.object_memory@[k as int]) } else { None },
                _ => None,
            },
            _ => None,
        },
        None => None,
    }
}

/// The list or tuple that a nested index expression `v[j]` picks out,
/// where `v` reads (see [`read_target`]) as a list or tuple and `j` is an
/// integer within it.
pub open spec fn nested_target<H>(s: State<H>, m: Seq<Node>, structure: NodeRef) -> Option<NodeRef> {
    match index_parts(m, structure) {
        Some((v, j)) => match read_target(s, m, v) {
            Some(l) => match (items_any(m, l), int_at(m, j)) {
                (Some(items), Some(k)) => if 0 <= k < items.len() && items_any(m, items[k]) is Some {
                    Some(items[k])
                } else {
                    None
                },
                _ => None,
            },
            None => None,
        },
        None => None,
    }
}

/// The character at a position of a string, as a new string.
fn char_at(s: &String, i: usize) -> (r: Option<String>)
    ensures
        i < s@.len() ==> (r matches Some(t) && t@ == seq![s@[i as int]]),
        i >= s@.len() ==> r is None,
{
    let n = s.as_str().unicode_len();
    if i < n {
        let sub = s.as_str().substring_char(i, i + 1);
        assert(sub@ =~= seq![s@[i as int]]);
        Some(sub.to_owned())
    } else {
        None
    }
}

/// Reads `structure[ix]`: an item of a list or tuple (by an integer index),
/// a character of a string (as a new string), or a member of an object (by
/// its name). A variable is first evaluated, and so is the index except for
/// objects. Other structures, and lists indexed by a non-integer, are given
/// back as they are.
#[verifier::rlimit(80)]
pub fn read_at_ix<H: Host>(structure_val: NodeRef, ix: NodeRef, state: &mut State<H>, memory: &mut Memory) -> (r: Result<NodeRef, NodeRef>)
    requires
        env_ok(*old(state), old(memory)@),
        structure_val.id < old(memory)@.len(),
        ix.id < old(memory)@.len(),
    ensures
        walk_post(*old(state), old(memory)@, *final(state), final(memory)@, r),
        old(state).fuel >= 2 ==> (list_at(old(memory)@, structure_val) matches Some(items) ==> (int_at(old(memory)@, ix) matches Some(i)
            ==> ((0 <= i < items.len() ==> r == Ok::<NodeRef, NodeRef>(items[i]) && final(memory)@ == old(memory)@)
                && (!(0 <= i < items.len()) ==> (r matches Err(e) && raised(final(memory)@, e, "ValueError"@)))))),
        old(state).fuel >= 3 ==> (read_target(*old(state), old(memory)@, structure_val) matches Some(sv)
            ==> (items_any(old(memory)@, sv) matches Some(items) ==> (int_at(old(memory)@, ix) matches Some(i)
            ==> ((0 <= i < items.len() ==> r == Ok::<NodeRef, NodeRef>(items[i]) && final(memory)@ == old(memory)@
                    && *final(state) == (State { fuel: (old(state).fuel - read_cost(old(memory)@, structure_val)) as u64, ..*old(state) }))
                && (!(0 <= i < items.len()) ==> (r matches Err(e) && exception_parts(final(memory)@, e)
                    == Some(("ValueError"@, "index out of range: "@ + int_text(i))))))))),
        old(state).fuel >= read_cost(old(memory)@, structure_val) ==> (read_target(*old(state), old(memory)@, structure_val) matches Some(sv)
            ==> (items_any(old(memory)@, sv) matches Some(items)
            ==> (int_term(*old(state), old(memory)@, ix, (old(state).fuel + 1 - read_cost(old(memory)@, structure_val)) as nat) matches Some((i, fi))
            ==> item_read(final(memory)@, items, i, r)))),
        old(state).fuel >= 4 ==> (object_member(*old(state), old(memory)@, structure_val, ix) matches Some(v)
            ==> r == Ok::<NodeRef, NodeRef>(v) && final(memory)@.subrange(0, old(memory)@.len() as int) == old(memory)@),
        old(state).fuel >= 3 ==> (read_target(*old(state), old(memory)@, structure_val) matches Some(sv)
            ==> (string_at(old(memory)@, sv) matches Some(text) ==> (int_at(old(memory)@, ix) matches Some(i)
            ==> ((0 <= i < text.len() ==> (r matches Ok(v) && string_at(final(memory)@, v) == Some(seq![text[i]])))
                && (!(0 <= i < text.len()) ==> (r matches Err(e) && exception_parts(final(memory)@, e)
                    == Some(("ValueError"@, "String '"@ + text + "' too short for index value "@ + int_text(i))))))))),
        old(state).fuel >= 4 ==> (read_target(*old(state), old(memory)@, structure_val) matches Some(sv)
            ==> (old(memory)@[sv.id as int] matches Node::AstroObject(o)
            ==> (id_at(old(memory)@, ix) matches Some(tag)
            ==> (struct_slot(*old(state), old(memory)@, o.struct_id.name@, tag) matches Some(k)
            ==> (k < o.object_memory@.len() ==> r == Ok::<NodeRef, NodeRef>(o.object_memory@[k as int])))))),
        old(state).fuel >= 3 ==> (old(memory)@[structure_val.id as int] matches Node::AstroObject(o)
            ==> (id_at(old(memory)@, ix) matches Some(tag)
            ==> (struct_slot(*old(state), old(memory)@, o.struct_id.name@, tag) matches Some(k)
            ==> ((k < o.object_memory@.len() ==> r == Ok::<NodeRef, NodeRef>(o.object_memory@[k as int]))
                && (k >= o.object_memory@.len() ==> (r matches Err(e) && raised(final(memory)@, e, "VMError"@))))))),
    decreases old(state).fuel,
{
    let ghost budget = (old(state).fuel + 1 - read_cost(old(memory)@, structure_val)) as nat;
    let ghost it = int_term(*old(state), old(memory)@, ix, budget);
    match spend(state, memory) { Err(e) => return Err(e), Ok(()) => {} }
    let mut sv = structure_val;
    if node_kind(memory.get(sv)) == Kind::ID {
        sv = match walk(sv, state, memory) { Ok(v) => v, Err(e) => return Err(e) };
    }
    let sk = node_kind(memory.get(sv));
    proof {
        if old(state).fuel >= read_cost(old(memory)@, structure_val) && it is Some
            && read_target(*old(state), old(memory)@, structure_val) is Some {
            lemma_term_extend(*old(state), old(memory)@, *state, memory@, ix, budget);
            lemma_term_cost(*old(state), old(memory)@, ix, budget);
        }
    }
    let ghost m_s = memory@;
    let ixv = if sk != Kind::Object {
        match walk(ix, state, memory) { Ok(v) => v, Err(e) => return Err(e) }
    } else {
        ix
    };
    proof {
        if old(state).fuel >= read_cost(old(memory)@, structure_val) && it is Some
            && read_target(*old(state), old(memory)@, structure_val) is Some && sk != Kind::Object {
            assert(memory@[sv.id as int] == memory@.subrange(0, m_s.len() as int)[sv.id as int]);
        }
    }
    if sk == Kind::List || sk == Kind::Tuple {
        let i = match memory.get(ixv) { Node::AstroInteger(x) => Some(x.value), _ => None };
        if let Some(i) = i {
            let items = match memory.get(sv) {
                Node::AstroList(x) => copy_refs(&x.contents),
                Node::AstroTuple(x) => copy_refs(&x.contents),
                _ => Vec::new(),
            };
            proof { assert(node_ok(memory@[sv.id as int], memory@.len(), state.frames@.len())); }
            if i < 0 || i as usize >= items.len() {
                let msg = text2("index out of range: ", crate::support::int_to_string(i).as_str());
                return Err(new_exception("ValueError".to_owned(), msg, state, memory));
            }
            return Ok(items[i as usize]);
        }
    } else if sk == Kind::Object {
        let obj = match memory.get(sv) {
            Node::AstroObject(x) => Some((x.struct_id.name.clone(), copy_refs(&x.object_memory))),
            _ => None,
        };
        let (struct_name, cells) = match obj {
            Some(x) => x,
            None => return Err(raise("VMError", "read_at_ix: expected object.", state, memory)),
        };
        proof { assert(node_ok(memory@[sv.id as int], memory@.len(), state.frames@.len())); }
        let tag = match memory.get(ixv) { Node::AstroID(x) => Some(x.name.clone()), _ => None };
        let tag = match tag {
            Some(t) => t,
            None => return Err(raise("VMError", "read_at_ix: expected id.", state, memory)),
        };
        proof {
            if old(state).fuel >= 3 && old(memory)@[structure_val.id as int] is AstroObject {
                assert(sv == structure_val && ixv == ix && memory@ == old(memory)@);
                assert(state.lookup_spec(struct_name@) == old(state).lookup_spec(struct_name@));
                assert(struct_slot(*state, memory@, struct_name@, tag@) == struct_slot(*old(state), old(memory)@, struct_name@, tag@));
            }
        }
        let slot = match object_slot(&struct_name, &tag, state, memory) {
            Ok(s) => s,
            Err(e) => return Err(e),
        };
        if slot >= cells.len() {
            return Err(raise("VMError", "read_at_ix: object has no such member.", state, memory));
        }
        return Ok(cells[slot]);
    } else if sk == Kind::String {
        let i = match memory.get(ixv) { Node::AstroInteger(x) => Some(x.value), _ => None };
        let i = match i {
            Some(i) => i,
            None => return Err(raise("VMError", "read_at_ix: expected integer.", state, memory)),
        };
        let text = match memory.get(sv) { Node::AstroString(x) => x.value.clone(), _ => String::new() };
        let c = if i < 0 { None } else { char_at(&text, i as usize) };
        match c {
            Some(c) => return Ok(store(state, memory, Node::AstroString(AstroString { value: c }))),
            None => {
                let msg = text4("String '", text.as_str(), "' too short for index value ", crate::support::int_to_string(i).as_str());
                return Err(new_exception("ValueError".to_owned(), msg, state, memory));
            },
        }
    }
    Ok(sv)
}

/// The items of a list or tuple node.
pub open spec fn items_any(m: Seq<Node>, r: NodeRef) -> Option<Seq<NodeRef>> {
    match m[r.id as int] {
        Node::AstroList(l) => Some(l.contents@),
        Node::AstroTuple(l) => Some(l.contents@),
        _ => None,
    }
}

/// The write of `v` at position `i` of the list or tuple `t` happened, in
/// place and touching no other node, or was refused for an index out of
/// range.
pub open spec fn item_written(m0: Seq<Node>, m1: Seq<Node>, t: NodeRef, i: int, v: NodeRef, r: Result<(), NodeRef>) -> bool {
    let c = items_any(m0, t).unwrap();
    if 0 <= i < c.len() {
        &&& r is Ok
        &&& m1.len() == m0.len()
        &&& kind_at(m1, t) == kind_at(m0, t)
        &&& items_any(m1, t) == Some(c.update(i, v))
        &&& forall|j: int| 0 <= j < m0.len() && j != t.id ==> #[trigger] m1[j] == m0[j]
    } else {
        r matches Err(e) && raised(m1, e, "ValueError"@)
    }
}

/// [`item_written`] where the store may also have grown: item `i` of the
/// list or tuple `t` is now `v` and every other node of the old store is
/// as it was, or a `ValueError` where `i` lies outside the items.
pub open spec fn item_written_grown(m0: Seq<Node>, m1: Seq<Node>, t: NodeRef, i: int, v: NodeRef, r: Result<(), NodeRef>) -> bool {
    let c = items_any(m0, t).unwrap();
    if 0 <= i < c.len() {
        &&& r is Ok
        &&& m0.len() <= m1.len()
        &&& kind_at(m1, t) == kind_at(m0, t)
        &&& items_any(m1, t) == Some(c.update(i, v))
        &&& forall|j: int| 0 <= j < m0.len() && j != t.id ==> #[trigger] m1[j] == m0[j]
    } else {
        r matches Err(e) && raised(m1, e, "ValueError"@)
    }
}

/// Writes `value` at the position given by the evaluated index `ixv` of
/// the list or tuple `target`, in place.
fn set_item<H>(target: NodeRef, ixv: NodeRef, value: NodeRef, state: &mut State<H>, memory: &mut Memory) -> (r: Result<(), NodeRef>)
    requires
        env_ok(*old(state), old(memory)@),
        target.id < old(memory)@.len(),
        ixv.id < old(memory)@.len(),
        value.id < old(memory)@.len(),
        items_any(old(memory)@, target) is Some,
    ensures
        steps(*old(state), old(memory)@, *final(state), final(memory)@),
        *final(state) == *old(state),
        r matches Err(e) ==> e.id < final(memory)@.len(),
        int_at(old(memory)@, ixv) matches Some(i) ==> item_written(old(memory)@, final(memory)@, target, i, value, r),
        int_at(old(memory)@, ixv) is None ==> (r matches Err(e) && raised(final(memory)@, e, "VMError"@)),
{
    let i = match memory.get(ixv) { Node::AstroInteger(x) => Some(x.value), _ => None };
    let i = match i {
        Some(i) => i,
        None => return Err(raise("VMError", "store_at_ix: expected integer.", state, memory)),
    };
    let (items, is_tuple) = match memory.get(target) {
        Node::AstroList(x) => (copy_refs(&x.contents), false),
        Node::AstroTuple(x) => (copy_refs(&x.contents), true),
        _ => (Vec::new(), false),
    };
    if i < 0 || i as usize >= items.len() {
        let msg = text2("index out of range: ", crate::support::int_to_string(i).as_str());
        return Err(new_exception("ValueError".to_owned(), msg, state, memory));
    }
    proof { assert(node_ok(memory@[target.id as int], memory@.len(), state.frames@.len())); }
    let mut items = items;
    items.set(i as usize, value);
    let node = if is_tuple {
        Node::AstroTuple(AstroTuple { contents: items })
    } else {
        Node::AstroList(AstroList { contents: items })
    };
    proof { crate::memory::lemma_mem_ok_update(memory@, state.frames@.len(), target.id as int, node); }
    memory.set(target, node);
    Ok(())
}

/// Writes `value` into cell `slot` of the object `obj`, in place.
fn write_member<H>(obj: NodeRef, slot: usize, value: NodeRef, state: &mut State<H>, memory: &mut Memory) -> (r: Result<(), NodeRef>)
    requires
        env_ok(*old(state), old(memory)@),
        obj.id < old(memory)@.len(),
        value.id < old(memory)@.len(),
    ensures
        steps(*old(state), old(memory)@, *final(state), final(memory)@),
        *final(state) == *old(state),
        r matches Err(e) ==> e.id < final(memory)@.len(),
        old(memory)@[obj.id as int] matches Node::AstroObject(o) ==> (slot < o.object_memory@.len() ==> (r is Ok
            && final(memory)@.len() == old(memory)@.len()
            && (final(memory)@[obj.id as int] matches Node::AstroObject(o2) && o2.struct_id.name@ == o.struct_id.name@
                && o2.object_memory@ == o.object_memory@.update(slot as int, value))
            && forall|j: int| 0 <= j < old(memory)@.len() && j != obj.id ==> #[trigger] final(memory)@[j] == old(memory)@[j])),
        old(memory)@[obj.id as int] matches Node::AstroObject(o) ==> (slot >= o.object_memory@.len()
            ==> (r matches Err(e) && raised(final(memory)@, e, "VMError"@))),
{
    let parts = match memory.get(obj) {
        Node::AstroObject(x) => Some((x.struct_id.name.clone(), copy_refs(&x.object_memory))),
        _ => None,
    };
    let (name, cells) = match parts {
        Some(x) => x,
        None => return Err(raise("VMError", "store_at_ix: expected object.", state, memory)),
    };
    if slot >= cells.len() {
        return Err(raise("VMError", "store_at_ix: object has no such member.", state, memory));
    }
    proof { assert(node_ok(memory@[obj.id as int], memory@.len(), state.frames@.len())); }
    let mut cells = cells;
    cells.set(slot, value);
    let node = Node::AstroObject(AstroObject { struct_id: AstroID { name }, object_memory: cells });
    proof { crate::memory::lemma_mem_ok_update(memory@, state.frames@.len(), obj.id as int, node); }
    memory.set(obj, node);
    Ok(())
}

/// The write of `v` into cell `k` of the object `obj` happened, in place
/// and touching no other node stored before, or was refused for a slot that
/// the object does not have.
pub open spec fn member_written(m0: Seq<Node>, m1: Seq<Node>, obj: NodeRef, k: nat, v: NodeRef, r: Result<(), NodeRef>) -> bool {
    match m0[obj.id as int] {
        Node::AstroObject(o) => if k < o.object_memory@.len() {
            &&& r is Ok
            &&& m0.len() <= m1.len()
            &&& m1[obj.id as int] matches Node::AstroObject(o2) && o2.struct_id.name@ == o.struct_id.name@
                && o2.object_memory@ == o.object_memory@.update(k as int, v)
            &&& forall|j: int| 0 <= j < m0.len() && j != obj.id ==> #[trigger] m1[j] == m0[j]
        } else {
            r matches Err(e) && raised(m1, e, "VMError"@)
        },
        _ => false,
    }
}

/// Writes `value` into the member named by the identifier `ix` of the
/// object `obj`.
fn store_member<H: Host>(obj: NodeRef, ix: NodeRef, value: NodeRef, state: &mut State<H>, memory: &mut Memory) -> (r: Result<(), NodeRef>)
    requires
        env_ok(*old(state), old(memory)@),
        obj.id < old(memory)@.len(),
        ix.id < old(memory)@.len(),
        value.id < old(memory)@.len(),
    ensures
        steps(*old(state), old(memory)@, *final(state), final(memory)@),
        r matches Err(e) ==> e.id < final(memory)@.len(),
        old(state).fuel == 0 ==> r is Err,
        old(state).fuel >= 3 ==> (old(memory)@[obj.id as int] matches Node::AstroObject(o)
            ==> (id_at(old(memory)@, ix) matches Some(tag)
            ==> (struct_slot(*old(state), old(memory)@, o.struct_id.name@, tag) matches Some(k)
            ==> member_written(old(memory)@, final(memory)@, obj, k, value, r)))),
    decreases old(state).fuel,
{
    let ghost m0 = memory@;
    match spend(state, memory) { Err(e) => return Err(e), Ok(()) => {} }
    let tag = match memory.get(ix) { Node::AstroID(x) => Some(x.name.clone()), _ => None };
    let tag = match tag {
        Some(t) => t,
        None => return Err(raise("VMError", "store_at_ix: expected id.", state, memory)),
    };
    let name = match memory.get(obj) { Node::AstroObject(x) => Some(x.struct_id.name.clone()), _ => None };
    let name = match name {
        Some(n) => n,
        None => return Err(raise("VMError", "store_at_ix: expected object.", state, memory)),
    };
    proof {
        if old(state).fuel >= 3 {
            assert(memory@ == m0);
            assert(state.lookup_spec(name@) == old(state).lookup_spec(name@));
        }
    }
    let slot = match object_slot(&name, &tag, state, memory) {
        Ok(s) => s,
        Err(e) => return Err(e),
    };
    let ghost m1 = memory@;
    let r = write_member(obj, slot, value, state, memory);
    proof {
        if old(state).fuel >= 3 && m0[obj.id as int] is AstroObject && id_at(m0, ix) is Some {
            if struct_slot(*old(state), m0, name@, tag@) is Some {
                assert(m1.subrange(0, m0.len() as int) == m0);
                assert(m1[obj.id as int] == m0[obj.id as int]);
                let o = match m0[obj.id as int] { Node::AstroObject(o) => o, _ => arbitrary() };
                if (slot as int) < o.object_memory@.len() {
                    assert forall|j: int| 0 <= j < m0.len() && j != obj.id implies #[trigger] memory@[j] == m0[j] by {
                        assert(m1[j] == m0[j]);
                    }
                }
            }
        }
    }
    r
}

/// Looks up a variable named by the node, where the node is one.
fn resolve_id<H>(r: NodeRef, state: &mut State<H>, memory: &mut Memory) -> (res: Result<NodeRef, NodeRef>)
    requires
        env_ok(*old(state), old(memory)@),
        r.id < old(memory)@.len(),
    ensures
        steps(*old(state), old(memory)@, *final(state), final(memory)@),
        *final(state) == *old(state),
        result_ok(res, final(memory)@),
        id_at(old(memory)@, r) is None ==> res == Ok::<NodeRef, NodeRef>(r) && final(memory)@ == old(memory)@,
        id_at(old(memory)@, r) matches Some(n) ==> (old(state).lookup_spec(n) matches Some(v)
            ==> res == Ok::<NodeRef, NodeRef>(v) && final(memory)@ == old(memory)@),
        id_at(old(memory)@, r) matches Some(n) ==> (old(state).lookup_spec(n) is None
            ==> (res matches Err(e) && exception_parts(final(memory)@, e) == Some(("ValueError"@, "'"@ + n + "' is not defined"@)))),
{
    let name = match memory.get(r) { Node::AstroID(x) => Some(x.name.clone()), _ => None };
    match name {
        None => Ok(r),
        Some(n) => match state.lookup_sym(n.as_str()) {
            Some(v) => Ok(v),
            None => {
                let msg = text3("'", n.as_str(), "' is not defined");
                Err(new_exception("ValueError".to_owned(), msg, state, memory))
            },
        },
    }
}

/// Writes `value` at `structure[ix]`: an item of a list (or, inside a
/// nested index, of a tuple) by an integer index, or a member of an object
/// by its name. The structure is evaluated first, and so is the index of a
/// list or tuple.
#[verifier::rlimit(60)]
pub fn store_at_ix<H: Host>(structure: NodeRef, ix: NodeRef, value: NodeRef, state: &mut State<H>, memory: &mut Memory) -> (r: Result<(), NodeRef>)
    requires
        env_ok(*old(state), old(memory)@),
        structure.id < old(memory)@.len(),
        ix.id < old(memory)@.len(),
        value.id < old(memory)@.len(),
    ensures
        steps(*old(state), old(memory)@, *final(state), final(memory)@),
        r matches Err(e) ==> e.id < final(memory)@.len(),
        old(state).fuel == 0 ==> r is Err,
        old(state).fuel >= 3 ==> (id_at(old(memory)@, structure) matches Some(n)
            ==> (old(state).lookup_spec(n) matches Some(l) ==> (int_at(old(memory)@, ix) matches Some(i)
            ==> (list_at(old(memory)@, l) is Some ==> item_written(old(memory)@, final(memory)@, l, i, value, r))))),
        old(state).fuel >= 5 ==> (id_at(old(memory)@, structure) matches Some(n)
            ==> (old(state).lookup_spec(n) matches Some(l) ==> (old(memory)@[l.id as int] matches Node::AstroObject(o)
            ==> (id_at(old(memory)@, ix) matches Some(tag)
            ==> (struct_slot(*old(state), old(memory)@, o.struct_id.name@, tag) matches Some(k)
            ==> member_written(old(memory)@, final(memory)@, l, k, value, r)))))),
        old(state).fuel >= 5 ==> (nested_target(*old(state), old(memory)@, structure) matches Some(t)
            ==> (int_at(old(memory)@, ix) matches Some(i) ==> item_written(old(memory)@, final(memory)@, t, i, value, r))),
        kind_at(old(memory)@, structure) != Kind::Index ==> (operand_value(*old(state), old(memory)@, structure) matches Some((l, f))
            ==> (old(state).fuel >= f + 2 && list_at(old(memory)@, l) is Some
            ==> (int_term(*old(state), old(memory)@, ix, (old(state).fuel - 1 - f) as nat) matches Some((i, fi))
            ==> item_written_grown(old(memory)@, final(memory)@, l, i, value, r)))),
        old(state).fuel >= 3 ==> (id_at(old(memory)@, structure) matches Some(n) ==> (old(state).lookup_spec(n) matches Some(l)
            ==> (list_at(old(memory)@, l) is Some && int_at(old(memory)@, ix) is Some
            ==> final(state).frames == old(state).frames && final(state).scopes == old(state).scopes))),
    decreases old(state).fuel,
{
    match spend(state, memory) { Err(e) => return Err(e), Ok(()) => {} }
    let nested = match memory.get(structure) { Node::AstroIndex(x) => Some((x.structure, x.index_exp)), _ => None };
    match nested {
        Some((s, idx)) => {
            proof { assert(node_ok(memory@[structure.id as int], memory@.len(), state.frames@.len())); }
            let inner = match read_at_ix(s, idx, state, memory) { Ok(v) => v, Err(e) => return Err(e) };
            let inner = match resolve_id(inner, state, memory) { Ok(v) => v, Err(e) => return Err(e) };
            let ik = node_kind(memory.get(inner));
            if ik == Kind::List || ik == Kind::Tuple {
                let ixv = match walk(ix, state, memory) { Ok(v) => v, Err(e) => return Err(e) };
                if node_kind(memory.get(inner)) != ik {
                    return Err(raise("VMError", "store_at_ix: structure changed while it was indexed.", state, memory));
                }
                set_item(inner, ixv, value, state, memory)
            } else if ik == Kind::Object {
                store_member(inner, ix, value, state, memory)
            } else {
                Ok(())
            }
        },
        None => {
            let sv = match walk(structure, state, memory) { Ok(v) => v, Err(e) => return Err(e) };
            let sk = node_kind(memory.get(sv));
            let ghost m_s = memory@;
            proof {
                if let Some((l, f)) = operand_value(*old(state), old(memory)@, structure) {
                    if old(state).fuel >= f + 2 && list_at(old(memory)@, l) is Some {
                        assert(sv == l && memory@ == old(memory)@);
                        lemma_term_extend(*old(state), old(memory)@, *state, memory@, ix, (old(state).fuel - 1 - f) as nat);
                    }
                }
            }
            if sk == Kind::List {
                let ixv = match walk(ix, state, memory) { Ok(v) => v, Err(e) => return Err(e) };
                proof {
                    if operand_value(*old(state), old(memory)@, structure) is Some
                        && old(state).fuel >= operand_value(*old(state), old(memory)@, structure).unwrap().1 + 2
                        && list_at(old(memory)@, operand_value(*old(state), old(memory)@, structure).unwrap().0) is Some
                        && int_term(*old(state), old(memory)@, ix,
                            (old(state).fuel - 1 - operand_value(*old(state), old(memory)@, structure).unwrap().1) as nat) is Some {
                        assert(memory@[sv.id as int] == memory@.subrange(0, m_s.len() as int)[sv.id as int]);
                        assert forall|j: int| 0 <= j < m_s.len() implies #[trigger] memory@[j] == m_s[j] by {
                            assert(memory@[j] == memory@.subrange(0, m_s.len() as int)[j]);
                        }
                    }
                }
                if node_kind(memory.get(sv)) != Kind::List {
                    return Err(raise("VMError", "store_at_ix: structure changed while it was indexed.", state, memory));
                }
                set_item(sv, ixv, value, state, memory)
            } else if sk == Kind::Object {
                store_member(sv, ix, value, state, memory)
            } else {
                let msg = text3("Index op not supported for '", peek(memory.get(sv)), "'");
                Err(new_exception("ValueError".to_owned(), msg, state, memory))
            }
        },
    }
}

/// Every unifier binds a variable, and none binds `this`.
pub open spec fn plain_bindings(m: Seq<Node>, u: Seq<(NodeRef, NodeRef)>) -> bool {
    forall|i: int| 0 <= i < u.len() ==> ((#[trigger] id_at(m, u[i].0)) matches Some(n) && n != "this"@)
}

/// The value that the last of the first `n` unifiers binding `k` gives it.
pub open spec fn last_binding(m: Seq<Node>, u: Seq<(NodeRef, NodeRef)>, k: Seq<char>, n: nat) -> Option<NodeRef>
    decreases n,
{
    if n == 0 {
        None
    } else if id_at(m, u[n - 1].0) == Some(k) {
        Some(u[n - 1].1)
    } else {
        last_binding(m, u, k, (n - 1) as nat)
    }
}

/// The names that the innermost scope declares global.
pub open spec fn inner_globals<H>(s: State<H>) -> Seq<String> {
    s.frames@[s.innermost() as int].globals@
}

/// Binds the formal arguments of a function: every unifier has to bind a
/// variable other than `this`, and binds it in the current scope.
pub fn declare_formal_args<H>(unifiers: &Vec<(NodeRef, NodeRef)>, state: &mut State<H>, memory: &mut Memory) -> (r: Result<(), NodeRef>)
    requires
        env_ok(*old(state), old(memory)@),
        unifiers_ok(unifiers@, old(memory)@.len()),
    ensures
        steps(*old(state), old(memory)@, *final(state), final(memory)@),
        final(state).scopes@ == old(state).scopes@,
        final(state).fuel == old(state).fuel,
        r matches Err(e) ==> e.id < final(memory)@.len() && raised(final(memory)@, e, "ValueError"@),
        r is Ok <==> plain_bindings(old(memory)@, unifiers@),
        r is Ok ==> final(memory)@ == old(memory)@,
        r is Ok ==> forall|k: Seq<char>| last_binding(old(memory)@, unifiers@, k, unifiers@.len()) is None
            ==> #[trigger] final(state).lookup_spec(k) == old(state).lookup_spec(k),
        r is Ok ==> forall|k: Seq<char>| last_binding(old(memory)@, unifiers@, k, unifiers@.len()) matches Some(v)
            ==> (!names_has(inner_globals(*old(state)), k) ==> #[trigger] final(state).lookup_spec(k) == Some(v)),
{
    let ghost s0 = *old(state);
    let ghost m0 = old(memory)@;
    let ghost g0 = inner_globals(s0);
    proof { reveal_strlit("this"); }
    let mut i: usize = 0;
    while i < unifiers.len()
        invariant
            s0 == *old(state),
            m0 == old(memory)@,
            i <= unifiers@.len(),
            unifiers_ok(unifiers@, m0.len()),
            env_ok(*state, memory@),
            memory@ == m0,
            steps(s0, m0, *state, memory@),
            state.scopes@ == s0.scopes@,
            state.frames@.len() == s0.frames@.len(),
            state.fuel == s0.fuel,
            inner_globals(*state) == g0,
            forall|j: int| 0 <= j < i ==> ((#[trigger] id_at(m0, unifiers@[j].0)) matches Some(n) && n != "this"@),
            forall|k: Seq<char>| last_binding(m0, unifiers@, k, i as nat) is None
                ==> #[trigger] state.lookup_spec(k) == s0.lookup_spec(k),
            forall|k: Seq<char>| last_binding(m0, unifiers@, k, i as nat) matches Some(v)
                ==> (!names_has(g0, k) ==> #[trigger] state.lookup_spec(k) == Some(v)),
        decreases unifiers@.len() - i,
    {
        let (lhs, term) = unifiers[i];
        let name = match memory.get(lhs) { Node::AstroID(x) => Some(x.name.clone()), _ => None };
        match name {
            None => {
                assert(id_at(m0, unifiers@[i as int].0) is None);
                let msg = text3("unknown unifier type '", peek(memory.get(lhs)), "'");
                let e = new_exception("ValueError".to_owned(), msg, state, memory);
                assert(!plain_bindings(m0, unifiers@));
                return Err(e);
            },
            Some(n) => {
                if str_eq(n.as_str(), "this") {
                    let e = raise("ValueError", "'this' is a reserved keyword.", state, memory);
                    assert(!plain_bindings(m0, unifiers@));
                    return Err(e);
                }
                let ghost before = *state;
                state.enter_sym(n.as_str(), term);
                proof {
                    assert(state.frames@[before.innermost() as int].globals@ == before.frames@[before.innermost() as int].globals@);
                    assert forall|k: Seq<char>| last_binding(m0, unifiers@, k, (i + 1) as nat) is None
                        implies #[trigger] state.lookup_spec(k) == s0.lookup_spec(k) by {
                        assert(k != n@);
                        assert(before.lookup_spec(k) == s0.lookup_spec(k));
                    }
                    assert forall|k: Seq<char>| (last_binding(m0, unifiers@, k, (i + 1) as nat) matches Some(v)
                        ==> (!names_has(g0, k) ==> #[trigger] state.lookup_spec(k) == Some(v))) by {
                        if k != n@ {
                            assert(last_binding(m0, unifiers@, k, (i + 1) as nat) == last_binding(m0, unifiers@, k, i as nat));
                        }
                    }
                }
            },
        }
        i = i + 1;
    }
    proof {
        assert(plain_bindings(m0, unifiers@));
    }
    Ok(())
}

/// Whether every unifier binds a variable.
fn all_ids(unifiers: &Vec<(NodeRef, NodeRef)>, memory: &Memory) -> (b: bool)
    requires
        unifiers_ok(unifiers@, memory@.len()),
    ensures
        b == forall|i: int| 0 <= i < unifiers@.len() ==> (#[trigger] id_at(memory@, unifiers@[i].0)) is Some,
{
    let mut i: usize = 0;
    while i < unifiers.len()
        invariant
            i <= unifiers@.len(),
            unifiers_ok(unifiers@, memory@.len()),
            forall|j: int| 0 <= j < i ==> (#[trigger] id_at(memory@, unifiers@[j].0)) is Some,
        decreases unifiers@.len() - i,
    {
        if node_kind(memory.get(unifiers[i].0)) != Kind::ID {
            assert(id_at(memory@, unifiers@[i as int].0) is None);
            return false;
        }
        i = i + 1;
    }
    true
}

/// Every name is bound to what it was bound to before.
pub open spec fn same_lookups<H>(s0: State<H>, s1: State<H>) -> bool {
    forall|k: Seq<char>| #[trigger] s1.lookup_spec(k) == s0.lookup_spec(k)
}

/// Binds the unifiers of a successful match: variables in the current
/// scope, and index expressions by writing into the structure they name.
pub fn declare_unifiers<H: Host>(unifiers: &Vec<(NodeRef, NodeRef)>, state: &mut State<H>, memory: &mut Memory) -> (r: Result<(), NodeRef>)
    requires
        env_ok(*old(state), old(memory)@),
        unifiers_ok(unifiers@, old(memory)@.len()),
    ensures
        steps(*old(state), old(memory)@, *final(state), final(memory)@),
        r matches Err(e) ==> e.id < final(memory)@.len(),
        old(state).fuel == 0 ==> r is Err,
        old(state).fuel > 0 && plain_bindings(old(memory)@, unifiers@) ==> {
            &&& r is Ok
            &&& final(memory)@ == old(memory)@
            &&& final(state).fuel == old(state).fuel - 1
            &&& final(state).scopes@ == old(state).scopes@
            &&& forall|k: Seq<char>| last_binding(old(memory)@, unifiers@, k, unifiers@.len()) is None
                ==> #[trigger] final(state).lookup_spec(k) == old(state).lookup_spec(k)
            &&& forall|k: Seq<char>| last_binding(old(memory)@, unifiers@, k, unifiers@.len()) matches Some(v)
                ==> (!names_has(inner_globals(*old(state)), k) ==> #[trigger] final(state).lookup_spec(k) == Some(v))
        },
        old(state).fuel >= 4 && unifiers@.len() == 1 ==> (index_binding(*old(state), old(memory)@, unifiers@[0].0) matches Some((l, i))
            ==> (r is Ok && (0 <= i < list_at(old(memory)@, l).unwrap().len()
                ==> item_written(old(memory)@, final(memory)@, l, i, unifiers@[0].1, Ok(()))
                    && same_lookups(*old(state), *final(state))))),
    decreases old(state).fuel,
{
    match spend(state, memory) { Err(e) => return Err(e), Ok(()) => {} }
    proof {
        if old(state).fuel >= 4 && unifiers@.len() == 1 && index_binding(*old(state), old(memory)@, unifiers@[0].0) is Some {
            assert(id_at(memory@, unifiers@[0].0) is None);
        }
    }
    if all_ids(unifiers, memory) {
        return declare_formal_args(unifiers, state, memory);
    }
    proof {
        if plain_bindings(old(memory)@, unifiers@) {
            assert forall|i: int| 0 <= i < unifiers@.len() implies (#[trigger] id_at(memory@, unifiers@[i].0)) is Some by {
                assert(id_at(old(memory)@, unifiers@[i].0) is Some);
            }
        }
    }
    let ghost s0 = *old(state);
    let ghost m0 = old(memory)@;
    let ghost single = s0.fuel >= 4 && unifiers@.len() == 1 && index_binding(s0, m0, unifiers@[0].0) is Some;
    assert(!plain_bindings(m0, unifiers@));
    let mut i: usize = 0;
    while i < unifiers.len()
        invariant
            !plain_bindings(m0, unifiers@),
            single == (s0.fuel >= 4 && unifiers@.len() == 1 && index_binding(s0, m0, unifiers@[0].0) is Some),
            single && i == 0 ==> memory@ == m0 && *state == (State { fuel: (s0.fuel - 1) as u64, ..s0 }),
            single && i == 1 ==> (index_binding(s0, m0, unifiers@[0].0) matches Some((l, j))
                && (0 <= j < list_at(m0, l).unwrap().len() ==> item_written(m0, memory@, l, j, unifiers@[0].1, Ok(()))
                    && state.frames == s0.frames && state.scopes == s0.scopes)),
            s0 == *old(state),
            m0 == old(memory)@,
            i <= unifiers@.len(),
            unifiers_ok(unifiers@, memory@.len()),
            env_ok(*state, memory@),
            steps(s0, m0, *state, memory@),
            state.fuel < s0.fuel,
        decreases unifiers@.len() - i,
    {
        let (lhs, value) = unifiers[i];
        let k = node_kind(memory.get(lhs));
        if k == Kind::ID {
            let n = match memory.get(lhs) { Node::AstroID(x) => x.name.clone(), _ => String::new() };
            if str_eq(n.as_str(), "this") {
                return Err(raise("ValueError", "'this' is a reserved keyword.", state, memory));
            }
            state.enter_sym(n.as_str(), value);
        } else if k == Kind::Index {
            let parts = match memory.get(lhs) { Node::AstroIndex(x) => Some((x.structure, x.index_exp)), _ => None };
            if let Some((s, idx)) = parts {
                proof { assert(node_ok(memory@[lhs.id as int], memory@.len(), state.frames@.len())); }
                let _ = store_at_ix(s, idx, value, state, memory);
            }
        } else {
            let msg = text3("unknown unifier type '", peek(memory.get(lhs)), "'");
            return Err(new_exception("ValueError".to_owned(), msg, state, memory));
        }
        i = i + 1;
    }
    Ok(())
}

/// The list and the position that a binding of the index expression
/// `v[i]` writes to, where `v` is a variable bound to a list and `i` an
/// integer.
pub open spec fn index_binding<H>(s: State<H>, m: Seq<Node>, lhs: NodeRef) -> Option<(NodeRef, int)> {
    match index_parts(m, lhs) {
        Some((v, ix)) => match id_at(m, v) {
            Some(n) => match s.lookup_spec(n) {
                Some(l) => if list_at(m, l) is Some && int_at(m, ix) is Some { Some((l, int_at(m, ix).unwrap())) } else { None },
                None => None,
            },
            None => None,
        },
        None => None,
    }
}

/// A read of a list item after a write to it gives the value written.
pub proof fn law_read_after_write(m0: Seq<Node>, m1: Seq<Node>, l: NodeRef, i: int, v: NodeRef)
    requires
        list_at(m0, l) is Some,
        item_written(m0, m1, l, i, v, Ok(())),
    ensures
        list_at(m1, l) matches Some(items) && 0 <= i < items.len() && items[i] == v,
        forall|j: int| 0 <= j < list_at(m0, l).unwrap().len() && j != i ==> list_at(m1, l).unwrap()[j] == #[trigger] list_at(m0, l).unwrap()[j],
{
}

/// A read of an object member after a write to it gives the value written:
/// the write leaves the structure of the object, and so the slot of the
/// member, as they were.
pub proof fn law_member_read_after_write<H>(s: State<H>, m0: Seq<Node>, m1: Seq<Node>, obj: NodeRef, tag: Seq<char>, v: NodeRef)
    requires
        env_ok(s, m0),
        obj.id < m0.len(),
        m0[obj.id as int] matches Node::AstroObject(o) ==> (struct_slot(s, m0, o.struct_id.name@, tag) matches Some(k)
            ==> member_written(m0, m1, obj, k, v, Ok(()))),
    ensures
        m0[obj.id as int] matches Node::AstroObject(o) ==> (struct_slot(s, m0, o.struct_id.name@, tag) matches Some(k)
            ==> (m1[obj.id as int] matches Node::AstroObject(o2)
                && struct_slot(s, m1, o2.struct_id.name@, tag) == Some(k)
                && k < o2.object_memory@.len() && o2.object_memory@[k as int] == v)),
{
    if let Node::AstroObject(o) = m0[obj.id as int] {
        if let Some(k) = struct_slot(s, m0, o.struct_id.name@, tag) {
            let d = s.lookup_spec(o.struct_id.name@).unwrap();
            crate::state::lemma_lookup_below(s, o.struct_id.name@, m0.len());
            assert(d.id != obj.id);
            assert(m1[d.id as int] == m0[d.id as int]);
            assert(node_ok(m0[d.id as int], m0.len(), s.frames@.len()));
            let st = match m0[d.id as int] { Node::AstroStruct(st) => st, _ => arbitrary() };
            assert forall|i: int| 0 <= i < st.member_names@.len() implies (#[trigger] st.member_names@[i]).id < m0.len()
                && st.member_names@[i].id < m1.len() && id_at(m1, st.member_names@[i]) == id_at(m0, st.member_names@[i]) by {
                assert(refs_below(st.member_names@, m0.len()));
                if st.member_names@[i].id != obj.id {
                    assert(m1[st.member_names@[i].id as int] == m0[st.member_names@[i].id as int]);
                }
            }
            lemma_member_slot_same(m0, m1, st.member_names@, tag, st.member_names@.len());
        }
    }
}

/// The last of the first `n` unifiers binding the `i`-th variable of a
/// positional match binds it to the `i`-th term, when the variables are
/// distinct.
proof fn lemma_last_binding_zip(m: Seq<Node>, p: Seq<NodeRef>, t: Seq<NodeRef>, i: int, n: nat)
    requires
        p.len() == t.len(),
        var_list(m, p),
        forall|a: int, b: int| 0 <= a < b < p.len() ==> #[trigger] id_at(m, p[a]) != #[trigger] id_at(m, p[b]),
        0 <= i < n <= p.len(),
    ensures
        last_binding(m, zip_unifiers(p, t, p.len()), id_at(m, p[i]).unwrap(), n) == Some(t[i]),
    decreases n,
{
    let u = zip_unifiers(p, t, p.len());
    assert(id_at(m, p[i]) is Some);
    if n - 1 != i {
        assert(u[n - 1] == (p[n - 1], t[n - 1]));
        assert(id_at(m, p[i]) != id_at(m, p[n - 1]));
        lemma_last_binding_zip(m, p, t, i, (n - 1) as nat);
    } else {
        assert(u[n - 1] == (p[i], t[i]));
    }
}

/// Matching a list of distinct variables, none of them `this`, against a
/// list of terms of the same length gives unifiers that bind only
/// variables, and that bind every variable to the term at its position:
/// declaring them (see [`declare_unifiers`]) makes each variable stand for
/// that term.
pub proof fn law_positional_binding(m: Seq<Node>, p: Seq<NodeRef>, t: Seq<NodeRef>)
    requires
        p.len() == t.len(),
        var_list(m, p),
        forall|a: int| 0 <= a < p.len() ==> #[trigger] id_at(m, p[a]) != Some("this"@),
        forall|a: int, b: int| 0 <= a < b < p.len() ==> #[trigger] id_at(m, p[a]) != #[trigger] id_at(m, p[b]),
    ensures
        plain_bindings(m, zip_unifiers(p, t, p.len())),
        forall|i: int| 0 <= i < p.len()
            ==> last_binding(m, zip_unifiers(p, t, p.len()), #[trigger] id_at(m, p[i]).unwrap(), p.len()) == Some(t[i]),
{
    let u = zip_unifiers(p, t, p.len());
    assert forall|i: int| 0 <= i < u.len() implies ((#[trigger] id_at(m, u[i].0)) matches Some(n) && n != "this"@) by {
        assert(u[i].0 == p[i]);
        assert(id_at(m, p[i]) is Some);
    }
    assert forall|i: int| 0 <= i < p.len()
        implies last_binding(m, u, #[trigger] id_at(m, p[i]).unwrap(), p.len()) == Some(t[i]) by {
        lemma_last_binding_zip(m, p, t, i, p.len());
    }
}

} // verus!
