//! The report written when a program stops on an uncaught exception.

use vstd::prelude::*;
use crate::ast::{Node, NodeRef, kind_name, kind_of, kind_str, node_kind};
use crate::memory::Memory;
use crate::state::{State, str_eq};
use crate::host::{Host, env_ok, steps};
use crate::exception::{text2, text3};
use crate::unify::kind_at;
use crate::walk::{walk, is_value_kind, struct_call, has_member, default_built};
use crate::support::data_indices;

verus! {

/// The exception kinds that the report names.
pub open spec fn known_kind(k: Seq<char>) -> bool {
    k == "ValueError"@ || k == "PatternMatchFailed"@ || k == "NonLinearPattern"@ || k == "FileNotFound"@
        || k == "ArithmeticError"@ || k == "VMError"@
}

/// The line reporting an exception of a known kind with its message.
pub open spec fn kind_line(k: Seq<char>, msg: Seq<char>) -> Seq<char> {
    if k == "VMError"@ {
        "An internal VM Error occurred.\nmessage: "@ + msg
    } else {
        k + ": "@ + msg
    }
}

/// The report on the value `v` that a program stopped with: an
/// `Exception` object whose first member is a known kind and whose second
/// is a message is reported as such; anything else is an unknown error.
pub open spec fn report_text(m: Seq<Node>, v: NodeRef) -> Seq<char> {
    if v.id >= m.len() {
        "Unknown Error Type"@
    } else {
        match m[v.id as int] {
            Node::AstroObject(o) => if o.struct_id.name@ == "Exception"@ && o.object_memory@.len() >= 1
                && o.object_memory@[0].id < m.len() {
                match m[o.object_memory@[0].id as int] {
                    Node::AstroString(k) => if known_kind(k.value@) {
                        if o.object_memory@.len() >= 2 && o.object_memory@[1].id < m.len() {
                            match m[o.object_memory@[1].id as int] {
                                Node::AstroString(msg) => kind_line(k.value@, msg.value@),
                                _ => "Unknown Error Type"@,
                            }
                        } else {
                            "Unknown Error Type"@
                        }
                    } else {
                        "Unknown Error Type "@ + kind_name(kind_of(m[o.object_memory@[0].id as int]))
                    },
                    other => "Unknown Error Type "@ + kind_name(kind_of(other)),
                }
            } else {
                "Unknown Error Type"@
            },
            _ => "Unknown Error Type"@,
        }
    }
}

/// The text of a stored string node.
fn string_of(r: NodeRef, memory: &Memory) -> (s: Option<String>)
    requires
        r.id < memory@.len(),
    ensures
        memory@[r.id as int] matches Node::AstroString(x) ==> (s matches Some(t) && t@ == x.value@),
        !(memory@[r.id as int] is AstroString) ==> s is None,
{
    match memory.get(r) {
        Node::AstroString(x) => Some(x.value.clone()),
        _ => None,
    }
}

/// Whether `k` is a kind of exception that the report names.
fn is_known_kind(k: &str) -> (b: bool)
    ensures
        b == known_kind(k@),
{
    str_eq(k, "ValueError") || str_eq(k, "PatternMatchFailed") || str_eq(k, "NonLinearPattern")
        || str_eq(k, "FileNotFound") || str_eq(k, "ArithmeticError") || str_eq(k, "VMError")
}

/// Describes the value that a program stopped with (see [`report_text`]).
pub fn describe_error(v: NodeRef, memory: &Memory) -> (s: String)
    ensures
        s@ == report_text(memory@, v),
{
    proof {
        reveal_strlit("Unknown Error Type"); reveal_strlit("Unknown Error Type ");
    }
    if v.id >= memory.len() {
        return "Unknown Error Type".to_owned();
    }
    let parts = match memory.get(v) {
        Node::AstroObject(o) => Some((o.struct_id.name.clone(), crate::unify::copy_refs(&o.object_memory))),
        _ => None,
    };
    let (name, cells) = match parts {
        None => return "Unknown Error Type".to_owned(),
        Some(x) => x,
    };
    if !str_eq(name.as_str(), "Exception") || cells.len() < 1 || cells[0].id >= memory.len() {
        return "Unknown Error Type".to_owned();
    }
    let first = cells[0];
    match string_of(first, memory) {
        None => text2("Unknown Error Type ", kind_str(node_kind(memory.get(first)))),
        Some(k) => {
            if !is_known_kind(k.as_str()) {
                return text2("Unknown Error Type ", kind_str(node_kind(memory.get(first))));
            }
            if cells.len() < 2 || cells[1].id >= memory.len() {
                return "Unknown Error Type".to_owned();
            }
            match string_of(cells[1], memory) {
                None => "Unknown Error Type".to_owned(),
                Some(msg) => if str_eq(k.as_str(), "VMError") {
                    text2("An internal VM Error occurred.\nmessage: ", msg.as_str())
                } else {
                    text3(k.as_str(), ": ", msg.as_str())
                },
            }
        },
    }
}

/// The report on an uncaught exception: the exception is evaluated (which
/// makes an object of it where the program defines the structure
/// `Exception`) and then described.
pub fn error_report<H: Host>(error: NodeRef, state: &mut State<H>, memory: &mut Memory) -> (s: String)
    requires
        env_ok(*old(state), old(memory)@),
        error.id < old(memory)@.len(),
    ensures
        steps(*old(state), old(memory)@, *final(state), final(memory)@),
        old(state).fuel > 0 && is_value_kind(kind_at(old(memory)@, error))
            ==> s@ == report_text(old(memory)@, error),
        struct_call(*old(state), old(memory)@, error) matches Some((tag, st, args))
            ==> (old(state).fuel > args.len() + 6 ==> (old(memory)@[st.id as int] matches Node::AstroStruct(x)
            ==> (!has_member(old(memory)@, x.member_names@, "__init__"@)
                && args.len() == data_indices(old(memory)@, x.struct_memory@, x.struct_memory@.len()).len()
            ==> exists|v: NodeRef| default_built(old(memory)@, final(memory)@, v, tag, x.struct_memory@, args)
                && s@ == report_text(final(memory)@, v)))),
{
    let r = walk(error, state, memory);
    let v = match r {
        Ok(v) => v,
        Err(e) => e,
    };
    let s = describe_error(v, memory);
    proof {
        if let Some((tag, st, args)) = struct_call(*old(state), old(memory)@, error) {
            if old(state).fuel > args.len() + 6 {
                if let Node::AstroStruct(x) = old(memory)@[st.id as int] {
                    if !has_member(old(memory)@, x.member_names@, "__init__"@)
                        && args.len() == data_indices(old(memory)@, x.struct_memory@, x.struct_memory@.len()).len() {
                        assert(default_built(old(memory)@, memory@, v, tag, x.struct_memory@, args));
                    }
                }
            }
        }
    }
    s
}

} // verus!
