//! Support functions of the interpreter: truth values, the text of terms,
//! and the data members of objects.

use vstd::prelude::*;
use crate::ast::{Node, NodeRef, AstroBool, Kind, kind_of, kind_name, kind_str, node_kind};
use crate::memory::{Memory, mem_ok};
use crate::host::Host;

verus! {

/// The character of a decimal digit.
pub open spec fn digit_char(d: nat) -> char {
    if d == 0 { '0' } else if d == 1 { '1' } else if d == 2 { '2' } else if d == 3 { '3' }
    else if d == 4 { '4' } else if d == 5 { '5' } else if d == 6 { '6' } else if d == 7 { '7' }
    else if d == 8 { '8' } else { '9' }
}

/// The decimal digits of a natural number.
pub open spec fn nat_text(n: nat) -> Seq<char>
    decreases n,
{
    if n < 10 {
        seq![digit_char(n)]
    } else {
        nat_text(n / 10) + seq![digit_char(n % 10)]
    }
}

/// The decimal text of an integer, with a leading `-` when negative.
pub open spec fn int_text(i: int) -> Seq<char> {
    if i < 0 {
        seq!['-'] + nat_text((-i) as nat)
    } else {
        nat_text(i as nat)
    }
}

/// The text of one decimal digit.
fn digit_str(d: u64) -> (s: &'static str)
    requires
        d < 10,
    ensures
        s@ == seq![digit_char(d as nat)],
{
    proof {
        reveal_strlit("0"); reveal_strlit("1"); reveal_strlit("2"); reveal_strlit("3"); reveal_strlit("4");
        reveal_strlit("5"); reveal_strlit("6"); reveal_strlit("7"); reveal_strlit("8"); reveal_strlit("9");
    }
    if d == 0 { "0" } else if d == 1 { "1" } else if d == 2 { "2" } else if d == 3 { "3" }
    else if d == 4 { "4" } else if d == 5 { "5" } else if d == 6 { "6" } else if d == 7 { "7" }
    else if d == 8 { "8" } else { "9" }
}

/// The decimal text of a natural number.
pub fn nat_to_string(n: u64) -> (s: String)
    ensures
        s@ == nat_text(n as nat),
    decreases n,
{
    if n < 10 {
        let mut s = String::new();
        s.append(digit_str(n));
        s
    } else {
        let mut s = nat_to_string(n / 10);
        s.append(digit_str(n % 10));
        s
    }
}

/// The decimal text of an integer, as Rust's `to_string` gives it.
pub fn int_to_string(v: isize) -> (s: String)
    ensures
        s@ == int_text(v as int),
{
    if v < 0 {
        let mag: u64 = if v == isize::MIN {
            assert(isize::MIN == -0x8000_0000_0000_0000 || isize::MIN == -0x8000_0000);
            ((-(v + 1)) as u64) + 1
        } else {
            (-v) as u64
        };
        let mut s = String::new();
        proof { reveal_strlit("-"); }
        s.append("-");
        let digits = nat_to_string(mag);
        s.append(digits.as_str());
        s
    } else {
        nat_to_string(v as u64)
    }
}

/// The truth value of a node, where it does not depend on a real number:
/// non-zero numbers and non-empty strings, lists and tuples are true, `none`
/// and `nil` are false, and so is `false`; every other node is true.
pub open spec fn truth(n: Node) -> Option<bool> {
    match n {
        Node::AstroInteger(x) => Some(x.value != 0),
        Node::AstroReal(_) => None,
        Node::AstroBool(x) => Some(x.value),
        Node::AstroString(x) => Some(x.value@.len() > 0),
        Node::AstroList(x) => Some(x.contents@.len() > 0),
        Node::AstroTuple(x) => Some(x.contents@.len() > 0),
        Node::AstroNone(_) => Some(false),
        Node::AstroNil(_) => Some(false),
        _ => Some(true),
    }
}

/// Maps a node to the boolean node of its truth value.
pub fn map2boolean<H: Host>(node: &Node) -> (b: Node)
    ensures
        b matches Node::AstroBool(x) && (truth(*node) matches Some(t) ==> x.value == t),
{
    let v = match node {
        Node::AstroInteger(x) => x.value != 0,
        Node::AstroReal(x) => !H::real_is_zero(x.bits),
        Node::AstroBool(x) => x.value,
        Node::AstroString(x) => x.value.unicode_len() > 0,
        Node::AstroList(x) => x.contents.len() > 0,
        Node::AstroTuple(x) => x.contents.len() > 0,
        Node::AstroNone(_) => false,
        Node::AstroNil(_) => false,
        _ => true,
    };
    Node::AstroBool(AstroBool { value: v })
}

/// The cell holds data rather than a member function.
pub open spec fn is_data(m: Seq<Node>, r: NodeRef) -> bool {
    r.id < m.len() && kind_of(m[r.id as int]) != Kind::FunctionVal
}

/// The indices of the data cells among the first `n` cells, in order.
pub open spec fn data_indices(m: Seq<Node>, cells: Seq<NodeRef>, n: nat) -> Seq<usize>
    decreases n,
{
    if n == 0 {
        Seq::empty()
    } else {
        let rest = data_indices(m, cells, (n - 1) as nat);
        if is_data(m, cells[n - 1]) { rest.push((n - 1) as usize) } else { rest }
    }
}

/// The indices of the cells of an object's memory that hold data.
pub fn data_ix_list(cells: &Vec<NodeRef>, memory: &Memory) -> (r: Vec<usize>)
    ensures
        r@ == data_indices(memory@, cells@, cells@.len()),
{
    let mut r: Vec<usize> = Vec::new();
    let mut i: usize = 0;
    while i < cells.len()
        invariant
            i <= cells@.len(),
            r@ == data_indices(memory@, cells@, i as nat),
        decreases cells@.len() - i,
    {
        let c = cells[i];
        if c.id < memory.len() && node_kind(memory.get(c)) != Kind::FunctionVal {
            r.push(i);
        }
        i = i + 1;
    }
    r
}

/// The data cells of an object's memory, in order.
pub fn data_only(cells: &Vec<NodeRef>, memory: &Memory) -> (r: Vec<NodeRef>)
    ensures
        r@.len() == data_indices(memory@, cells@, cells@.len()).len(),
        forall|j: int| 0 <= j < r@.len() ==> #[trigger] r@[j] == cells@[data_indices(memory@, cells@, cells@.len())[j] as int],
{
    let ix = data_ix_list(cells, memory);
    proof { lemma_data_indices_below(memory@, cells@, cells@.len()); }
    let mut r: Vec<NodeRef> = Vec::new();
    let mut j: usize = 0;
    while j < ix.len()
        invariant
            ix@ == data_indices(memory@, cells@, cells@.len()),
            forall|k: int| 0 <= k < ix@.len() ==> #[trigger] ix@[k] < cells@.len(),
            j <= ix@.len(),
            r@.len() == j,
            forall|k: int| 0 <= k < j ==> #[trigger] r@[k] == cells@[ix@[k] as int],
        decreases ix@.len() - j,
    {
        r.push(cells[ix[j]]);
        j = j + 1;
    }
    r
}

/// Data indices point into the cells.
pub proof fn lemma_data_indices_below(m: Seq<Node>, cells: Seq<NodeRef>, n: nat)
    ensures
        forall|k: int| 0 <= k < data_indices(m, cells, n).len() ==> #[trigger] data_indices(m, cells, n)[k] < n,
    decreases n,
{
    if n > 0 {
        lemma_data_indices_below(m, cells, (n - 1) as nat);
        let rest = data_indices(m, cells, (n - 1) as nat);
        assert forall|k: int| 0 <= k < data_indices(m, cells, n).len() implies #[trigger] data_indices(m, cells, n)[k] < n by {
            if k < rest.len() {
                assert(data_indices(m, cells, n)[k] == rest[k]);
            }
        }
    }
}

/// The text of a term, looking at most `depth` levels into lists and
/// tuples; `None` where the text depends on the text of a real number,
/// which the host gives.
pub open spec fn term_text(m: Seq<Node>, r: NodeRef, depth: nat) -> Option<Seq<char>>
    decreases depth, 0nat,
{
    if r.id >= m.len() {
        None
    } else {
        match m[r.id as int] {
            Node::AstroInteger(x) => Some(int_text(x.value as int)),
            Node::AstroReal(_) => None,
            Node::AstroBool(x) => Some(if x.value { "true"@ } else { "false"@ }),
            Node::AstroString(x) => Some(x.value@),
            Node::AstroID(x) => Some(x.name@),
            Node::AstroList(x) => if depth == 0 {
                Some("[...]"@)
            } else {
                match items_text(m, x.contents@, (depth - 1) as nat) {
                    Some(t) => Some("["@ + t + "]"@),
                    None => None,
                }
            },
            Node::AstroTuple(x) => if depth == 0 {
                Some("(...)"@)
            } else {
                match items_text(m, x.contents@, (depth - 1) as nat) {
                    Some(t) => Some("("@ + t + ")"@),
                    None => None,
                }
            },
            n => Some(kind_name(kind_of(n))),
        }
    }
}

/// The texts of the items, separated by `, `.
pub open spec fn items_text(m: Seq<Node>, s: Seq<NodeRef>, depth: nat) -> Option<Seq<char>>
    decreases depth, s.len() + 1,
{
    if s.len() == 0 {
        Some(Seq::empty())
    } else if s.len() == 1 {
        term_text(m, s[0], depth)
    } else {
        match (items_text(m, s.drop_last(), depth), term_text(m, s.last(), depth)) {
            (Some(a), Some(b)) => Some(a + ", "@ + b),
            _ => None,
        }
    }
}

/// The text of a term; real numbers are written by the host.
pub fn term2string<H: Host>(node: NodeRef, memory: &Memory) -> (s: String)
    requires
        node.id < memory@.len(),
        exists|nf: nat| mem_ok(memory@, nf),
    ensures
        term_text(memory@, node, memory@.len()) matches Some(t) ==> s@ == t,
{
    term_text_rec::<H>(node, memory, memory.len())
}

fn term_text_rec<H: Host>(node: NodeRef, memory: &Memory, depth: usize) -> (s: String)
    requires
        node.id < memory@.len(),
        exists|nf: nat| mem_ok(memory@, nf),
    ensures
        term_text(memory@, node, depth as nat) matches Some(t) ==> s@ == t,
    decreases depth, 0nat,
{
    let ghost nf = choose|nf: nat| mem_ok(memory@, nf);
    proof {
        reveal_strlit("true"); reveal_strlit("false"); reveal_strlit("[...]"); reveal_strlit("(...)");
        reveal_strlit("["); reveal_strlit("]"); reveal_strlit("("); reveal_strlit(")");
        assert(crate::ast::node_ok(memory@[node.id as int], memory@.len(), nf));
    }
    match memory.get(node) {
        Node::AstroInteger(x) => int_to_string(x.value),
        Node::AstroReal(x) => H::real_to_string(x.bits),
        Node::AstroBool(x) => if x.value { "true".to_owned() } else { "false".to_owned() },
        Node::AstroString(x) => x.value.clone(),
        Node::AstroID(x) => x.name.clone(),
        Node::AstroList(x) => {
            if depth == 0 {
                "[...]".to_owned()
            } else {
                let mut s = "[".to_owned();
                let inner = items_text_rec::<H>(&x.contents, memory, depth - 1);
                s.append(inner.as_str());
                s.append("]");
                s
            }
        },
        Node::AstroTuple(x) => {
            if depth == 0 {
                "(...)".to_owned()
            } else {
                let mut s = "(".to_owned();
                let inner = items_text_rec::<H>(&x.contents, memory, depth - 1);
                s.append(inner.as_str());
                s.append(")");
                s
            }
        },
        n => kind_str(node_kind(n)).to_owned(),
    }
}

fn items_text_rec<H: Host>(items: &Vec<NodeRef>, memory: &Memory, depth: usize) -> (s: String)
    requires
        crate::ast::refs_below(items@, memory@.len()),
        exists|nf: nat| mem_ok(memory@, nf),
    ensures
        items_text(memory@, items@, depth as nat) matches Some(t) ==> s@ == t,
    decreases depth, items@.len() + 1,
{
    proof { reveal_strlit(", "); }
    let mut s = String::new();
    let mut i: usize = 0;
    while i < items.len()
        invariant
            i <= items@.len(),
            crate::ast::refs_below(items@, memory@.len()),
            exists|nf: nat| mem_ok(memory@, nf),
            items_text(memory@, items@.take(i as int), depth as nat) matches Some(t) ==> s@ == t,
        decreases items@.len() - i,
    {
        let ghost pre = items@.take(i as int);
        let ghost next = items@.take(i + 1);
        assert(next.drop_last() =~= pre);
        assert(next.last() == items@[i as int]);
        let t = term_text_rec::<H>(items[i], memory, depth);
        if i > 0 {
            s.append(", ");
        } else {
            assert(pre =~= Seq::<NodeRef>::empty());
            assert(next.len() == 1);
            assert(next[0] == items@[0]);
        }
        s.append(t.as_str());
        i = i + 1;
    }
    assert(items@.take(items@.len() as int) =~= items@);
    s
}

} // verus!
