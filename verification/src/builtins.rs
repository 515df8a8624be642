//! The built-in binary operators: arithmetic, logic and comparison.

use vstd::prelude::*;
use crate::ast::{Node, NodeRef, Kind, kind_name, node_kind, kind_str, node_ok, AstroInteger, AstroBool, AstroString, AstroList, AstroReal};
use crate::memory::Memory;
use crate::state::{State, str_eq};
use crate::host::{Host, env_ok, steps, result_ok, CompareOp, ArithOp, Number};
use crate::exception::{raise, new_exception, store, raised, exception_parts, text2, text3, text4};
use crate::support::{map2boolean, int_to_string, int_text, truth};
use crate::unify::{kind_at, string_at, copy_refs, list_at};
use crate::walk::int_at;

verus! {

/// A built-in binary operator.
#[derive(Clone, Copy, PartialEq, Eq, Structural, Debug)]
pub enum Op {
    Plus,
    Minus,
    Times,
    Divide,
    Or,
    And,
    Eq,
    Ne,
    Lt,
    Le,
    Ge,
    Gt,
}

/// The built-in operator of the given name, if it names one.
pub open spec fn op_of(name: Seq<char>) -> Option<Op> {
    if name == "__plus__"@ { Some(Op::Plus) }
    else if name == "__minus__"@ { Some(Op::Minus) }
    else if name == "__times__"@ { Some(Op::Times) }
    else if name == "__divide__"@ { Some(Op::Divide) }
    else if name == "__or__"@ { Some(Op::Or) }
    else if name == "__and__"@ { Some(Op::And) }
    else if name == "__eq__"@ { Some(Op::Eq) }
    else if name == "__ne__"@ { Some(Op::Ne) }
    else if name == "__lt__"@ { Some(Op::Lt) }
    else if name == "__le__"@ { Some(Op::Le) }
    else if name == "__ge__"@ { Some(Op::Ge) }
    else if name == "__gt__"@ { Some(Op::Gt) }
    else { None }
}

/// The built-in operator that `name` names, if any.
pub fn operator_symbol(name: &str) -> (r: Option<Op>)
    ensures
        r == op_of(name@),
{
    if str_eq(name, "__plus__") { Some(Op::Plus) }
    else if str_eq(name, "__minus__") { Some(Op::Minus) }
    else if str_eq(name, "__times__") { Some(Op::Times) }
    else if str_eq(name, "__divide__") { Some(Op::Divide) }
    else if str_eq(name, "__or__") { Some(Op::Or) }
    else if str_eq(name, "__and__") { Some(Op::And) }
    else if str_eq(name, "__eq__") { Some(Op::Eq) }
    else if str_eq(name, "__ne__") { Some(Op::Ne) }
    else if str_eq(name, "__lt__") { Some(Op::Lt) }
    else if str_eq(name, "__le__") { Some(Op::Le) }
    else if str_eq(name, "__ge__") { Some(Op::Ge) }
    else if str_eq(name, "__gt__") { Some(Op::Gt) }
    else { None }
}

/// What a built-in operator gives.
pub enum Outcome {
    Int(int),
    Bool(bool),
    Text(Seq<char>),
    Raise(Seq<char>),
}

/// The boolean held by a node.
pub open spec fn bool_at(m: Seq<Node>, r: NodeRef) -> Option<bool> {
    match m[r.id as int] {
        Node::AstroBool(x) => Some(x.value),
        _ => None,
    }
}

/// The result is what the outcome says.
pub open spec fn outcome_holds(m: Seq<Node>, r: Result<NodeRef, NodeRef>, o: Outcome) -> bool {
    match o {
        Outcome::Int(v) => r matches Ok(n) && n.id < m.len() && int_at(m, n) == Some(v),
        Outcome::Bool(b) => r matches Ok(n) && n.id < m.len() && bool_at(m, n) == Some(b),
        Outcome::Text(t) => r matches Ok(n) && n.id < m.len() && string_at(m, n) == Some(t),
        Outcome::Raise(k) => r matches Err(e) && raised(m, e, k),
    }
}

/// The value fits a machine integer.
pub open spec fn fits(v: int) -> bool {
    isize::MIN <= v <= isize::MAX
}

/// Division rounding toward zero, as Rust's integer division does.
pub open spec fn trunc_div(x: int, y: int) -> int {
    let ax = if x < 0 { -x } else { x };
    let ay = if y < 0 { -y } else { y };
    let q = ax / ay;
    if (x < 0) != (y < 0) { -q } else { q }
}

/// An integer result, or an arithmetic error where it does not fit.
pub open spec fn checked(v: int) -> Outcome {
    if fits(v) { Outcome::Int(v) } else { Outcome::Raise("ArithmeticError"@) }
}

/// What operator `op` gives on two integers.
pub open spec fn int_builtin(op: Op, x: int, y: int) -> Outcome {
    match op {
        Op::Plus => checked(x + y),
        Op::Minus => checked(x - y),
        Op::Times => checked(x * y),
        Op::Divide => if y == 0 { Outcome::Raise("ArithmeticError"@) } else { checked(trunc_div(x, y)) },
        Op::Or => Outcome::Bool(x != 0 || y != 0),
        Op::And => Outcome::Bool(x != 0 && y != 0),
        Op::Gt => Outcome::Bool(x > y),
        Op::Lt => Outcome::Bool(x < y),
        Op::Le => Outcome::Bool(x <= y),
        Op::Ge => Outcome::Bool(x >= y),
        Op::Eq => Outcome::Bool(x == y),
        Op::Ne => Outcome::Bool(x != y),
    }
}

/// What a built-in operator gives on the values at `a` and `b`, where this
/// does not depend on real numbers (computed by the host) and the operands
/// are not two lists: integers as [`int_builtin`] says; strings are joined
/// by `+`, also with an integer on either side, written in decimal; `==`
/// on operands that are not numbers is false; `and` and `or` take truth
/// values; every other combination is refused with a `ValueError`, except
/// `<=`, whose exception kind is the message.
pub open spec fn builtin_outcome(m: Seq<Node>, op: Op, a: NodeRef, b: NodeRef) -> Option<Outcome> {
    let ka = kind_at(m, a);
    let kb = kind_at(m, b);
    let numeric_a = ka == Kind::Integer || ka == Kind::Real;
    let numeric_b = kb == Kind::Integer || kb == Kind::Real;
    let unsupported = if op == Op::Le {
        Outcome::Raise("Unsupported type "@ + kind_name(kb) + " in <="@)
    } else {
        Outcome::Raise("ValueError"@)
    };
    if op == Op::Or || op == Op::And {
        match (truth(m[a.id as int]), truth(m[b.id as int])) {
            (Some(x), Some(y)) => Some(Outcome::Bool(if op == Op::Or { x || y } else { x && y })),
            _ => None,
        }
    } else if ka == Kind::Integer && kb == Kind::Integer {
        Some(int_builtin(op, int_at(m, a).unwrap(), int_at(m, b).unwrap()))
    } else if op == Op::Plus && ka == Kind::List {
        None
    } else if ka == Kind::Real || kb == Kind::Real {
        if op == Op::Plus && (ka == Kind::String || kb == Kind::String) {
            None
        } else if numeric_a && numeric_b {
            None
        } else if op == Op::Eq && !numeric_a {
            Some(Outcome::Bool(false))
        } else {
            Some(unsupported)
        }
    } else if op == Op::Plus {
        if ka == Kind::String && kb == Kind::String {
            Some(Outcome::Text(string_at(m, a).unwrap() + string_at(m, b).unwrap()))
        } else if ka == Kind::String && kb == Kind::Integer {
            Some(Outcome::Text(string_at(m, a).unwrap() + int_text(int_at(m, b).unwrap())))
        } else if ka == Kind::Integer && kb == Kind::String {
            Some(Outcome::Text(int_text(int_at(m, a).unwrap()) + string_at(m, b).unwrap()))
        } else {
            Some(Outcome::Raise("ValueError"@))
        }
    } else if op == Op::Eq && !numeric_a {
        Some(Outcome::Bool(false))
    } else {
        Some(unsupported)
    }
}

/// On two integers the operators do what their names say: `__eq__` and
/// `__ne__` are equality and its complement, `__lt__`, `__le__`, `__gt__`
/// and `__ge__` the orderings, `__or__` and `__and__` the logic of their
/// truth (nonzero), `__plus__`, `__minus__` and `__times__` the exact sum,
/// difference and product where they fit a machine integer, and
/// `__divide__` the quotient rounded toward zero, refused on a zero divisor.
pub proof fn law_integer_operators(m: Seq<Node>, a: NodeRef, b: NodeRef, x: int, y: int)
    requires
        a.id < m.len(),
        b.id < m.len(),
        int_at(m, a) == Some(x),
        int_at(m, b) == Some(y),
    ensures
        builtin_outcome(m, op_of("__eq__"@).unwrap(), a, b) == Some(Outcome::Bool(x == y)),
        builtin_outcome(m, op_of("__ne__"@).unwrap(), a, b) == Some(Outcome::Bool(x != y)),
        builtin_outcome(m, op_of("__lt__"@).unwrap(), a, b) == Some(Outcome::Bool(x < y)),
        builtin_outcome(m, op_of("__le__"@).unwrap(), a, b) == Some(Outcome::Bool(x <= y)),
        builtin_outcome(m, op_of("__gt__"@).unwrap(), a, b) == Some(Outcome::Bool(x > y)),
        builtin_outcome(m, op_of("__ge__"@).unwrap(), a, b) == Some(Outcome::Bool(x >= y)),
        fits(x + y) ==> builtin_outcome(m, op_of("__plus__"@).unwrap(), a, b) == Some(Outcome::Int(x + y)),
        fits(x - y) ==> builtin_outcome(m, op_of("__minus__"@).unwrap(), a, b) == Some(Outcome::Int(x - y)),
        fits(x * y) ==> builtin_outcome(m, op_of("__times__"@).unwrap(), a, b) == Some(Outcome::Int(x * y)),
        builtin_outcome(m, op_of("__or__"@).unwrap(), a, b) == Some(Outcome::Bool(x != 0 || y != 0)),
        builtin_outcome(m, op_of("__and__"@).unwrap(), a, b) == Some(Outcome::Bool(x != 0 && y != 0)),
        y == 0 ==> builtin_outcome(m, op_of("__divide__"@).unwrap(), a, b) == Some(Outcome::Raise("ArithmeticError"@)),
        y != 0 ==> (builtin_outcome(m, op_of("__divide__"@).unwrap(), a, b) matches Some(Outcome::Int(q))
            ==> quotient_toward_zero(x, y, q)),
{
    reveal_strlit("__plus__"); reveal_strlit("__minus__"); reveal_strlit("__times__"); reveal_strlit("__divide__");
    reveal_strlit("__or__"); reveal_strlit("__and__"); reveal_strlit("__eq__"); reveal_strlit("__ne__");
    reveal_strlit("__lt__"); reveal_strlit("__le__"); reveal_strlit("__ge__"); reveal_strlit("__gt__");
    assert("__eq__"@[2] != "__or__"@[2]);
    assert("__ne__"@[2] != "__or__"@[2] && "__ne__"@[2] != "__eq__"@[2]);
    assert("__lt__"@[2] != "__or__"@[2] && "__lt__"@[2] != "__eq__"@[2] && "__lt__"@[2] != "__ne__"@[2]);
    assert("__le__"@[2] != "__or__"@[2] && "__le__"@[2] != "__eq__"@[2] && "__le__"@[2] != "__ne__"@[2] && "__le__"@[3] != "__lt__"@[3]);
    assert("__ge__"@[2] != "__or__"@[2] && "__ge__"@[2] != "__eq__"@[2] && "__ge__"@[2] != "__ne__"@[2] && "__ge__"@[2] != "__lt__"@[2] && "__ge__"@[2] != "__le__"@[2]);
    assert("__gt__"@[2] != "__or__"@[2] && "__gt__"@[2] != "__eq__"@[2] && "__gt__"@[2] != "__ne__"@[2] && "__gt__"@[2] != "__lt__"@[2] && "__gt__"@[2] != "__le__"@[2] && "__gt__"@[3] != "__ge__"@[3]);
    assert("__minus__"@.len() != "__plus__"@.len());
    assert(op_of("__minus__"@) == Some(Op::Minus));
    assert("__times__"@[2] != "__minus__"@[2]);
    assert("__times__"@.len() != "__plus__"@.len());
    assert(op_of("__times__"@) == Some(Op::Times));
    assert("__divide__"@.len() != "__plus__"@.len() && "__divide__"@[2] != "__minus__"@[2] && "__divide__"@[2] != "__times__"@[2]);
    assert(op_of("__divide__"@) == Some(Op::Divide));
    assert("__or__"@.len() != "__plus__"@.len() && "__or__"@.len() != "__minus__"@.len() && "__or__"@.len() != "__divide__"@.len());
    assert(op_of("__or__"@) == Some(Op::Or));
    assert("__and__"@.len() != "__plus__"@.len() && "__and__"@.len() != "__minus__"@.len() && "__and__"@.len() != "__divide__"@.len()
        && "__and__"@.len() != "__or__"@.len());
    assert(op_of("__and__"@) == Some(Op::And));
    if y != 0 {
        lemma_trunc_div(x, y);
    }
}

/// `q` is `x / y` rounded toward zero: what is left over, `x - q * y`, is
/// smaller than `y` in size and has the sign of `x`.
pub open spec fn quotient_toward_zero(x: int, y: int, q: int) -> bool {
    let r = x - q * y;
    &&& (x >= 0 ==> 0 <= r) && (x < 0 ==> r <= 0)
    &&& (if r < 0 { -r } else { r }) < (if y < 0 { -y } else { y })
}

/// [`trunc_div`] rounds toward zero.
pub proof fn lemma_trunc_div(x: int, y: int)
    requires
        y != 0,
    ensures
        quotient_toward_zero(x, y, trunc_div(x, y)),
{
    let ax = if x < 0 { -x } else { x };
    let ay = if y < 0 { -y } else { y };
    let q = ax / ay;
    assert(ay > 0 && ax >= 0);
    assert(0 <= ax - q * ay < ay) by (nonlinear_arith)
        requires ay > 0, ax >= 0, q == ax / ay;
    if (x < 0) != (y < 0) {
        assert(x - (-q) * y == x + q * y) by (nonlinear_arith);
        if x < 0 {
            assert(x + q * y == -(ax - q * ay)) by (nonlinear_arith)
                requires x < 0, y > 0, ax == -x, ay == y;
        } else {
            assert(x + q * y == ax - q * ay) by (nonlinear_arith)
                requires x >= 0, y < 0, ax == x, ay == -y;
        }
    } else {
        if x < 0 {
            assert(x - q * y == -(ax - q * ay)) by (nonlinear_arith)
                requires x < 0, y < 0, ax == -x, ay == -y;
        } else {
            assert(x - q * y == ax - q * ay) by (nonlinear_arith)
                requires x >= 0, y > 0, ax == x, ay == y;
        }
    }
}

/// A value read from a node.
enum Lit {
    Int(isize),
    Real(u64),
    Str(String),
    Other,
}

fn read_lit(r: NodeRef, memory: &Memory) -> (l: Lit)
    requires
        r.id < memory@.len(),
    ensures
        l matches Lit::Int(x) <==> kind_at(memory@, r) == Kind::Integer,
        l matches Lit::Int(x) ==> int_at(memory@, r) == Some(x as int),
        l matches Lit::Real(_) <==> kind_at(memory@, r) == Kind::Real,
        l matches Lit::Str(s) <==> kind_at(memory@, r) == Kind::String,
        l matches Lit::Str(s) ==> string_at(memory@, r) == Some(s@),
{
    match memory.get(r) {
        Node::AstroInteger(x) => Lit::Int(x.value),
        Node::AstroReal(x) => Lit::Real(x.bits),
        Node::AstroString(x) => Lit::Str(x.value.clone()),
        _ => Lit::Other,
    }
}

fn int_result<H>(v: i128, state: &mut State<H>, memory: &mut Memory) -> (r: Result<NodeRef, NodeRef>)
    requires
        env_ok(*old(state), old(memory)@),
    ensures
        steps(*old(state), old(memory)@, *final(state), final(memory)@),
        final(memory)@.subrange(0, old(memory)@.len() as int) == old(memory)@,
        *final(state) == *old(state),
        outcome_holds(final(memory)@, r, checked(v as int)),
{
    if v < isize::MIN as i128 || v > isize::MAX as i128 {
        Err(raise("ArithmeticError", "integer overflow", state, memory))
    } else {
        Ok(store(state, memory, Node::AstroInteger(AstroInteger { value: v as isize })))
    }
}

fn bool_result<H>(b: bool, state: &mut State<H>, memory: &mut Memory) -> (r: Result<NodeRef, NodeRef>)
    requires
        env_ok(*old(state), old(memory)@),
    ensures
        steps(*old(state), old(memory)@, *final(state), final(memory)@),
        final(memory)@.subrange(0, old(memory)@.len() as int) == old(memory)@,
        *final(state) == *old(state),
        outcome_holds(final(memory)@, r, Outcome::Bool(b)),
{
    Ok(store(state, memory, Node::AstroBool(AstroBool { value: b })))
}

fn text_result<H>(s: String, state: &mut State<H>, memory: &mut Memory) -> (r: Result<NodeRef, NodeRef>)
    requires
        env_ok(*old(state), old(memory)@),
    ensures
        steps(*old(state), old(memory)@, *final(state), final(memory)@),
        final(memory)@.subrange(0, old(memory)@.len() as int) == old(memory)@,
        *final(state) == *old(state),
        outcome_holds(final(memory)@, r, Outcome::Text(s@)),
{
    Ok(store(state, memory, Node::AstroString(AstroString { value: s })))
}

fn real_result<H>(bits: u64, state: &mut State<H>, memory: &mut Memory) -> (r: Result<NodeRef, NodeRef>)
    requires
        env_ok(*old(state), old(memory)@),
    ensures
        steps(*old(state), old(memory)@, *final(state), final(memory)@),
        final(memory)@.subrange(0, old(memory)@.len() as int) == old(memory)@,
        *final(state) == *old(state),
        result_ok(r, final(memory)@),
        r matches Ok(v) && final(memory)@[v.id as int] == Node::AstroReal(AstroReal { bits }),
{
    Ok(store(state, memory, Node::AstroReal(AstroReal { bits })))
}

/// The symbol of an operator, as error messages write it.
pub open spec fn op_symbol(op: Op) -> Seq<char> {
    match op {
        Op::Plus => "+"@,
        Op::Minus => "-"@,
        Op::Times => "*"@,
        Op::Divide => "/"@,
        Op::Or => "or"@,
        Op::And => "and"@,
        Op::Gt => ">"@,
        Op::Lt => "<"@,
        Op::Le => "<="@,
        Op::Ge => ">="@,
        Op::Eq => "=="@,
        Op::Ne => "=/="@,
    }
}

/// The symbol of an operator, as error messages write it.
fn symbol_of(op: Op) -> (s: &'static str)
    ensures
        s@ == op_symbol(op),
{
    proof {
        reveal_strlit("+");
        reveal_strlit("-");
        reveal_strlit("*");
        reveal_strlit("/");
        reveal_strlit("or");
        reveal_strlit("and");
        reveal_strlit(">");
        reveal_strlit("<");
        reveal_strlit("<=");
        reveal_strlit(">=");
        reveal_strlit("==");
        reveal_strlit("=/=");
    }
    match op {
        Op::Plus => "+",
        Op::Minus => "-",
        Op::Times => "*",
        Op::Divide => "/",
        Op::Or => "or",
        Op::And => "and",
        Op::Gt => ">",
        Op::Lt => "<",
        Op::Le => "<=",
        Op::Ge => ">=",
        Op::Eq => "==",
        Op::Ne => "=/=",
    }
}

fn unsupported<H>(op: Op, named: NodeRef, state: &mut State<H>, memory: &mut Memory) -> (r: Result<NodeRef, NodeRef>)
    requires
        env_ok(*old(state), old(memory)@),
        named.id < old(memory)@.len(),
    ensures
        steps(*old(state), old(memory)@, *final(state), final(memory)@),
        final(memory)@.subrange(0, old(memory)@.len() as int) == old(memory)@,
        *final(state) == *old(state),
        op == Op::Le ==> outcome_holds(final(memory)@, r, Outcome::Raise("Unsupported type "@ + kind_name(kind_at(old(memory)@, named)) + " in <="@)),
        op != Op::Le ==> outcome_holds(final(memory)@, r, Outcome::Raise("ValueError"@)),
{
    let kb = kind_str(node_kind(memory.get(named)));
    if op == Op::Le {
        let kind = text3("Unsupported type ", kb, " in <=");
        Err(new_exception(kind, "message goes here".to_owned(), state, memory))
    } else {
        let msg = text4("Unsupported type ", kb, " in ", symbol_of(op));
        Err(new_exception("ValueError".to_owned(), msg, state, memory))
    }
}

fn int_arith(op: Op, x: isize, y: isize) -> (v: i128)
    requires
        op == Op::Plus || op == Op::Minus || op == Op::Times,
    ensures
        op == Op::Plus ==> v == x + y,
        op == Op::Minus ==> v == x - y,
        op == Op::Times ==> v == x * y,
{
    let a = x as i128;
    let b = y as i128;
    match op {
        Op::Plus => a + b,
        Op::Minus => a - b,
        _ => {
            proof {
                assert(isize::MIN >= -0x8000_0000_0000_0000 && isize::MAX <= 0x7fff_ffff_ffff_ffff);
                assert(-0x4000_0000_0000_0000_0000_0000_0000_0000 <= a * b <= 0x4000_0000_0000_0000_0000_0000_0000_0000) by (nonlinear_arith)
                    requires -0x8000_0000_0000_0000 <= a <= 0x7fff_ffff_ffff_ffff, -0x8000_0000_0000_0000 <= b <= 0x7fff_ffff_ffff_ffff;
            }
            a * b
        },
    }
}

fn int_div(x: isize, y: isize) -> (v: i128)
    requires
        y != 0,
    ensures
        v == trunc_div(x as int, y as int),
{
    let a = x as i128;
    let b = y as i128;
    let ax: i128 = if a < 0 { -a } else { a };
    let ay: i128 = if b < 0 { -b } else { b };
    let q = ax / ay;
    if (a < 0) != (b < 0) { -q } else { q }
}

/// Compares two integers; `op` is a comparison other than `and` and `or`.
fn compare_ints(op: Op, x: isize, y: isize) -> (b: bool)
    ensures
        op != Op::Or ==> (op != Op::And ==> (int_builtin(op, x as int, y as int) matches Outcome::Bool(c) ==> b == c)),
{
    match op {
        Op::Gt => x > y,
        Op::Lt => x < y,
        Op::Le => x <= y,
        Op::Ge => x >= y,
        Op::Eq => x == y,
        _ => x != y,
    }
}

/// The comparison the host carries out for a comparison operator; `=/=`
/// and the operators that compare nothing map to `Ne`.
pub open spec fn compare_of(op: Op) -> CompareOp {
    match op {
        Op::Gt => CompareOp::Gt,
        Op::Lt => CompareOp::Lt,
        Op::Le => CompareOp::Le,
        Op::Ge => CompareOp::Ge,
        Op::Eq => CompareOp::Eq,
        _ => CompareOp::Ne,
    }
}

fn compare_op(op: Op) -> (c: CompareOp)
    ensures
        c == compare_of(op),
{
    match op {
        Op::Gt => CompareOp::Gt,
        Op::Lt => CompareOp::Lt,
        Op::Le => CompareOp::Le,
        Op::Ge => CompareOp::Ge,
        Op::Eq => CompareOp::Eq,
        _ => CompareOp::Ne,
    }
}

/// The arithmetic the host carries out for an arithmetic operator; the
/// operators other than `+`, `-` and `*` map to division.
pub open spec fn arith_of(op: Op) -> ArithOp {
    match op {
        Op::Plus => ArithOp::Add,
        Op::Minus => ArithOp::Sub,
        Op::Times => ArithOp::Mul,
        _ => ArithOp::Div,
    }
}

fn arith_op(op: Op) -> (a: ArithOp)
    ensures
        a == arith_of(op),
{
    match op {
        Op::Plus => ArithOp::Add,
        Op::Minus => ArithOp::Sub,
        Op::Times => ArithOp::Mul,
        _ => ArithOp::Div,
    }
}

/// Applies a built-in binary operator to two evaluated operands. `node` is
/// the application itself, which `+` on a list and a non-list gives back.
/// Adding two lists gives a new list of the items of both, and leaves both
/// lists as they were.
pub fn binary_op<H: Host>(op: Op, a: NodeRef, b: NodeRef, node: NodeRef, state: &mut State<H>, memory: &mut Memory)
    -> (r: Result<NodeRef, NodeRef>)
    requires
        env_ok(*old(state), old(memory)@),
        a.id < old(memory)@.len(),
        b.id < old(memory)@.len(),
        node.id < old(memory)@.len(),
    ensures
        steps(*old(state), old(memory)@, *final(state), final(memory)@),
        *final(state) == *old(state),
        result_ok(r, final(memory)@),
        builtin_outcome(old(memory)@, op, a, b) matches Some(o) ==> outcome_holds(final(memory)@, r, o),
        old(memory)@.len() <= final(memory)@.len(),
        final(memory)@.subrange(0, old(memory)@.len() as int) == old(memory)@,
        op == Op::Plus && kind_at(old(memory)@, a) == Kind::List
            ==> joined(old(memory)@, final(memory)@, a, b, node, r),
        op == Op::Divide && (kind_at(old(memory)@, a) == Kind::Integer || kind_at(old(memory)@, a) == Kind::Real)
            && int_at(old(memory)@, b) == Some(0int)
            ==> (r matches Err(e) && exception_parts(final(memory)@, e) == Some(("ArithmeticError"@, "divison by zero"@))),
        op != Op::Or && op != Op::And && (kind_at(old(memory)@, a) == Kind::Real || kind_at(old(memory)@, b) == Kind::Real)
            && (kind_at(old(memory)@, a) == Kind::Integer || kind_at(old(memory)@, a) == Kind::Real)
            && (kind_at(old(memory)@, b) == Kind::Integer || kind_at(old(memory)@, b) == Kind::Real)
            ==> real_outcome(final(memory)@, op, match int_at(old(memory)@, b) { Some(v) => Some(v == 0), None => None }, r),
        op == Op::Plus && kind_at(old(memory)@, a) == Kind::Real ==> (string_at(old(memory)@, b) matches Some(t)
            ==> (r matches Ok(v) && (string_at(final(memory)@, v) matches Some(x) && x.len() >= t.len()
                && x.subrange(x.len() - t.len(), x.len() as int) == t))),
        op == Op::Plus && kind_at(old(memory)@, b) == Kind::Real ==> (string_at(old(memory)@, a) matches Some(t)
            ==> (r matches Ok(v) && (string_at(final(memory)@, v) matches Some(x) && x.len() >= t.len()
                && x.subrange(0, t.len() as int) == t))),
{
    if op == Op::Or || op == Op::And {
        let ba = map2boolean::<H>(memory.get(a));
        let bb = map2boolean::<H>(memory.get(b));
        let x = match ba { Node::AstroBool(v) => v.value, _ => false };
        let y = match bb { Node::AstroBool(v) => v.value, _ => false };
        let v = if op == Op::Or { x || y } else { x && y };
        return bool_result(v, state, memory);
    }
    let la = read_lit(a, memory);
    let lb = read_lit(b, memory);
    let a_numeric = match la { Lit::Int(_) => true, Lit::Real(_) => true, _ => false };
    let named = if op == Op::Minus && !a_numeric { a } else { b };
    match (la, lb) {
        (Lit::Int(x), Lit::Int(y)) => {
            if op == Op::Plus || op == Op::Minus || op == Op::Times {
                int_result(int_arith(op, x, y), state, memory)
            } else if op == Op::Divide {
                if y == 0 {
                    Err(raise("ArithmeticError", "divison by zero", state, memory))
                } else {
                    int_result(int_div(x, y), state, memory)
                }
            } else {
                bool_result(compare_ints(op, x, y), state, memory)
            }
        },
        (Lit::Int(x), Lit::Real(y)) => real_mixed::<H>(op, Number::Int(x), Number::Real(y), state, memory),
        (Lit::Real(x), Lit::Int(y)) => real_mixed::<H>(op, Number::Real(x), Number::Int(y), state, memory),
        (Lit::Real(x), Lit::Real(y)) => real_mixed::<H>(op, Number::Real(x), Number::Real(y), state, memory),
        (Lit::Real(x), Lit::Str(t)) => {
            if op == Op::Plus {
                let s = H::real_to_string(x);
                text_result(text2(s.as_str(), t.as_str()), state, memory)
            } else {
                unsupported(op, named, state, memory)
            }
        },
        (Lit::Str(s), Lit::Real(y)) => {
            if op == Op::Plus {
                let t = H::real_to_string(y);
                text_result(text2(s.as_str(), t.as_str()), state, memory)
            } else if op == Op::Eq {
                bool_result(false, state, memory)
            } else {
                unsupported(op, named, state, memory)
            }
        },
        (Lit::Real(_), Lit::Other) => unsupported(op, named, state, memory),
        (Lit::Other, Lit::Real(_)) => {
            if op == Op::Eq {
                bool_result(false, state, memory)
            } else if op == Op::Plus && node_kind(memory.get(a)) == Kind::List {
                add_lists(a, b, node, state, memory)
            } else {
                unsupported(op, named, state, memory)
            }
        },
        (la, lb) => {
            if op == Op::Plus {
                match (la, lb) {
                    (Lit::Str(s), Lit::Str(t)) => text_result(text2(s.as_str(), t.as_str()), state, memory),
                    (Lit::Str(s), Lit::Int(y)) => {
                        let t = int_to_string(y);
                        text_result(text2(s.as_str(), t.as_str()), state, memory)
                    },
                    (Lit::Int(x), Lit::Str(t)) => {
                        let s = int_to_string(x);
                        text_result(text2(s.as_str(), t.as_str()), state, memory)
                    },
                    (Lit::Int(_), _) => unsupported(op, named, state, memory),
                    (Lit::Str(_), _) => unsupported(op, named, state, memory),
                    _ => {
                        if node_kind(memory.get(a)) == Kind::List {
                            add_lists(a, b, node, state, memory)
                        } else {
                            unsupported(op, named, state, memory)
                        }
                    },
                }
            } else if op == Op::Eq {
                match la {
                    Lit::Int(_) => unsupported(op, named, state, memory),
                    _ => bool_result(false, state, memory),
                }
            } else {
                unsupported(op, named, state, memory)
            }
        },
    }
}

/// What a built-in operator gives on numbers one of which is real, the
/// host computing the value: a real number for arithmetic (or an
/// `ArithmeticError` for a division by zero), a boolean for a comparison.
pub open spec fn real_outcome(m: Seq<Node>, op: Op, divisor_zero: Option<bool>, r: Result<NodeRef, NodeRef>) -> bool {
    &&& (op == Op::Plus || op == Op::Minus || op == Op::Times) ==> (r matches Ok(v) && kind_at(m, v) == Kind::Real)
    &&& op == Op::Divide ==> ((r matches Ok(v) && kind_at(m, v) == Kind::Real) || (r matches Err(e) && raised(m, e, "ArithmeticError"@)))
    &&& op == Op::Divide && divisor_zero == Some(true) ==> (r matches Err(e) && raised(m, e, "ArithmeticError"@))
    &&& !(op == Op::Plus || op == Op::Minus || op == Op::Times || op == Op::Divide) ==> (r matches Ok(v) && bool_at(m, v) is Some)
}

/// A built-in operator on real numbers, computed by the host.
fn real_mixed<H: Host>(op: Op, x: Number, y: Number, state: &mut State<H>, memory: &mut Memory) -> (r: Result<NodeRef, NodeRef>)
    requires
        env_ok(*old(state), old(memory)@),
        op != Op::Or && op != Op::And,
    ensures
        steps(*old(state), old(memory)@, *final(state), final(memory)@),
        final(memory)@.subrange(0, old(memory)@.len() as int) == old(memory)@,
        *final(state) == *old(state),
        result_ok(r, final(memory)@),
        real_outcome(final(memory)@, op, match y { Number::Int(v) => Some(v == 0), _ => None }, r),
        op == Op::Divide && (y matches Number::Int(v) && v == 0) ==> (r matches Err(e)
            && exception_parts(final(memory)@, e) == Some(("ArithmeticError"@, "divison by zero"@))),
{
    if op == Op::Plus || op == Op::Minus || op == Op::Times {
        real_result(H::real_arith(arith_op(op), x, y), state, memory)
    } else if op == Op::Divide {
        let zero = match y {
            Number::Int(v) => v == 0,
            Number::Real(bits) => H::real_is_zero(bits),
        };
        if zero {
            Err(raise("ArithmeticError", "divison by zero", state, memory))
        } else {
            real_result(H::real_arith(ArithOp::Div, x, y), state, memory)
        }
    } else {
        bool_result(H::real_compare(compare_op(op), x, y), state, memory)
    }
}

/// The result of `a + b` on a list `a`: a new list of the items of `a`
/// followed by those of `b`, with every node stored before left as it was,
/// or the application `node` itself where `b` is not a list.
pub open spec fn joined(m0: Seq<Node>, m1: Seq<Node>, a: NodeRef, b: NodeRef, node: NodeRef, r: Result<NodeRef, NodeRef>) -> bool {
    list_at(m0, a) matches Some(x) ==> {
        &&& list_at(m0, b) matches Some(y) ==> (r matches Ok(v) && v.id == m0.len() && list_at(m1, v) == Some(x + y)
            && m1 == m0.push(m1[v.id as int]))
        &&& list_at(m0, b) is None ==> r == Ok::<NodeRef, NodeRef>(node) && m1 == m0
    }
}

/// Joins two lists into a new list; both lists keep their items.
fn add_lists<H: Host>(a: NodeRef, b: NodeRef, node: NodeRef, state: &mut State<H>, memory: &mut Memory) -> (r: Result<NodeRef, NodeRef>)
    requires
        env_ok(*old(state), old(memory)@),
        a.id < old(memory)@.len(),
        b.id < old(memory)@.len(),
        node.id < old(memory)@.len(),
    ensures
        steps(*old(state), old(memory)@, *final(state), final(memory)@),
        final(memory)@.subrange(0, old(memory)@.len() as int) == old(memory)@,
        *final(state) == *old(state),
        result_ok(r, final(memory)@),
        joined(old(memory)@, final(memory)@, a, b, node, r),
{
    let c1 = match memory.get(a) { Node::AstroList(x) => Some(copy_refs(&x.contents)), _ => None };
    let c2 = match memory.get(b) { Node::AstroList(x) => Some(copy_refs(&x.contents)), _ => None };
    match (c1, c2) {
        (Some(c1), Some(c2)) => {
            proof {
                assert(node_ok(memory@[a.id as int], memory@.len(), state.frames@.len()));
                assert(node_ok(memory@[b.id as int], memory@.len(), state.frames@.len()));
            }
            let mut c3 = c1;
            let mut rest = c2;
            c3.append(&mut rest);
            Ok(store(state, memory, Node::AstroList(AstroList { contents: c3 })))
        },
        _ => Ok(node),
    }
}

} // verus!
