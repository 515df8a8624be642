use asteroid_vm::ast::{
    AstroApply, AstroBool, AstroEval, AstroFunction, AstroFunctionVal, AstroHeadTail, AstroID, AstroIf, AstroIn, AstroIndex, AstroInteger, AstroIs,
    AstroDeref, AstroList, AstroNamedPattern, AstroNone, AstroObject, AstroPair, AstroQuote, AstroReal, AstroSequence, AstroString,
    AstroStruct, AstroToList, AstroTuple, AstroTypeMatch, AstroRawHeadTail, AstroLineInfo, Node, NodeRef,
    AstroEscape, Closure, encode_node, peek,
};
use asteroid_vm::builtins::{binary_op, operator_symbol, Op};
use asteroid_vm::exception::new_exception;
use asteroid_vm::host::{ArithOp, CompareOp, Host, Number};
use asteroid_vm::index::{declare_formal_args, read_at_ix, store_at_ix};
use asteroid_vm::memory::Memory;
use asteroid_vm::report::{describe_error, error_report};
use asteroid_vm::state::{Functions, State};
use asteroid_vm::support::{data_ix_list, data_only, int_to_string, term2string};
use asteroid_vm::unify::{check_repeated_symbols, regex_outcome, unify, unify_if, unify_string_to_string};
use asteroid_vm::walk::{apply_exp, construct_object, escape_setup, handle_builtins, handle_call, to_list_exp, walk};

/// A compiled function of the tests; the only one defined is `double`,
/// which doubles an integer.
#[derive(Clone, Copy)]
struct Plain(fn(NodeRef, &mut State<Plain>, &mut Memory) -> Result<NodeRef, NodeRef>);

/// A state whose only compiled function is `double`.
fn plain_state() -> State<Plain> {
    let mut state = State::new();
    state.dispatch_table.insert("double".to_string(), Plain(double));
    state
}

fn double(arg: NodeRef, state: &mut State<Plain>, memory: &mut Memory) -> Result<NodeRef, NodeRef> {
    state.lineinfo = ("inside".to_string(), 99);
    state.push_scope();
    match memory.get(arg) {
        Node::AstroInteger(AstroInteger { value }) => {
            let v = *value;
            Ok(memory.alloc_rc(Node::AstroInteger(AstroInteger::new(2 * v))))
        }
        _ => Err(new_exception("ValueError".to_string(), "double expects an integer".to_string(), state, memory)),
    }
}

fn number(n: Number) -> f64 {
    match n {
        Number::Int(i) => i as f64,
        Number::Real(bits) => f64::from_bits(bits),
    }
}

impl Host for Plain {
    fn call_function(f: Plain, args: NodeRef, mut state: State<Plain>, mut memory: Memory) -> (State<Plain>, Memory, Result<NodeRef, NodeRef>) {
        let r = (f.0)(args, &mut state, &mut memory);
        (state, memory, r)
    }

    fn real_arith(op: ArithOp, a: Number, b: Number) -> u64 {
        let (x, y) = (number(a), number(b));
        match op {
            ArithOp::Add => x + y,
            ArithOp::Sub => x - y,
            ArithOp::Mul => x * y,
            ArithOp::Div => x / y,
        }
        .to_bits()
    }

    fn real_compare(op: CompareOp, a: Number, b: Number) -> bool {
        let (x, y) = (number(a), number(b));
        match op {
            CompareOp::Eq => x == y,
            CompareOp::Ne => x != y,
            CompareOp::Lt => x < y,
            CompareOp::Le => x <= y,
            CompareOp::Gt => x > y,
            CompareOp::Ge => x >= y,
        }
    }

    fn real_is_zero(bits: u64) -> bool {
        f64::from_bits(bits) == 0.0
    }

    fn real_to_string(bits: u64) -> String {
        f64::from_bits(bits).to_string()
    }
}

fn integer(memory: &mut Memory, v: isize) -> NodeRef {
    memory.alloc_rc(Node::AstroInteger(AstroInteger::new(v)))
}

fn id(memory: &mut Memory, name: &str) -> NodeRef {
    memory.alloc_rc(Node::AstroID(AstroID::new(name.to_string())))
}

fn text(memory: &mut Memory, s: &str) -> NodeRef {
    memory.alloc_rc(Node::AstroString(AstroString::new(s.to_string())))
}

fn list(memory: &mut Memory, items: Vec<NodeRef>) -> NodeRef {
    memory.alloc_rc(Node::AstroList(AstroList::new(items)))
}

fn int_of(memory: &Memory, r: NodeRef) -> isize {
    match memory.get(r) {
        Node::AstroInteger(AstroInteger { value }) => *value,
        _ => panic!("not an integer"),
    }
}

/// The kind and the message of an exception made by the interpreter.
fn exception_of(memory: &Memory, e: NodeRef) -> (String, String) {
    let Node::AstroApply(AstroApply { function, argument }) = memory.get(e) else { panic!("not an exception") };
    let Node::AstroID(AstroID { name }) = memory.get(*function) else { panic!("not an exception") };
    assert_eq!(name, "Exception");
    let Node::AstroTuple(AstroTuple { contents }) = memory.get(*argument) else { panic!("not an exception") };
    let Node::AstroString(AstroString { value: kind }) = memory.get(contents[0]) else { panic!("not an exception") };
    let Node::AstroString(AstroString { value: msg }) = memory.get(contents[1]) else { panic!("not an exception") };
    (kind.clone(), msg.clone())
}

fn apply_op(memory: &mut Memory, op: &str, a: NodeRef, b: NodeRef) -> NodeRef {
    let f = id(memory, op);
    let p = memory.alloc_rc(Node::AstroPair(AstroPair::new(a, b)));
    memory.alloc_rc(Node::AstroApply(AstroApply::new(f, p)))
}

#[test]
fn lookup_after_enter_gives_the_value() {
    let mut memory = Memory::new();
    let mut state = plain_state();
    let v = integer(&mut memory, 7);
    assert_eq!(state.lookup_sym("x"), None);
    state.enter_sym("x", v);
    assert_eq!(state.lookup_sym("x"), Some(v));
    assert_eq!(state.lookup_sym("y"), None);
    let w = integer(&mut memory, 8);
    state.enter_sym("x", w);
    assert_eq!(state.lookup_sym("x"), Some(w));
}

#[test]
fn inner_scope_shadows_and_pop_restores() {
    let mut memory = Memory::new();
    let mut state = plain_state();
    let outer = integer(&mut memory, 1);
    let inner = integer(&mut memory, 2);
    state.enter_sym("x", outer);
    state.push_scope();
    assert_eq!(state.lookup_sym("x"), Some(outer));
    state.enter_sym("x", inner);
    assert_eq!(state.lookup_sym("x"), Some(inner));
    state.pop_scope();
    assert_eq!(state.lookup_sym("x"), Some(outer));
    // the global scope is never closed
    state.pop_scope();
    assert_eq!(state.lookup_sym("x"), Some(outer));
}

#[test]
fn global_declaration_binds_in_the_global_scope() {
    let mut memory = Memory::new();
    let mut state = plain_state();
    let v = integer(&mut memory, 3);
    state.push_scope();
    state.enter_global("g");
    state.enter_sym("g", v);
    state.pop_scope();
    assert_eq!(state.lookup_sym("g"), Some(v));
    assert_eq!(state.find_sym("g"), Some(0));
    assert_eq!(state.find_sym("h"), None);
}

#[test]
fn a_value_evaluates_to_itself() {
    let mut memory = Memory::new();
    let mut state = plain_state();
    let v = integer(&mut memory, 5);
    let s = text(&mut memory, "abc");
    let before = memory.len();
    assert_eq!(walk(v, &mut state, &mut memory), Ok(v));
    assert_eq!(walk(s, &mut state, &mut memory), Ok(s));
    assert_eq!(memory.len(), before);
}

#[test]
fn an_undefined_variable_is_a_value_error() {
    let mut memory = Memory::new();
    let mut state = plain_state();
    let x = id(&mut memory, "nowhere");
    let e = walk(x, &mut state, &mut memory).unwrap_err();
    assert_eq!(exception_of(&memory, e), ("ValueError".to_string(), "'nowhere' is not defined".to_string()));
}

#[test]
fn a_variable_pattern_binds_the_term() {
    let mut memory = Memory::new();
    let mut state = plain_state();
    let t = integer(&mut memory, 4);
    let x = id(&mut memory, "x");
    let under = id(&mut memory, "_");
    assert_eq!(unify(t, x, &mut state, &mut memory, true).unwrap(), vec![(x, t)]);
    assert_eq!(unify(t, under, &mut state, &mut memory, true).unwrap(), vec![]);
}

#[test]
fn lists_of_different_lengths_do_not_match() {
    let mut memory = Memory::new();
    let mut state = plain_state();
    let a = integer(&mut memory, 1);
    let b = integer(&mut memory, 2);
    let x = id(&mut memory, "x");
    let t = list(&mut memory, vec![a, b]);
    let p = list(&mut memory, vec![x]);
    let e = unify(t, p, &mut state, &mut memory, true).unwrap_err();
    assert_eq!(exception_of(&memory, e).0, "PatternMatchFailed");
}

#[test]
fn the_none_pattern_refuses_none_and_takes_the_rest() {
    let mut memory = Memory::new();
    let mut state = plain_state();
    let none = memory.alloc_rc(Node::AstroNone(AstroNone::new()));
    let none_pattern = memory.alloc_rc(Node::AstroNone(AstroNone::new()));
    let one = integer(&mut memory, 1);
    assert!(unify(none, none_pattern, &mut state, &mut memory, true).is_err());
    assert_eq!(unify(one, none_pattern, &mut state, &mut memory, true).unwrap(), vec![]);
}

#[test]
fn string_patterns_are_anchored_regular_expressions() {
    let mut memory = Memory::new();
    let mut state = plain_state();
    let t = text(&mut memory, "hello");
    let p1 = text(&mut memory, "h.*o");
    let p2 = text(&mut memory, "ell");
    let p3 = text(&mut memory, "(");
    assert_eq!(unify_string_to_string(t, p1, &mut state, &mut memory, true).unwrap(), vec![]);
    let e = unify_string_to_string(t, p2, &mut state, &mut memory, true).unwrap_err();
    assert_eq!(exception_of(&memory, e), ("PatternMatchFailed".to_string(), "regular expression ell did not match hello".to_string()));
    let e = unify_string_to_string(t, p3, &mut state, &mut memory, true).unwrap_err();
    assert_eq!(exception_of(&memory, e).0, "VMError");
}

#[test]
fn the_outcome_of_a_regular_expression_decides_the_match() {
    let mut memory = Memory::new();
    let mut state = plain_state();
    let t = text(&mut memory, "abc");
    let p = text(&mut memory, "x+");
    assert_eq!(regex_outcome(Some(true), t, p, &mut state, &mut memory), Ok(vec![]));
    let e = regex_outcome(Some(false), t, p, &mut state, &mut memory).unwrap_err();
    assert_eq!(exception_of(&memory, e), ("PatternMatchFailed".to_string(), "regular expression x+ did not match abc".to_string()));
    let e = regex_outcome(None, t, p, &mut state, &mut memory).unwrap_err();
    assert_eq!(exception_of(&memory, e), ("VMError".to_string(), "unify: invalid regular expression.".to_string()));
}

#[test]
fn a_write_then_a_read_gives_the_value_written() {
    let mut memory = Memory::new();
    let mut state = plain_state();
    let a = integer(&mut memory, 10);
    let b = integer(&mut memory, 20);
    let l = list(&mut memory, vec![a, b]);
    state.enter_sym("l", l);
    let x = id(&mut memory, "l");
    let one = integer(&mut memory, 1);
    let v = integer(&mut memory, 99);
    store_at_ix(x, one, v, &mut state, &mut memory).unwrap();
    assert_eq!(read_at_ix(l, one, &mut state, &mut memory), Ok(v));
    let zero = integer(&mut memory, 0);
    assert_eq!(read_at_ix(l, zero, &mut state, &mut memory), Ok(a));
    let five = integer(&mut memory, 5);
    let e = store_at_ix(x, five, v, &mut state, &mut memory).unwrap_err();
    assert_eq!(exception_of(&memory, e), ("ValueError".to_string(), "index out of range: 5".to_string()));
    let e = read_at_ix(l, five, &mut state, &mut memory).unwrap_err();
    assert_eq!(exception_of(&memory, e).0, "ValueError");
}

#[test]
fn a_member_write_then_a_read_gives_the_value_written() {
    let mut memory = Memory::new();
    let mut state = plain_state();
    let a = id(&mut memory, "a");
    let b = id(&mut memory, "b");
    let c1 = memory.alloc_rc(Node::AstroNone(AstroNone::new()));
    let c2 = memory.alloc_rc(Node::AstroNone(AstroNone::new()));
    let st = memory.alloc_rc(Node::AstroStruct(AstroStruct::new(vec![a, b], vec![c1, c2])));
    state.enter_sym("P", st);
    let one = integer(&mut memory, 1);
    let two = integer(&mut memory, 2);
    let obj = memory.alloc_rc(Node::AstroObject(AstroObject::new(AstroID::new("P".to_string()), vec![one, two])));
    state.enter_sym("p", obj);
    let x = id(&mut memory, "p");
    let member = id(&mut memory, "b");
    let v = integer(&mut memory, 42);
    store_at_ix(x, member, v, &mut state, &mut memory).unwrap();
    assert_eq!(read_at_ix(obj, member, &mut state, &mut memory), Ok(v));
    let other = id(&mut memory, "a");
    assert_eq!(read_at_ix(obj, other, &mut state, &mut memory), Ok(one));
    // a name that is not a member reads the first slot
    let unknown = id(&mut memory, "z");
    assert_eq!(read_at_ix(obj, unknown, &mut state, &mut memory), Ok(one));
}

#[test]
fn a_string_is_read_character_by_character() {
    let mut memory = Memory::new();
    let mut state = plain_state();
    let s = text(&mut memory, "abc");
    let one = integer(&mut memory, 1);
    let r = read_at_ix(s, one, &mut state, &mut memory).unwrap();
    assert!(matches!(memory.get(r), Node::AstroString(AstroString { value }) if value == "b"));
    let nine = integer(&mut memory, 9);
    let e = read_at_ix(s, nine, &mut state, &mut memory).unwrap_err();
    assert_eq!(exception_of(&memory, e), ("ValueError".to_string(), "String 'abc' too short for index value 9".to_string()));
}

#[test]
fn formal_arguments_bind_the_last_value_of_each_name() {
    let mut memory = Memory::new();
    let mut state = plain_state();
    let x1 = id(&mut memory, "x");
    let x2 = id(&mut memory, "x");
    let y = id(&mut memory, "y");
    let a = integer(&mut memory, 1);
    let b = integer(&mut memory, 2);
    let c = integer(&mut memory, 3);
    declare_formal_args(&vec![(x1, a), (y, b), (x2, c)], &mut state, &mut memory).unwrap();
    assert_eq!(state.lookup_sym("x"), Some(c));
    assert_eq!(state.lookup_sym("y"), Some(b));
    let this = id(&mut memory, "this");
    let e = declare_formal_args(&vec![(this, a)], &mut state, &mut memory).unwrap_err();
    assert_eq!(exception_of(&memory, e), ("ValueError".to_string(), "'this' is a reserved keyword.".to_string()));
}

#[test]
fn integer_arithmetic_is_exact_or_refused() {
    let mut memory = Memory::new();
    let mut state = plain_state();
    let a = integer(&mut memory, -7);
    let b = integer(&mut memory, 2);
    let node = apply_op(&mut memory, "__divide__", a, b);
    let q = walk(node, &mut state, &mut memory).unwrap();
    assert_eq!(int_of(&memory, q), -3);
    let big = integer(&mut memory, isize::MAX);
    let node = apply_op(&mut memory, "__plus__", big, b);
    let e = walk(node, &mut state, &mut memory).unwrap_err();
    assert_eq!(exception_of(&memory, e), ("ArithmeticError".to_string(), "integer overflow".to_string()));
    let zero = integer(&mut memory, 0);
    let node = apply_op(&mut memory, "__divide__", a, zero);
    let e = walk(node, &mut state, &mut memory).unwrap_err();
    assert_eq!(exception_of(&memory, e), ("ArithmeticError".to_string(), "divison by zero".to_string()));
    let node = apply_op(&mut memory, "__times__", a, b);
    let p = walk(node, &mut state, &mut memory).unwrap();
    assert_eq!(int_of(&memory, p), -14);
}

#[test]
fn operators_on_other_values() {
    let mut memory = Memory::new();
    let mut state = plain_state();
    let s = text(&mut memory, "n=");
    let n = integer(&mut memory, 12);
    let t = binary_op(Op::Plus, s, n, s, &mut state, &mut memory).unwrap();
    assert!(matches!(memory.get(t), Node::AstroString(AstroString { value }) if value == "n=12"));
    let e = binary_op(Op::Minus, s, n, s, &mut state, &mut memory).unwrap_err();
    assert_eq!(exception_of(&memory, e), ("ValueError".to_string(), "Unsupported type string in -".to_string()));
    let e = binary_op(Op::Le, n, s, s, &mut state, &mut memory).unwrap_err();
    assert_eq!(exception_of(&memory, e).0, "Unsupported type string in <=");
    let f = binary_op(Op::Eq, s, n, s, &mut state, &mut memory).unwrap();
    assert!(matches!(memory.get(f), Node::AstroBool(b) if !b.value));
    let r = memory.alloc_rc(Node::AstroReal(AstroReal::new(1.5f64.to_bits())));
    let sum = binary_op(Op::Plus, n, r, s, &mut state, &mut memory).unwrap();
    assert!(matches!(memory.get(sum), Node::AstroReal(x) if f64::from_bits(x.bits) == 13.5));
    assert_eq!(operator_symbol("__ge__"), Some(Op::Ge));
    assert_eq!(operator_symbol("plus"), None);
}

#[test]
fn adding_lists_joins_them() {
    let mut memory = Memory::new();
    let mut state = plain_state();
    let a = integer(&mut memory, 1);
    let b = integer(&mut memory, 2);
    let l1 = list(&mut memory, vec![a]);
    let l2 = list(&mut memory, vec![b]);
    let j = binary_op(Op::Plus, l1, l2, l1, &mut state, &mut memory).unwrap();
    assert!(matches!(memory.get(j), Node::AstroList(l) if l.contents == vec![a, b]));
    // both operands keep their items
    assert!(matches!(memory.get(l1), Node::AstroList(l) if l.contents == vec![a]));
    assert!(matches!(memory.get(l2), Node::AstroList(l) if l.contents == vec![b]));
    // through the operator, with one operand a variable
    state.enter_sym("xs", l2);
    let xs = id(&mut memory, "xs");
    let call = apply_op(&mut memory, "__plus__", l1, xs);
    let j = walk(call, &mut state, &mut memory).unwrap();
    assert!(matches!(memory.get(j), Node::AstroList(l) if l.contents == vec![a, b]));
    assert!(matches!(memory.get(l2), Node::AstroList(l) if l.contents == vec![b]));
}

#[test]
fn dividing_by_zero_is_an_arithmetic_error() {
    let mut memory = Memory::new();
    let mut state = plain_state();
    let a = integer(&mut memory, 7);
    let zero = integer(&mut memory, 0);
    state.enter_sym("z", zero);
    let z = id(&mut memory, "z");
    let call = apply_op(&mut memory, "__divide__", a, z);
    let e = walk(call, &mut state, &mut memory).unwrap_err();
    assert_eq!(exception_of(&memory, e), ("ArithmeticError".to_string(), "divison by zero".to_string()));
    let r = memory.alloc_rc(Node::AstroReal(AstroReal::new(1.5f64.to_bits())));
    let e = binary_op(Op::Divide, r, zero, r, &mut state, &mut memory).unwrap_err();
    assert_eq!(exception_of(&memory, e), ("ArithmeticError".to_string(), "divison by zero".to_string()));
}

#[test]
fn lists_match_item_by_item() {
    let mut memory = Memory::new();
    let mut state = plain_state();
    let one = integer(&mut memory, 1);
    let two = integer(&mut memory, 2);
    let three = integer(&mut memory, 3);
    let l123 = list(&mut memory, vec![one, two, three]);
    let one_b = integer(&mut memory, 1);
    let two_b = integer(&mut memory, 2);
    let three_b = integer(&mut memory, 3);
    let l123b = list(&mut memory, vec![one_b, two_b, three_b]);
    let l321 = list(&mut memory, vec![three_b, two_b, one_b]);
    assert_eq!(unify(l123, l123b, &mut state, &mut memory, true), Ok(vec![]));
    let e = unify(l123, l321, &mut state, &mut memory, true).unwrap_err();
    assert_eq!(exception_of(&memory, e).0, "PatternMatchFailed");
    let x = id(&mut memory, "x");
    let y = id(&mut memory, "y");
    let p = list(&mut memory, vec![x, y, three_b]);
    assert_eq!(unify(l123, p, &mut state, &mut memory, true), Ok(vec![(x, one), (y, two)]));
    // a variable may occur only once in a list pattern
    let x2 = id(&mut memory, "x");
    let l12 = list(&mut memory, vec![one, two]);
    let pxx = list(&mut memory, vec![x, x2]);
    let e = unify(l12, pxx, &mut state, &mut memory, true).unwrap_err();
    assert_eq!(exception_of(&memory, e).0, "NonLinearPattern");
}

#[test]
fn type_patterns_on_booleans_and_functions() {
    let mut memory = Memory::new();
    let mut state = plain_state();
    let t = memory.alloc_rc(Node::AstroBool(AstroBool::new(true)));
    let bname = text(&mut memory, "boolean");
    let tb = memory.alloc_rc(Node::AstroTypeMatch(AstroTypeMatch::new(bname)));
    assert_eq!(unify(t, tb, &mut state, &mut memory, true), Ok(vec![]));
    let body = id(&mut memory, "f");
    let fv = memory.alloc_rc(Node::AstroFunctionVal(AstroFunctionVal::new(body, Closure { scopes: vec![0], level: 0 })));
    let fname = text(&mut memory, "function");
    let tf = memory.alloc_rc(Node::AstroTypeMatch(AstroTypeMatch::new(fname)));
    assert_eq!(unify(fv, tf, &mut state, &mut memory, true), Ok(vec![]));
    let e = unify(t, tf, &mut state, &mut memory, true).unwrap_err();
    assert_eq!(exception_of(&memory, e).0, "PatternMatchFailed");
}

#[test]
fn ranges_are_inclusive() {
    let mut memory = Memory::new();
    let mut state = plain_state();
    let start = integer(&mut memory, 1);
    let stop = integer(&mut memory, 7);
    let stride = integer(&mut memory, 3);
    let r = memory.alloc_rc(Node::AstroToList(AstroToList::new(start, stop, stride)));
    let l = to_list_exp(r, &mut state, &mut memory).unwrap();
    let Node::AstroList(AstroList { contents }) = memory.get(l) else { panic!("not a list") };
    let values: Vec<isize> = contents.iter().map(|c| int_of(&memory, *c)).collect();
    assert_eq!(values, vec![1, 4, 7]);
    let zero = integer(&mut memory, 0);
    let r = memory.alloc_rc(Node::AstroToList(AstroToList::new(start, stop, zero)));
    let e = to_list_exp(r, &mut state, &mut memory).unwrap_err();
    assert_eq!(exception_of(&memory, e).0, "VMError");
}

#[test]
fn head_tail_patterns_split_a_list() {
    let mut memory = Memory::new();
    let mut state = plain_state();
    let a = integer(&mut memory, 1);
    let b = integer(&mut memory, 2);
    let c = integer(&mut memory, 3);
    let l = list(&mut memory, vec![a, b, c]);
    let h = id(&mut memory, "h");
    let t = id(&mut memory, "t");
    let p = memory.alloc_rc(Node::AstroHeadTail(AstroHeadTail::new(h, t)));
    let u = unify(l, p, &mut state, &mut memory, true).unwrap();
    assert_eq!(u.len(), 2);
    assert_eq!(u[0], (h, a));
    let Node::AstroList(AstroList { contents }) = memory.get(u[1].1) else { panic!("tail is not a list") };
    assert_eq!(*contents, vec![b, c]);
    assert_eq!(u[1].0, t);
    // the matched list keeps only its head
    let Node::AstroList(AstroList { contents }) = memory.get(l) else { panic!("not a list") };
    assert_eq!(*contents, vec![a]);
    let empty = list(&mut memory, vec![]);
    let e = unify(empty, p, &mut state, &mut memory, true).unwrap_err();
    assert_eq!(exception_of(&memory, e).0, "PatternMatchFailed");
}

#[test]
fn conditional_patterns_check_their_condition() {
    let mut memory = Memory::new();
    let mut state = plain_state();
    let x = id(&mut memory, "x");
    let zero = integer(&mut memory, 0);
    let cond = apply_op(&mut memory, "__gt__", x, zero);
    let none = memory.alloc_rc(Node::AstroNone(AstroNone::new()));
    let x2 = id(&mut memory, "x");
    let p = memory.alloc_rc(Node::AstroIf(AstroIf::new(cond, x2, none)));
    let two = integer(&mut memory, 2);
    let minus = integer(&mut memory, -2);
    assert_eq!(unify(two, p, &mut state, &mut memory, true).unwrap(), vec![(x2, two)]);
    let e = unify(minus, p, &mut state, &mut memory, true).unwrap_err();
    assert_eq!(exception_of(&memory, e).0, "PatternMatchFailed");
    // the bindings made for the condition do not outlive the match
    assert_eq!(state.lookup_sym("x"), None);
}

#[test]
fn is_and_in_give_booleans() {
    let mut memory = Memory::new();
    let mut state = plain_state();
    let a = integer(&mut memory, 1);
    let b = integer(&mut memory, 2);
    let l = list(&mut memory, vec![a, b]);
    let probe = integer(&mut memory, 2);
    let in_node = memory.alloc_rc(Node::AstroIn(AstroIn::new(probe, l)));
    let r = walk(in_node, &mut state, &mut memory).unwrap();
    assert!(matches!(memory.get(r), Node::AstroBool(x) if x.value));
    let absent = integer(&mut memory, 5);
    let in_node = memory.alloc_rc(Node::AstroIn(AstroIn::new(absent, l)));
    let r = walk(in_node, &mut state, &mut memory).unwrap();
    assert!(matches!(memory.get(r), Node::AstroBool(x) if !x.value));
    state.enter_sym("xs", l);
    let xs = id(&mut memory, "xs");
    let in_node = memory.alloc_rc(Node::AstroIn(AstroIn::new(probe, xs)));
    let r = walk(in_node, &mut state, &mut memory).unwrap();
    assert!(matches!(memory.get(r), Node::AstroBool(x) if x.value));
    state.enter_sym("n", a);
    let n = id(&mut memory, "n");
    let in_node = memory.alloc_rc(Node::AstroIn(AstroIn::new(probe, n)));
    let e = walk(in_node, &mut state, &mut memory).unwrap_err();
    assert_eq!(exception_of(&memory, e).0, "VMError");
    let y = id(&mut memory, "y");
    let is_node = memory.alloc_rc(Node::AstroIs(AstroIs::new(y, b)));
    let r = walk(is_node, &mut state, &mut memory).unwrap();
    assert!(matches!(memory.get(r), Node::AstroBool(x) if x.value));
    assert_eq!(state.lookup_sym("y"), Some(b));
    let s = text(&mut memory, "s");
    let is_node = memory.alloc_rc(Node::AstroIs(AstroIs::new(s, b)));
    let r = walk(is_node, &mut state, &mut memory).unwrap();
    assert!(matches!(memory.get(r), Node::AstroBool(x) if !x.value));
}

#[test]
fn a_call_restores_the_callers_scope_and_line() {
    let mut memory = Memory::new();
    let mut state = plain_state();
    let name = id(&mut memory, "double");
    let f = memory.alloc_rc(Node::AstroFunction(AstroFunction::new(name)));
    let fv = walk(f, &mut state, &mut memory).unwrap();
    state.lineinfo = ("caller".to_string(), 4);
    let scopes_before = state.get_config();
    let none = memory.alloc_rc(Node::AstroNone(AstroNone::new()));
    let arg = integer(&mut memory, 21);
    let r = handle_call(none, fv, arg, &mut state, &mut memory).unwrap();
    assert_eq!(int_of(&memory, r), 42);
    assert_eq!(state.lineinfo, ("caller".to_string(), 4));
    assert_eq!(state.get_config(), scopes_before);
    let e = handle_call(none, arg, arg, &mut state, &mut memory).unwrap_err();
    assert_eq!(exception_of(&memory, e).0, "VMError");
}

#[test]
fn the_default_constructor_fills_data_members() {
    let mut memory = Memory::new();
    let mut state = plain_state();
    let a = id(&mut memory, "a");
    let b = id(&mut memory, "b");
    let c1 = memory.alloc_rc(Node::AstroNone(AstroNone::new()));
    let c2 = memory.alloc_rc(Node::AstroNone(AstroNone::new()));
    let st = memory.alloc_rc(Node::AstroStruct(AstroStruct::new(vec![a, b], vec![c1, c2])));
    state.enter_sym("P", st);
    assert_eq!(data_ix_list(&vec![c1, c2], &memory), vec![0, 1]);
    assert_eq!(data_only(&vec![c1, c2], &memory), vec![c1, c2]);
    let p = id(&mut memory, "P");
    let one = integer(&mut memory, 1);
    let two = integer(&mut memory, 2);
    let args = memory.alloc_rc(Node::AstroTuple(AstroTuple::new(vec![one, two])));
    let call = memory.alloc_rc(Node::AstroApply(AstroApply::new(p, args)));
    let obj = walk(call, &mut state, &mut memory).unwrap();
    let Node::AstroObject(AstroObject { struct_id, object_memory }) = memory.get(obj) else { panic!("not an object") };
    assert_eq!(struct_id.name, "P");
    assert_eq!(*object_memory, vec![one, two]);
    let few = memory.alloc_rc(Node::AstroTuple(AstroTuple::new(vec![one])));
    let call = memory.alloc_rc(Node::AstroApply(AstroApply::new(p, few)));
    let e = walk(call, &mut state, &mut memory).unwrap_err();
    assert_eq!(exception_of(&memory, e), ("ValueError".to_string(), "default constructor expected 1 arguments got 2".to_string()));
    // reading a member by name
    let member = id(&mut memory, "b");
    assert_eq!(read_at_ix(obj, member, &mut state, &mut memory), Ok(two));
}

#[test]
fn index_expressions_read_bound_lists() {
    let mut memory = Memory::new();
    let mut state = plain_state();
    let a = integer(&mut memory, 10);
    let b = integer(&mut memory, 20);
    let l = list(&mut memory, vec![a, b]);
    state.enter_sym("l", l);
    let x = id(&mut memory, "l");
    let one = integer(&mut memory, 1);
    let ix = memory.alloc_rc(Node::AstroIndex(AstroIndex::new(x, one)));
    assert_eq!(walk(ix, &mut state, &mut memory), Ok(b));
}

#[test]
fn terms_are_written_as_text() {
    let mut memory = Memory::new();
    let a = integer(&mut memory, -3);
    let s = text(&mut memory, "x");
    let inner = memory.alloc_rc(Node::AstroTuple(AstroTuple::new(vec![a, s])));
    let l = list(&mut memory, vec![a, inner]);
    assert_eq!(term2string::<Plain>(l, &memory), "[-3, (-3, x)]");
    assert_eq!(int_to_string(-42), "-42");
    assert_eq!(int_to_string(isize::MIN), isize::MIN.to_string());
    assert_eq!(peek(memory.get(l)), "list");
    assert_eq!(encode_node(memory.get(l)), 7);
}

#[test]
fn repeated_variables_are_found() {
    let mut memory = Memory::new();
    let x1 = id(&mut memory, "x");
    let x2 = id(&mut memory, "x");
    let y = id(&mut memory, "y");
    let v = integer(&mut memory, 1);
    assert!(check_repeated_symbols(&vec![(x1, v), (y, v), (x2, v)], &memory));
    assert!(!check_repeated_symbols(&vec![(x1, v), (y, v)], &memory));
}

#[test]
fn uncaught_exceptions_are_reported() {
    let mut memory = Memory::new();
    let mut state = plain_state();
    let e = new_exception("ValueError".to_string(), "bad".to_string(), &mut state, &mut memory);
    // without an Exception structure the exception cannot be evaluated
    assert_eq!(error_report(e, &mut state, &mut memory), "Unknown Error Type");
    let kind = text(&mut memory, "VMError");
    let msg = text(&mut memory, "broken");
    let obj = memory.alloc_rc(Node::AstroObject(AstroObject::new(AstroID::new("Exception".to_string()), vec![kind, msg])));
    assert_eq!(describe_error(obj, &memory), "An internal VM Error occurred.\nmessage: broken");
    let kind = text(&mut memory, "PatternMatchFailed");
    let obj = memory.alloc_rc(Node::AstroObject(AstroObject::new(AstroID::new("Exception".to_string()), vec![kind, msg])));
    assert_eq!(error_report(obj, &mut state, &mut memory), "PatternMatchFailed: broken");
    let n = integer(&mut memory, 3);
    let obj = memory.alloc_rc(Node::AstroObject(AstroObject::new(AstroID::new("Exception".to_string()), vec![n, msg])));
    assert_eq!(describe_error(obj, &memory), "Unknown Error Type integer");
}

#[test]
fn the_evaluation_budget_bounds_a_run() {
    let mut memory = Memory::new();
    let mut state = plain_state();
    state.fuel = 0;
    let v = integer(&mut memory, 1);
    let e = walk(v, &mut state, &mut memory).unwrap_err();
    assert_eq!(exception_of(&memory, e), ("VMError".to_string(), "evaluation budget exhausted".to_string()));
}

#[test]
fn lists_of_values_evaluate_to_themselves() {
    let mut memory = Memory::new();
    let mut state = plain_state();
    let a = integer(&mut memory, 1);
    let b = text(&mut memory, "b");
    let l = list(&mut memory, vec![a, b]);
    let before = memory.len();
    let fuel = state.fuel;
    assert_eq!(walk(l, &mut state, &mut memory), Ok(l));
    assert_eq!(memory.len(), before);
    assert_eq!(state.fuel, fuel - 3 - 2);
    let t = memory.alloc_rc(Node::AstroTuple(AstroTuple::new(vec![b, a])));
    assert_eq!(walk(t, &mut state, &mut memory), Ok(t));
    let Node::AstroTuple(AstroTuple { contents }) = memory.get(t) else { panic!("not a tuple") };
    assert_eq!(*contents, vec![b, a]);
}

#[test]
fn pairs_and_sequences_of_values_keep_their_parts() {
    let mut memory = Memory::new();
    let mut state = plain_state();
    let a = integer(&mut memory, 1);
    let b = integer(&mut memory, 2);
    let p = memory.alloc_rc(Node::AstroPair(AstroPair::new(a, b)));
    let r = walk(p, &mut state, &mut memory).unwrap();
    let Node::AstroPair(AstroPair { first, second }) = memory.get(r) else { panic!("not a pair") };
    assert_eq!((*first, *second), (a, b));
    let q = memory.alloc_rc(Node::AstroSequence(AstroSequence::new(b, a)));
    let r = walk(q, &mut state, &mut memory).unwrap();
    let Node::AstroSequence(AstroSequence { first, second }) = memory.get(r) else { panic!("not a sequence") };
    assert_eq!((*first, *second), (b, a));
}

#[test]
fn quotes_hold_until_evaluated() {
    let mut memory = Memory::new();
    let mut state = plain_state();
    let a = integer(&mut memory, 7);
    let q = memory.alloc_rc(Node::AstroQuote(AstroQuote::new(a)));
    assert_eq!(walk(q, &mut state, &mut memory), Ok(q));
    let e = memory.alloc_rc(Node::AstroEval(AstroEval::new(q)));
    assert_eq!(walk(e, &mut state, &mut memory), Ok(a));
    assert!(!state.ignore_quote);
    let e = memory.alloc_rc(Node::AstroEval(AstroEval::new(a)));
    assert_eq!(walk(e, &mut state, &mut memory), Ok(a));
    let np = memory.alloc_rc(Node::AstroNamedPattern(AstroNamedPattern::new(AstroID::new("x".to_string()), a)));
    assert_eq!(walk(np, &mut state, &mut memory), Ok(a));
}

#[test]
fn structured_patterns_bind_their_variables() {
    let mut memory = Memory::new();
    let mut state = plain_state();
    let a = integer(&mut memory, 1);
    let b = integer(&mut memory, 2);
    let x = id(&mut memory, "x");
    let y = id(&mut memory, "y");
    let tp = memory.alloc_rc(Node::AstroPair(AstroPair::new(a, b)));
    let pp = memory.alloc_rc(Node::AstroPair(AstroPair::new(x, y)));
    assert_eq!(unify(tp, pp, &mut state, &mut memory, true), Ok(vec![(x, a), (y, b)]));
    let f = id(&mut memory, "f");
    let g = id(&mut memory, "g");
    let term = memory.alloc_rc(Node::AstroApply(AstroApply::new(f, a)));
    let pattern = memory.alloc_rc(Node::AstroApply(AstroApply::new(f, x)));
    assert_eq!(unify(term, pattern, &mut state, &mut memory, true), Ok(vec![(x, a)]));
    let other = memory.alloc_rc(Node::AstroApply(AstroApply::new(g, x)));
    let e = unify(term, other, &mut state, &mut memory, true).unwrap_err();
    assert_eq!(exception_of(&memory, e), ("PatternMatchFailed".to_string(), "term 'f' does not match pattern 'g'".to_string()));
}

#[test]
fn objects_match_only_their_own_structure() {
    let mut memory = Memory::new();
    let mut state = plain_state();
    let a = integer(&mut memory, 1);
    let b = integer(&mut memory, 2);
    let p_obj = memory.alloc_rc(Node::AstroObject(AstroObject::new(AstroID::new("P".to_string()), vec![a, b])));
    let q_obj = memory.alloc_rc(Node::AstroObject(AstroObject::new(AstroID::new("Q".to_string()), vec![a, b])));
    let e = unify(p_obj, q_obj, &mut state, &mut memory, true).unwrap_err();
    assert_eq!(exception_of(&memory, e).0, "PatternMatchFailed");
    let q = id(&mut memory, "Q");
    let args = memory.alloc_rc(Node::AstroTuple(AstroTuple::new(vec![a, b])));
    let pattern = memory.alloc_rc(Node::AstroApply(AstroApply::new(q, args)));
    let e = unify(p_obj, pattern, &mut state, &mut memory, true).unwrap_err();
    assert_eq!(exception_of(&memory, e), ("PatternMatchFailed".to_string(), "expected type 'Q' got type 'P'".to_string()));
}

#[test]
fn a_dereference_of_an_unbound_name_is_refused() {
    let mut memory = Memory::new();
    let mut state = plain_state();
    let z = id(&mut memory, "zz");
    let d = memory.alloc_rc(Node::AstroDeref(AstroDeref::new(z)));
    let one = integer(&mut memory, 1);
    let e = unify(d, one, &mut state, &mut memory, false).unwrap_err();
    assert_eq!(exception_of(&memory, e), ("ValueError".to_string(), "'zz' is not defined".to_string()));
}

#[test]
fn built_in_calls_check_their_shape() {
    let mut memory = Memory::new();
    let mut state = plain_state();
    let a = integer(&mut memory, 1);
    let b = integer(&mut memory, 2);
    // an application of another function is given back
    let f = id(&mut memory, "f");
    let call = memory.alloc_rc(Node::AstroApply(AstroApply::new(f, a)));
    assert_eq!(handle_builtins(call, &mut state, &mut memory), Ok(call));
    // an operator applied to something other than a pair
    let plus = id(&mut memory, "__plus__");
    let bad = memory.alloc_rc(Node::AstroApply(AstroApply::new(plus, a)));
    let e = handle_builtins(bad, &mut state, &mut memory).unwrap_err();
    assert_eq!(exception_of(&memory, e), ("VMError".to_string(), "handle_builtins: expected tuple for args.".to_string()));
    let e = apply_exp(bad, &mut state, &mut memory).unwrap_err();
    assert_eq!(exception_of(&memory, e).0, "VMError");
    // a function that is not a name
    let odd = memory.alloc_rc(Node::AstroApply(AstroApply::new(a, b)));
    let e = handle_builtins(odd, &mut state, &mut memory).unwrap_err();
    assert_eq!(exception_of(&memory, e), ("VMError".to_string(), "handle_builtins: expected id.".to_string()));
    // an application whose function is a value is given back
    assert_eq!(apply_exp(odd, &mut state, &mut memory), Ok(odd));
}

#[test]
fn constructing_needs_a_structure_and_arguments() {
    let mut memory = Memory::new();
    let mut state = plain_state();
    let a = integer(&mut memory, 1);
    let e = construct_object(&"P".to_string(), a, a, &mut state, &mut memory).unwrap_err();
    assert_eq!(exception_of(&memory, e), ("VMError".to_string(), "apply exp: expected struct.".to_string()));
    let x = id(&mut memory, "x");
    let cell = memory.alloc_rc(Node::AstroNone(AstroNone::new()));
    let st = memory.alloc_rc(Node::AstroStruct(AstroStruct::new(vec![x], vec![cell])));
    let e = construct_object(&"P".to_string(), st, a, &mut state, &mut memory).unwrap_err();
    assert_eq!(exception_of(&memory, e), ("VMError".to_string(), "apply exp: expected tuple.".to_string()));
}

#[test]
fn type_patterns_on_functions_and_objects() {
    let mut memory = Memory::new();
    let mut state = plain_state();
    let a = integer(&mut memory, 1);
    let fname = text(&mut memory, "function");
    let tf = memory.alloc_rc(Node::AstroTypeMatch(AstroTypeMatch::new(fname)));
    let e = unify(a, tf, &mut state, &mut memory, true).unwrap_err();
    assert_eq!(exception_of(&memory, e), ("PatternMatchFailed".to_string(), "Expected typematch: function, got a term of type integer".to_string()));
    let oname = text(&mut memory, "object");
    let to = memory.alloc_rc(Node::AstroTypeMatch(AstroTypeMatch::new(oname)));
    let e = unify(a, to, &mut state, &mut memory, true).unwrap_err();
    assert_eq!(exception_of(&memory, e).0, "VMError");
    let obj = memory.alloc_rc(Node::AstroObject(AstroObject::new(AstroID::new("object".to_string()), vec![])));
    assert_eq!(unify(obj, to, &mut state, &mut memory, true), Ok(vec![]));
    // a variable is evaluated before its type is checked
    state.enter_sym("v", a);
    let v = id(&mut memory, "v");
    let iname = text(&mut memory, "integer");
    let ti = memory.alloc_rc(Node::AstroTypeMatch(AstroTypeMatch::new(iname)));
    assert_eq!(unify(v, ti, &mut state, &mut memory, true), Ok(vec![]));
}

#[test]
fn a_range_needs_integer_bounds() {
    let mut memory = Memory::new();
    let mut state = plain_state();
    let s = text(&mut memory, "a");
    let one = integer(&mut memory, 1);
    let r = memory.alloc_rc(Node::AstroToList(AstroToList::new(s, one, one)));
    let e = walk(r, &mut state, &mut memory).unwrap_err();
    assert_eq!(exception_of(&memory, e), ("VMError".to_string(), "walk: expected integer in to_list_exp()".to_string()));
}

#[test]
fn tuples_longer_than_the_pattern_do_not_match() {
    let mut memory = Memory::new();
    let mut state = plain_state();
    let a = integer(&mut memory, 1);
    let b = integer(&mut memory, 2);
    let c = integer(&mut memory, 3);
    let t = memory.alloc_rc(Node::AstroTuple(AstroTuple::new(vec![a, b, c])));
    let x = id(&mut memory, "x");
    let y = id(&mut memory, "y");
    let p = memory.alloc_rc(Node::AstroTuple(AstroTuple::new(vec![x, y])));
    let e = unify(t, p, &mut state, &mut memory, true).unwrap_err();
    assert_eq!(exception_of(&memory, e).0, "PatternMatchFailed");
}

#[test]
fn a_named_type_pattern_binds_the_name() {
    let mut memory = Memory::new();
    let mut state = plain_state();
    let t = integer(&mut memory, 17);
    let iname = text(&mut memory, "integer");
    let tm = memory.alloc_rc(Node::AstroTypeMatch(AstroTypeMatch::new(iname)));
    let np = memory.alloc_rc(Node::AstroNamedPattern(AstroNamedPattern::new(AstroID::new("x".to_string()), tm)));
    let u = unify(t, np, &mut state, &mut memory, true).unwrap();
    assert_eq!(u.len(), 1);
    assert_eq!(u[0].1, t);
    assert!(matches!(memory.get(u[0].0), Node::AstroID(AstroID { name }) if name == "x"));
}

#[test]
fn nested_head_tail_patterns_take_two_heads() {
    let mut memory = Memory::new();
    let mut state = plain_state();
    let a = integer(&mut memory, 1);
    let b = integer(&mut memory, 2);
    let c = integer(&mut memory, 3);
    let l = list(&mut memory, vec![a, b, c]);
    let x = id(&mut memory, "x");
    let y = id(&mut memory, "y");
    let tl = id(&mut memory, "tail");
    let inner = memory.alloc_rc(Node::AstroRawHeadTail(AstroRawHeadTail::new(y, tl)));
    let p = memory.alloc_rc(Node::AstroHeadTail(AstroHeadTail::new(x, inner)));
    let u = unify(l, p, &mut state, &mut memory, true).unwrap();
    assert_eq!(u.len(), 3);
    assert_eq!(u[0], (x, a));
    assert_eq!(u[1], (y, b));
    assert_eq!(u[2].0, tl);
    assert!(matches!(memory.get(u[2].1), Node::AstroList(AstroList { contents }) if *contents == vec![c]));
}

#[test]
fn a_named_dereferenced_conditional_pattern_binds_both_names() {
    let mut memory = Memory::new();
    let mut state = plain_state();
    let x = id(&mut memory, "x");
    let zero = integer(&mut memory, 0);
    let cond = apply_op(&mut memory, "__gt__", x, zero);
    let x2 = id(&mut memory, "x");
    let none = memory.alloc_rc(Node::AstroNone(AstroNone::new()));
    let ifp = memory.alloc_rc(Node::AstroIf(AstroIf::new(cond, x2, none)));
    let q = memory.alloc_rc(Node::AstroQuote(AstroQuote::new(ifp)));
    state.enter_sym("POS_INT", q);
    let pos = id(&mut memory, "POS_INT");
    let d = memory.alloc_rc(Node::AstroDeref(AstroDeref::new(pos)));
    let np = memory.alloc_rc(Node::AstroNamedPattern(AstroNamedPattern::new(AstroID::new("x".to_string()), d)));
    let two = integer(&mut memory, 2);
    let u = unify(two, np, &mut state, &mut memory, true).unwrap();
    assert_eq!(u.len(), 2);
    for (lhs, v) in &u {
        assert!(matches!(memory.get(*lhs), Node::AstroID(AstroID { name }) if name == "x"));
        assert_eq!(*v, two);
    }
    asteroid_vm::index::declare_unifiers(&u, &mut state, &mut memory).unwrap();
    assert_eq!(state.lookup_sym("x"), Some(two));
    let minus = integer(&mut memory, -2);
    let e = unify(minus, np, &mut state, &mut memory, true).unwrap_err();
    assert_eq!(exception_of(&memory, e), ("PatternMatchFailed".to_string(), "Conditional pattern match failed.".to_string()));
}

#[test]
fn index_bindings_and_nested_writes() {
    let mut memory = Memory::new();
    let mut state = plain_state();
    let a = integer(&mut memory, 1);
    let b = integer(&mut memory, 2);
    let inner = list(&mut memory, vec![a, b]);
    let outer = list(&mut memory, vec![inner]);
    state.enter_sym("l", outer);
    let l = id(&mut memory, "l");
    let zero = integer(&mut memory, 0);
    let one = integer(&mut memory, 1);
    let v = integer(&mut memory, 9);
    // l[0][1] = 9
    let l0 = memory.alloc_rc(Node::AstroIndex(AstroIndex::new(l, zero)));
    store_at_ix(l0, one, v, &mut state, &mut memory).unwrap();
    assert!(matches!(memory.get(inner), Node::AstroList(x) if x.contents == vec![a, v]));
    assert_eq!(state.lookup_sym("l"), Some(outer));
    // declaring the binding of an index expression writes into the list
    state.enter_sym("m", inner);
    let m = id(&mut memory, "m");
    let m0 = memory.alloc_rc(Node::AstroIndex(AstroIndex::new(m, zero)));
    let w = integer(&mut memory, 7);
    asteroid_vm::index::declare_unifiers(&vec![(m0, w)], &mut state, &mut memory).unwrap();
    assert!(matches!(memory.get(inner), Node::AstroList(x) if x.contents == vec![w, v]));
    // reading a tuple item through a variable
    let t = memory.alloc_rc(Node::AstroTuple(AstroTuple::new(vec![a, b])));
    state.enter_sym("t", t);
    let tv = id(&mut memory, "t");
    assert_eq!(read_at_ix(tv, one, &mut state, &mut memory), Ok(b));
}

#[test]
fn walking_line_info_sets_the_line() {
    let mut memory = Memory::new();
    let mut state = plain_state();
    let li = memory.alloc_rc(Node::AstroLineInfo(AstroLineInfo::new("prog".to_string(), 12)));
    assert_eq!(walk(li, &mut state, &mut memory), Ok(li));
    assert_eq!(state.lineinfo, ("prog".to_string(), 12));
}

#[test]
fn nested_operators_evaluate_their_operands_left_to_right() {
    let mut memory = Memory::new();
    let mut state = plain_state();
    let four = integer(&mut memory, 4);
    state.enter_sym("x", four);
    let five = integer(&mut memory, 5);
    let two = integer(&mut memory, 2);
    let three = integer(&mut memory, 3);
    let product = apply_op(&mut memory, "__times__", five, two);
    let x = id(&mut memory, "x");
    let sum = apply_op(&mut memory, "__plus__", product, x);
    let r = handle_builtins(sum, &mut state, &mut memory).unwrap();
    assert_eq!(int_of(&memory, r), 14);
    let product = apply_op(&mut memory, "__times__", five, two);
    let difference = apply_op(&mut memory, "__minus__", product, three);
    let r = walk(difference, &mut state, &mut memory).unwrap();
    assert_eq!(int_of(&memory, r), 7);
    let difference = apply_op(&mut memory, "__minus__", three, product);
    let r = walk(difference, &mut state, &mut memory).unwrap();
    assert_eq!(int_of(&memory, r), -7);
    let less = apply_op(&mut memory, "__lt__", product, x);
    let r = walk(less, &mut state, &mut memory).unwrap();
    assert!(matches!(memory.get(r), Node::AstroBool(AstroBool { value: false })));
}

#[test]
fn an_error_in_a_nested_operand_is_raised() {
    let mut memory = Memory::new();
    let mut state = plain_state();
    let one = integer(&mut memory, 1);
    let zero = integer(&mut memory, 0);
    let quotient = apply_op(&mut memory, "__divide__", one, zero);
    let sum = apply_op(&mut memory, "__plus__", quotient, one);
    let e = handle_builtins(sum, &mut state, &mut memory).unwrap_err();
    assert_eq!(exception_of(&memory, e), ("ArithmeticError".to_string(), "divison by zero".to_string()));
}

#[test]
fn range_bounds_may_be_expressions() {
    let mut memory = Memory::new();
    let mut state = plain_state();
    let two = integer(&mut memory, 2);
    state.enter_sym("n", two);
    let one = integer(&mut memory, 1);
    let n = id(&mut memory, "n");
    let stop = apply_op(&mut memory, "__times__", n, n);
    let r = memory.alloc_rc(Node::AstroToList(AstroToList::new(one, stop, one)));
    let l = to_list_exp(r, &mut state, &mut memory).unwrap();
    let Node::AstroList(AstroList { contents }) = memory.get(l) else { panic!("not a list") };
    let values: Vec<isize> = contents.iter().map(|c| int_of(&memory, *c)).collect();
    assert_eq!(values, vec![1, 2, 3, 4]);
}

#[test]
fn calls_of_unknown_functions_are_refused_before_running() {
    let mut memory = Memory::new();
    let mut state = plain_state();
    let body = id(&mut memory, "missing");
    let fv = memory.alloc_rc(Node::AstroFunctionVal(AstroFunctionVal::new(body, Closure { scopes: vec![0], level: 0 })));
    let none = memory.alloc_rc(Node::AstroNone(AstroNone::new()));
    let e = handle_call(none, fv, none, &mut state, &mut memory).unwrap_err();
    assert_eq!(exception_of(&memory, e), ("VMError".to_string(), "handle_call: unknown function 'missing'".to_string()));
    let e = handle_call(none, none, none, &mut state, &mut memory).unwrap_err();
    assert_eq!(exception_of(&memory, e), ("VMError".to_string(), "handle call: expected function value.".to_string()));
    let esc = memory.alloc_rc(Node::AstroEscape(AstroEscape::new("missing".to_string())));
    let e = walk(esc, &mut state, &mut memory).unwrap_err();
    assert_eq!(exception_of(&memory, e), ("VMError".to_string(), "escape_exp(): unknown function 'missing'".to_string()));
}

#[test]
fn an_escape_runs_the_named_function_on_none() {
    let mut memory = Memory::new();
    let mut state = plain_state();
    let esc = memory.alloc_rc(Node::AstroEscape(AstroEscape::new("double".to_string())));
    let (f, arg) = escape_setup(esc, &mut state, &mut memory).ok().unwrap();
    assert!(matches!(memory.get(arg), Node::AstroNone(_)));
    assert!(f.0 as usize == double as usize);
    let e = walk(esc, &mut state, &mut memory).unwrap_err();
    assert_eq!(exception_of(&memory, e), ("ValueError".to_string(), "double expects an integer".to_string()));
}

#[test]
fn a_later_definition_replaces_an_earlier_one() {
    let mut table: Functions<Plain> = Functions::new();
    assert!(table.lookup("double").is_none());
    table.insert("double".to_string(), Plain(double));
    table.insert("twice".to_string(), Plain(double));
    assert!(table.lookup("double").is_some());
    assert!(table.lookup("thrice").is_none());
}

#[test]
fn an_index_expression_reads_object_members_and_computed_positions() {
    let mut memory = Memory::new();
    let mut state = plain_state();
    let a = id(&mut memory, "a");
    let b = id(&mut memory, "b");
    let c1 = memory.alloc_rc(Node::AstroNone(AstroNone::new()));
    let c2 = memory.alloc_rc(Node::AstroNone(AstroNone::new()));
    let st = memory.alloc_rc(Node::AstroStruct(AstroStruct::new(vec![a, b], vec![c1, c2])));
    state.enter_sym("A", st);
    let one = integer(&mut memory, 1);
    let two = integer(&mut memory, 2);
    let obj = memory.alloc_rc(Node::AstroObject(AstroObject::new(AstroID::new("A".to_string()), vec![one, two])));
    state.enter_sym("obj", obj);
    let o = id(&mut memory, "obj");
    let member = id(&mut memory, "b");
    let node = memory.alloc_rc(Node::AstroIndex(AstroIndex::new(o, member)));
    assert_eq!(walk(node, &mut state, &mut memory), Ok(two));
    let Node::AstroObject(AstroObject { object_memory, .. }) = memory.get(obj) else { panic!("not an object") };
    assert_eq!(*object_memory, vec![one, two]);
    let ten = integer(&mut memory, 10);
    let twenty = integer(&mut memory, 20);
    let thirty = integer(&mut memory, 30);
    let l = list(&mut memory, vec![ten, twenty, thirty]);
    state.enter_sym("l", l);
    let lv = id(&mut memory, "l");
    let ix = apply_op(&mut memory, "__plus__", one, one);
    let node = memory.alloc_rc(Node::AstroIndex(AstroIndex::new(lv, ix)));
    assert_eq!(walk(node, &mut state, &mut memory), Ok(thirty));
    let ix = apply_op(&mut memory, "__times__", two, two);
    let node = memory.alloc_rc(Node::AstroIndex(AstroIndex::new(lv, ix)));
    let e = walk(node, &mut state, &mut memory).unwrap_err();
    assert_eq!(exception_of(&memory, e), ("ValueError".to_string(), "index out of range: 4".to_string()));
}

#[test]
fn a_store_at_a_computed_position_writes_that_item() {
    let mut memory = Memory::new();
    let mut state = plain_state();
    let zero = integer(&mut memory, 0);
    let one = integer(&mut memory, 1);
    let l = list(&mut memory, vec![zero, zero, zero]);
    state.enter_sym("l", l);
    let lv = id(&mut memory, "l");
    let ix = apply_op(&mut memory, "__plus__", one, one);
    let v = integer(&mut memory, 7);
    store_at_ix(lv, ix, v, &mut state, &mut memory).unwrap();
    let Node::AstroList(AstroList { contents }) = memory.get(l) else { panic!("not a list") };
    assert_eq!(*contents, vec![zero, zero, v]);
    let r = walk(lv, &mut state, &mut memory).unwrap();
    assert_eq!(r, l);
}

#[test]
fn a_conditional_named_pattern_binds_the_term_where_the_condition_holds() {
    let mut memory = Memory::new();
    let mut state = plain_state();
    let x = id(&mut memory, "x");
    let one = integer(&mut memory, 1);
    let cond = apply_op(&mut memory, "__le__", x, one);
    let s = text(&mut memory, "integer");
    let tm = memory.alloc_rc(Node::AstroTypeMatch(AstroTypeMatch::new(s)));
    let np = memory.alloc_rc(Node::AstroNamedPattern(AstroNamedPattern::new(AstroID::new("x".to_string()), tm)));
    let none = memory.alloc_rc(Node::AstroNone(AstroNone::new()));
    let p = memory.alloc_rc(Node::AstroIf(AstroIf::new(cond, np, none)));
    let depth = state.get_config();
    let term = integer(&mut memory, 1);
    let u = unify_if(term, p, &mut state, &mut memory, true).unwrap();
    assert_eq!(u.len(), 1);
    assert!(matches!(memory.get(u[0].0), Node::AstroID(AstroID { name }) if name == "x"));
    assert_eq!(u[0].1, term);
    assert_eq!(state.get_config(), depth);
    let term = integer(&mut memory, 2);
    let e = unify_if(term, p, &mut state, &mut memory, true).unwrap_err();
    assert_eq!(exception_of(&memory, e), ("PatternMatchFailed".to_string(), "Conditional pattern match failed.".to_string()));
    assert_eq!(state.get_config(), depth);
}

#[test]
fn is_binds_the_value_of_a_computed_term() {
    let mut memory = Memory::new();
    let mut state = plain_state();
    let two = integer(&mut memory, 2);
    let three = integer(&mut memory, 3);
    let sum = apply_op(&mut memory, "__plus__", two, three);
    let y = id(&mut memory, "y");
    let node = memory.alloc_rc(Node::AstroIs(AstroIs::new(y, sum)));
    let r = walk(node, &mut state, &mut memory).unwrap();
    assert!(matches!(memory.get(r), Node::AstroBool(AstroBool { value: true })));
    let bound = state.lookup_sym("y").unwrap();
    assert_eq!(int_of(&memory, bound), 5);
}

#[test]
fn adding_a_real_to_a_list_gives_the_application_back() {
    let mut memory = Memory::new();
    let mut state = plain_state();
    let one = integer(&mut memory, 1);
    let l = list(&mut memory, vec![one]);
    let x = memory.alloc_rc(Node::AstroReal(AstroReal::new(1.5f64.to_bits())));
    let node = apply_op(&mut memory, "__plus__", l, x);
    assert_eq!(handle_builtins(node, &mut state, &mut memory), Ok(node));
}

#[test]
fn a_store_into_a_list_literal_writes_that_list() {
    let mut memory = Memory::new();
    let mut state = plain_state();
    let zero = integer(&mut memory, 0);
    let one = integer(&mut memory, 1);
    let l = list(&mut memory, vec![zero, zero]);
    let v = integer(&mut memory, 9);
    store_at_ix(l, one, v, &mut state, &mut memory).unwrap();
    let Node::AstroList(AstroList { contents }) = memory.get(l) else { panic!("not a list") };
    assert_eq!(*contents, vec![zero, v]);
}
