//! Abstract syntax tree of Asteroid programs and values.
//!
//! Nodes live in a [`Memory`](crate::memory::Memory) and refer to each other
//! through [`NodeRef`] handles, so that several owners can share one node and
//! see each other's updates, as the interpreter's semantics requires.

use vstd::prelude::*;

verus! {

/// A handle on a node stored in a [`Memory`](crate::memory::Memory).
#[derive(Clone, Copy, PartialEq, Eq, Structural, Debug)]
pub struct NodeRef {
    pub id: usize,
}

/// The static environment captured by a function value: the chain of
/// namespaces (outermost first) and the scope level at the point of capture.
#[derive(Clone, Debug)]
pub struct Closure {
    pub scopes: Vec<usize>,
    pub level: usize,
}

/// Payload of a `Integer` node.
#[derive(Clone, Debug)]
pub struct AstroInteger {
    pub value: isize,
}

/// Payload of a `Real` node.
#[derive(Clone, Debug)]
pub struct AstroReal {
    /// IEEE-754 bit pattern of the number.
    pub bits: u64,
}

/// Payload of a `Bool` node.
#[derive(Clone, Debug)]
pub struct AstroBool {
    pub value: bool,
}

/// Payload of a `String` node.
#[derive(Clone, Debug)]
pub struct AstroString {
    pub value: String,
}

/// Payload of a `LineInfo` node.
#[derive(Clone, Debug)]
pub struct AstroLineInfo {
    pub module: String,
    pub line_number: usize,
}

/// Payload of a `None` node.
#[derive(Clone, Debug)]
pub struct AstroNone {
}

/// Payload of a `Nil` node.
#[derive(Clone, Debug)]
pub struct AstroNil {
}

/// Payload of a `List` node.
#[derive(Clone, Debug)]
pub struct AstroList {
    pub contents: Vec<NodeRef>,
}

/// Payload of a `Tuple` node.
#[derive(Clone, Debug)]
pub struct AstroTuple {
    pub contents: Vec<NodeRef>,
}

/// Payload of a `ToList` node.
#[derive(Clone, Debug)]
pub struct AstroToList {
    pub start: NodeRef,
    pub stop: NodeRef,
    pub stride: NodeRef,
}

/// Payload of a `HeadTail` node.
#[derive(Clone, Debug)]
pub struct AstroHeadTail {
    pub head: NodeRef,
    pub tail: NodeRef,
}

/// Payload of a `RawToList` node.
#[derive(Clone, Debug)]
pub struct AstroRawToList {
    pub start: NodeRef,
    pub stop: NodeRef,
    pub stride: NodeRef,
}

/// Payload of a `RawHeadTail` node.
#[derive(Clone, Debug)]
pub struct AstroRawHeadTail {
    pub head: NodeRef,
    pub tail: NodeRef,
}

/// Payload of a `Sequence` node.
#[derive(Clone, Debug)]
pub struct AstroSequence {
    pub first: NodeRef,
    pub second: NodeRef,
}

/// Payload of a `Function` node.
#[derive(Clone, Debug)]
pub struct AstroFunction {
    pub body_list: NodeRef,
}

/// Payload of a `FunctionVal` node.
#[derive(Clone, Debug)]
pub struct AstroFunctionVal {
    pub body_list: NodeRef,
    pub closure: Closure,
}

/// Payload of a `Eval` node.
#[derive(Clone, Debug)]
pub struct AstroEval {
    pub expression: NodeRef,
}

/// Payload of a `Quote` node.
#[derive(Clone, Debug)]
pub struct AstroQuote {
    pub expression: NodeRef,
}

/// Payload of a `Constraint` node.
#[derive(Clone, Debug)]
pub struct AstroConstraint {
    pub expression: NodeRef,
}

/// Payload of a `TypeMatch` node.
#[derive(Clone, Debug)]
pub struct AstroTypeMatch {
    pub expression: NodeRef,
}

/// Payload of a `Foreign` node.
#[derive(Clone, Debug)]
pub struct AstroForeign {
    pub content: String,
}

/// Payload of a `ID` node.
#[derive(Clone, Debug)]
pub struct AstroID {
    pub name: String,
}

/// Payload of a `Object` node.
#[derive(Clone, Debug)]
pub struct AstroObject {
    pub struct_id: AstroID,
    pub object_memory: Vec<NodeRef>,
}

/// Payload of a `Apply` node.
#[derive(Clone, Debug)]
pub struct AstroApply {
    pub function: NodeRef,
    pub argument: NodeRef,
}

/// Payload of a `Index` node.
#[derive(Clone, Debug)]
pub struct AstroIndex {
    pub structure: NodeRef,
    pub index_exp: NodeRef,
}

/// Payload of a `Escape` node.
#[derive(Clone, Debug)]
pub struct AstroEscape {
    pub content: String,
}

/// Payload of a `Is` node.
#[derive(Clone, Debug)]
pub struct AstroIs {
    pub pattern: NodeRef,
    pub term: NodeRef,
}

/// Payload of a `In` node.
#[derive(Clone, Debug)]
pub struct AstroIn {
    pub expression: NodeRef,
    pub expression_list: NodeRef,
}

/// Payload of a `If` node.
#[derive(Clone, Debug)]
pub struct AstroIf {
    pub cond_exp: NodeRef,
    pub then_exp: NodeRef,
    pub else_exp: NodeRef,
}

/// Payload of a `NamedPattern` node.
#[derive(Clone, Debug)]
pub struct AstroNamedPattern {
    pub name: AstroID,
    pub pattern: NodeRef,
}

/// Payload of a `Deref` node.
#[derive(Clone, Debug)]
pub struct AstroDeref {
    pub expression: NodeRef,
}

/// Payload of a `Struct` node.
#[derive(Clone, Debug)]
pub struct AstroStruct {
    pub member_names: Vec<NodeRef>,
    pub struct_memory: Vec<NodeRef>,
}

/// Payload of a `MemberFunctionVal` node.
#[derive(Clone, Debug)]
pub struct AstroMemberFunctionVal {
    pub argument: NodeRef,
    pub body: NodeRef,
}

/// Payload of a `Data` node.
#[derive(Clone, Debug)]
pub struct AstroData {
    pub value: NodeRef,
}

/// Payload of a `Unify` node.
#[derive(Clone, Debug)]
pub struct AstroUnify {
    pub term: NodeRef,
    pub pattern: NodeRef,
}

/// Payload of a `Pair` node.
#[derive(Clone, Debug)]
pub struct AstroPair {
    pub first: NodeRef,
    pub second: NodeRef,
}

/// A node of the abstract syntax tree; values are nodes too.
#[derive(Clone, Debug)]
pub enum Node {
    AstroInteger(AstroInteger),
    AstroReal(AstroReal),
    AstroBool(AstroBool),
    AstroString(AstroString),
    AstroLineInfo(AstroLineInfo),
    AstroNone(AstroNone),
    AstroNil(AstroNil),
    AstroList(AstroList),
    AstroTuple(AstroTuple),
    AstroToList(AstroToList),
    AstroHeadTail(AstroHeadTail),
    AstroRawToList(AstroRawToList),
    AstroRawHeadTail(AstroRawHeadTail),
    AstroSequence(AstroSequence),
    AstroFunction(AstroFunction),
    AstroFunctionVal(AstroFunctionVal),
    AstroEval(AstroEval),
    AstroQuote(AstroQuote),
    AstroConstraint(AstroConstraint),
    AstroTypeMatch(AstroTypeMatch),
    AstroForeign(AstroForeign),
    AstroID(AstroID),
    AstroObject(AstroObject),
    AstroApply(AstroApply),
    AstroIndex(AstroIndex),
    AstroEscape(AstroEscape),
    AstroIs(AstroIs),
    AstroIn(AstroIn),
    AstroIf(AstroIf),
    AstroNamedPattern(AstroNamedPattern),
    AstroDeref(AstroDeref),
    AstroStruct(AstroStruct),
    AstroMemberFunctionVal(AstroMemberFunctionVal),
    AstroData(AstroData),
    AstroUnify(AstroUnify),
    AstroPair(AstroPair),
}

/// The kind of a node, one per variant of [`Node`].
#[derive(Clone, Copy, PartialEq, Eq, Structural, Debug)]
pub enum Kind {
    Integer,
    Real,
    Bool,
    String,
    LineInfo,
    NoneValue,
    Nil,
    List,
    Tuple,
    ToList,
    HeadTail,
    RawToList,
    RawHeadTail,
    Sequence,
    Function,
    FunctionVal,
    Eval,
    Quote,
    Constraint,
    TypeMatch,
    Foreign,
    ID,
    Object,
    Apply,
    Index,
    Escape,
    Is,
    In,
    If,
    NamedPattern,
    Deref,
    Struct,
    MemberFunctionVal,
    Data,
    Unify,
    Pair,
}

/// The kind of a node.
pub open spec fn kind_of(n: Node) -> Kind {
    match n {
        Node::AstroInteger(_) => Kind::Integer,
        Node::AstroReal(_) => Kind::Real,
        Node::AstroBool(_) => Kind::Bool,
        Node::AstroString(_) => Kind::String,
        Node::AstroLineInfo(_) => Kind::LineInfo,
        Node::AstroNone(_) => Kind::NoneValue,
        Node::AstroNil(_) => Kind::Nil,
        Node::AstroList(_) => Kind::List,
        Node::AstroTuple(_) => Kind::Tuple,
        Node::AstroToList(_) => Kind::ToList,
        Node::AstroHeadTail(_) => Kind::HeadTail,
        Node::AstroRawToList(_) => Kind::RawToList,
        Node::AstroRawHeadTail(_) => Kind::RawHeadTail,
        Node::AstroSequence(_) => Kind::Sequence,
        Node::AstroFunction(_) => Kind::Function,
        Node::AstroFunctionVal(_) => Kind::FunctionVal,
        Node::AstroEval(_) => Kind::Eval,
        Node::AstroQuote(_) => Kind::Quote,
        Node::AstroConstraint(_) => Kind::Constraint,
        Node::AstroTypeMatch(_) => Kind::TypeMatch,
        Node::AstroForeign(_) => Kind::Foreign,
        Node::AstroID(_) => Kind::ID,
        Node::AstroObject(_) => Kind::Object,
        Node::AstroApply(_) => Kind::Apply,
        Node::AstroIndex(_) => Kind::Index,
        Node::AstroEscape(_) => Kind::Escape,
        Node::AstroIs(_) => Kind::Is,
        Node::AstroIn(_) => Kind::In,
        Node::AstroIf(_) => Kind::If,
        Node::AstroNamedPattern(_) => Kind::NamedPattern,
        Node::AstroDeref(_) => Kind::Deref,
        Node::AstroStruct(_) => Kind::Struct,
        Node::AstroMemberFunctionVal(_) => Kind::MemberFunctionVal,
        Node::AstroData(_) => Kind::Data,
        Node::AstroUnify(_) => Kind::Unify,
        Node::AstroPair(_) => Kind::Pair,
    }
}

/// The name under which a kind of node is reported.
pub open spec fn kind_name(k: Kind) -> Seq<char> {
    match k {
        Kind::Integer => "integer"@,
        Kind::Real => "real"@,
        Kind::Bool => "bool"@,
        Kind::String => "string"@,
        Kind::LineInfo => "lineinfo"@,
        Kind::NoneValue => "none"@,
        Kind::Nil => "nil"@,
        Kind::List => "list"@,
        Kind::Tuple => "tuple"@,
        Kind::ToList => "tolist"@,
        Kind::HeadTail => "headtail"@,
        Kind::RawToList => "rawtolist"@,
        Kind::RawHeadTail => "rawheadtail"@,
        Kind::Sequence => "sequence"@,
        Kind::Function => "function"@,
        Kind::FunctionVal => "functionval"@,
        Kind::Eval => "eval"@,
        Kind::Quote => "quote"@,
        Kind::Constraint => "constraint"@,
        Kind::TypeMatch => "typematch"@,
        Kind::Foreign => "foreign"@,
        Kind::ID => "id"@,
        Kind::Object => "object"@,
        Kind::Apply => "apply"@,
        Kind::Index => "index"@,
        Kind::Escape => "escape"@,
        Kind::Is => "is"@,
        Kind::In => "in"@,
        Kind::If => "if"@,
        Kind::NamedPattern => "namedpattern"@,
        Kind::Deref => "deref"@,
        Kind::Struct => "struct"@,
        Kind::MemberFunctionVal => "memberfunctionval"@,
        Kind::Data => "data"@,
        Kind::Unify => "unify"@,
        Kind::Pair => "pair"@,
    }
}

/// The byte code of a kind of node; functions and function values share one.
pub open spec fn kind_code(k: Kind) -> u8 {
    match k {
        Kind::Integer => 0u8,
        Kind::Real => 1u8,
        Kind::Bool => 2u8,
        Kind::String => 3u8,
        Kind::LineInfo => 4u8,
        Kind::NoneValue => 5u8,
        Kind::Nil => 6u8,
        Kind::List => 7u8,
        Kind::Tuple => 8u8,
        Kind::ToList => 9u8,
        Kind::HeadTail => 10u8,
        Kind::RawToList => 11u8,
        Kind::RawHeadTail => 12u8,
        Kind::Sequence => 13u8,
        Kind::Function => 14u8,
        Kind::FunctionVal => 14u8,
        Kind::Eval => 15u8,
        Kind::Quote => 16u8,
        Kind::Constraint => 17u8,
        Kind::TypeMatch => 18u8,
        Kind::Foreign => 19u8,
        Kind::ID => 20u8,
        Kind::Object => 21u8,
        Kind::Apply => 22u8,
        Kind::Index => 23u8,
        Kind::Escape => 24u8,
        Kind::Is => 25u8,
        Kind::In => 26u8,
        Kind::If => 27u8,
        Kind::NamedPattern => 28u8,
        Kind::Deref => 29u8,
        Kind::Struct => 30u8,
        Kind::MemberFunctionVal => 31u8,
        Kind::Data => 32u8,
        Kind::Unify => 33u8,
        Kind::Pair => 34u8,
    }
}

/// Computes the kind of a node.
pub fn node_kind(n: &Node) -> (k: Kind)
    ensures
        k == kind_of(*n),
{
    match n {
        Node::AstroInteger(_) => Kind::Integer,
        Node::AstroReal(_) => Kind::Real,
        Node::AstroBool(_) => Kind::Bool,
        Node::AstroString(_) => Kind::String,
        Node::AstroLineInfo(_) => Kind::LineInfo,
        Node::AstroNone(_) => Kind::NoneValue,
        Node::AstroNil(_) => Kind::Nil,
        Node::AstroList(_) => Kind::List,
        Node::AstroTuple(_) => Kind::Tuple,
        Node::AstroToList(_) => Kind::ToList,
        Node::AstroHeadTail(_) => Kind::HeadTail,
        Node::AstroRawToList(_) => Kind::RawToList,
        Node::AstroRawHeadTail(_) => Kind::RawHeadTail,
        Node::AstroSequence(_) => Kind::Sequence,
        Node::AstroFunction(_) => Kind::Function,
        Node::AstroFunctionVal(_) => Kind::FunctionVal,
        Node::AstroEval(_) => Kind::Eval,
        Node::AstroQuote(_) => Kind::Quote,
        Node::AstroConstraint(_) => Kind::Constraint,
        Node::AstroTypeMatch(_) => Kind::TypeMatch,
        Node::AstroForeign(_) => Kind::Foreign,
        Node::AstroID(_) => Kind::ID,
        Node::AstroObject(_) => Kind::Object,
        Node::AstroApply(_) => Kind::Apply,
        Node::AstroIndex(_) => Kind::Index,
        Node::AstroEscape(_) => Kind::Escape,
        Node::AstroIs(_) => Kind::Is,
        Node::AstroIn(_) => Kind::In,
        Node::AstroIf(_) => Kind::If,
        Node::AstroNamedPattern(_) => Kind::NamedPattern,
        Node::AstroDeref(_) => Kind::Deref,
        Node::AstroStruct(_) => Kind::Struct,
        Node::AstroMemberFunctionVal(_) => Kind::MemberFunctionVal,
        Node::AstroData(_) => Kind::Data,
        Node::AstroUnify(_) => Kind::Unify,
        Node::AstroPair(_) => Kind::Pair,
    }
}

/// The name of a kind of node.
pub fn kind_str(k: Kind) -> (s: &'static str)
    ensures
        s@ == kind_name(k),
{
    match k {
        Kind::Integer => "integer",
        Kind::Real => "real",
        Kind::Bool => "bool",
        Kind::String => "string",
        Kind::LineInfo => "lineinfo",
        Kind::NoneValue => "none",
        Kind::Nil => "nil",
        Kind::List => "list",
        Kind::Tuple => "tuple",
        Kind::ToList => "tolist",
        Kind::HeadTail => "headtail",
        Kind::RawToList => "rawtolist",
        Kind::RawHeadTail => "rawheadtail",
        Kind::Sequence => "sequence",
        Kind::Function => "function",
        Kind::FunctionVal => "functionval",
        Kind::Eval => "eval",
        Kind::Quote => "quote",
        Kind::Constraint => "constraint",
        Kind::TypeMatch => "typematch",
        Kind::Foreign => "foreign",
        Kind::ID => "id",
        Kind::Object => "object",
        Kind::Apply => "apply",
        Kind::Index => "index",
        Kind::Escape => "escape",
        Kind::Is => "is",
        Kind::In => "in",
        Kind::If => "if",
        Kind::NamedPattern => "namedpattern",
        Kind::Deref => "deref",
        Kind::Struct => "struct",
        Kind::MemberFunctionVal => "memberfunctionval",
        Kind::Data => "data",
        Kind::Unify => "unify",
        Kind::Pair => "pair",
    }
}

/// Every handle held by the node points below `nlen`, and every namespace a
/// closure captures lies below `nframes`.
pub open spec fn node_ok(n: Node, nlen: nat, nframes: nat) -> bool {
    match n {
        Node::AstroInteger(_) => true,
        Node::AstroReal(_) => true,
        Node::AstroBool(_) => true,
        Node::AstroString(_) => true,
        Node::AstroLineInfo(_) => true,
        Node::AstroNone(_) => true,
        Node::AstroNil(_) => true,
        Node::AstroList(x) => refs_below(x.contents@, nlen),
        Node::AstroTuple(x) => refs_below(x.contents@, nlen),
        Node::AstroToList(x) => x.start.id < nlen && x.stop.id < nlen && x.stride.id < nlen,
        Node::AstroHeadTail(x) => x.head.id < nlen && x.tail.id < nlen,
        Node::AstroRawToList(x) => x.start.id < nlen && x.stop.id < nlen && x.stride.id < nlen,
        Node::AstroRawHeadTail(x) => x.head.id < nlen && x.tail.id < nlen,
        Node::AstroSequence(x) => x.first.id < nlen && x.second.id < nlen,
        Node::AstroFunction(x) => x.body_list.id < nlen,
        Node::AstroFunctionVal(x) => x.body_list.id < nlen && frames_below(x.closure.scopes@, nframes),
        Node::AstroEval(x) => x.expression.id < nlen,
        Node::AstroQuote(x) => x.expression.id < nlen,
        Node::AstroConstraint(x) => x.expression.id < nlen,
        Node::AstroTypeMatch(x) => x.expression.id < nlen,
        Node::AstroForeign(_) => true,
        Node::AstroID(_) => true,
        Node::AstroObject(x) => refs_below(x.object_memory@, nlen),
        Node::AstroApply(x) => x.function.id < nlen && x.argument.id < nlen,
        Node::AstroIndex(x) => x.structure.id < nlen && x.index_exp.id < nlen,
        Node::AstroEscape(_) => true,
        Node::AstroIs(x) => x.pattern.id < nlen && x.term.id < nlen,
        Node::AstroIn(x) => x.expression.id < nlen && x.expression_list.id < nlen,
        Node::AstroIf(x) => x.cond_exp.id < nlen && x.then_exp.id < nlen && x.else_exp.id < nlen,
        Node::AstroNamedPattern(x) => x.pattern.id < nlen,
        Node::AstroDeref(x) => x.expression.id < nlen,
        Node::AstroStruct(x) => refs_below(x.member_names@, nlen) && refs_below(x.struct_memory@, nlen),
        Node::AstroMemberFunctionVal(x) => x.argument.id < nlen && x.body.id < nlen,
        Node::AstroData(x) => x.value.id < nlen,
        Node::AstroUnify(x) => x.term.id < nlen && x.pattern.id < nlen,
        Node::AstroPair(x) => x.first.id < nlen && x.second.id < nlen,
    }
}

/// Every handle of the sequence points below `nlen`.
pub open spec fn refs_below(s: Seq<NodeRef>, nlen: nat) -> bool {
    forall|i: int| 0 <= i < s.len() ==> (#[trigger] s[i]).id < nlen
}

/// Every namespace index of the sequence lies below `nframes`.
pub open spec fn frames_below(s: Seq<usize>, nframes: nat) -> bool {
    forall|i: int| 0 <= i < s.len() ==> (#[trigger] s[i]) < nframes
}

/// A node that is fine in a small heap stays fine in a larger one.
pub proof fn lemma_node_ok_mono(n: Node, a: nat, b: nat, a2: nat, b2: nat)
    requires
        node_ok(n, a, b),
        a <= a2,
        b <= b2,
    ensures
        node_ok(n, a2, b2),
{
}

/// The name of the kind of a node, as the interpreter reports it.
pub fn peek(node: &Node) -> (s: &'static str)
    ensures
        s@ == kind_name(kind_of(*node)),
{
    kind_str(node_kind(node))
}

/// The byte code of the kind of a node.
pub fn encode_node(node: &Node) -> (c: u8)
    ensures
        c == kind_code(kind_of(*node)),
{
    match node_kind(node) {
        Kind::Integer => 0,
        Kind::Real => 1,
        Kind::Bool => 2,
        Kind::String => 3,
        Kind::LineInfo => 4,
        Kind::NoneValue => 5,
        Kind::Nil => 6,
        Kind::List => 7,
        Kind::Tuple => 8,
        Kind::ToList => 9,
        Kind::HeadTail => 10,
        Kind::RawToList => 11,
        Kind::RawHeadTail => 12,
        Kind::Sequence => 13,
        Kind::Function => 14,
        Kind::FunctionVal => 14,
        Kind::Eval => 15,
        Kind::Quote => 16,
        Kind::Constraint => 17,
        Kind::TypeMatch => 18,
        Kind::Foreign => 19,
        Kind::ID => 20,
        Kind::Object => 21,
        Kind::Apply => 22,
        Kind::Index => 23,
        Kind::Escape => 24,
        Kind::Is => 25,
        Kind::In => 26,
        Kind::If => 27,
        Kind::NamedPattern => 28,
        Kind::Deref => 29,
        Kind::Struct => 30,
        Kind::MemberFunctionVal => 31,
        Kind::Data => 32,
        Kind::Unify => 33,
        Kind::Pair => 34,
    }
}

impl AstroInteger {
    /// A `Integer` payload made of the given parts.
    pub fn new(value: isize) -> (r: Self)
        ensures
            r.value == value,
    {
        AstroInteger { value }
    }
}

impl AstroReal {
    /// A `Real` payload made of the given parts.
    pub fn new(bits: u64) -> (r: Self)
        ensures
            r.bits == bits,
    {
        AstroReal { bits }
    }
}

impl AstroBool {
    /// A `Bool` payload made of the given parts.
    pub fn new(value: bool) -> (r: Self)
        ensures
            r.value == value,
    {
        AstroBool { value }
    }
}

impl AstroString {
    /// A `String` payload made of the given parts.
    pub fn new(value: String) -> (r: Self)
        ensures
            r.value == value,
    {
        AstroString { value }
    }
}

impl AstroLineInfo {
    /// A `LineInfo` payload made of the given parts.
    pub fn new(module: String, line_number: usize) -> (r: Self)
        ensures
            r.module == module,
            r.line_number == line_number,
    {
        AstroLineInfo { module, line_number }
    }
}

impl AstroNone {
    /// A `None` payload made of the given parts.
    pub fn new() -> (r: Self)
    {
        AstroNone {}
    }
}

impl AstroNil {
    /// A `Nil` payload made of the given parts.
    pub fn new() -> (r: Self)
    {
        AstroNil {}
    }
}

impl AstroList {
    /// A `List` payload made of the given parts.
    pub fn new(contents: Vec<NodeRef>) -> (r: Self)
        ensures
            r.contents == contents,
    {
        AstroList { contents }
    }
}

impl AstroTuple {
    /// A `Tuple` payload made of the given parts.
    pub fn new(contents: Vec<NodeRef>) -> (r: Self)
        ensures
            r.contents == contents,
    {
        AstroTuple { contents }
    }
}

impl AstroToList {
    /// A `ToList` payload made of the given parts.
    pub fn new(start: NodeRef, stop: NodeRef, stride: NodeRef) -> (r: Self)
        ensures
            r.start == start,
            r.stop == stop,
            r.stride == stride,
    {
        AstroToList { start, stop, stride }
    }
}

impl AstroHeadTail {
    /// A `HeadTail` payload made of the given parts.
    pub fn new(head: NodeRef, tail: NodeRef) -> (r: Self)
        ensures
            r.head == head,
            r.tail == tail,
    {
        AstroHeadTail { head, tail }
    }
}

impl AstroRawToList {
    /// A `RawToList` payload made of the given parts.
    pub fn new(start: NodeRef, stop: NodeRef, stride: NodeRef) -> (r: Self)
        ensures
            r.start == start,
            r.stop == stop,
            r.stride == stride,
    {
        AstroRawToList { start, stop, stride }
    }
}

impl AstroRawHeadTail {
    /// A `RawHeadTail` payload made of the given parts.
    pub fn new(head: NodeRef, tail: NodeRef) -> (r: Self)
        ensures
            r.head == head,
            r.tail == tail,
    {
        AstroRawHeadTail { head, tail }
    }
}

impl AstroSequence {
    /// A `Sequence` payload made of the given parts.
    pub fn new(first: NodeRef, second: NodeRef) -> (r: Self)
        ensures
            r.first == first,
            r.second == second,
    {
        AstroSequence { first, second }
    }
}

impl AstroFunction {
    /// A `Function` payload made of the given parts.
    pub fn new(body_list: NodeRef) -> (r: Self)
        ensures
            r.body_list == body_list,
    {
        AstroFunction { body_list }
    }
}

impl AstroFunctionVal {
    /// A `FunctionVal` payload made of the given parts.
    pub fn new(body_list: NodeRef, closure: Closure) -> (r: Self)
        ensures
            r.body_list == body_list,
            r.closure == closure,
    {
        AstroFunctionVal { body_list, closure }
    }
}

impl AstroEval {
    /// A `Eval` payload made of the given parts.
    pub fn new(expression: NodeRef) -> (r: Self)
        ensures
            r.expression == expression,
    {
        AstroEval { expression }
    }
}

impl AstroQuote {
    /// A `Quote` payload made of the given parts.
    pub fn new(expression: NodeRef) -> (r: Self)
        ensures
            r.expression == expression,
    {
        AstroQuote { expression }
    }
}

impl AstroConstraint {
    /// A `Constraint` payload made of the given parts.
    pub fn new(expression: NodeRef) -> (r: Self)
        ensures
            r.expression == expression,
    {
        AstroConstraint { expression }
    }
}

impl AstroTypeMatch {
    /// A `TypeMatch` payload made of the given parts.
    pub fn new(expression: NodeRef) -> (r: Self)
        ensures
            r.expression == expression,
    {
        AstroTypeMatch { expression }
    }
}

impl AstroForeign {
    /// A `Foreign` payload made of the given parts.
    pub fn new(content: String) -> (r: Self)
        ensures
            r.content == content,
    {
        AstroForeign { content }
    }
}

impl AstroID {
    /// A `ID` payload made of the given parts.
    pub fn new(name: String) -> (r: Self)
        ensures
            r.name == name,
    {
        AstroID { name }
    }
}

impl AstroObject {
    /// A `Object` payload made of the given parts.
    pub fn new(struct_id: AstroID, object_memory: Vec<NodeRef>) -> (r: Self)
        ensures
            r.struct_id == struct_id,
            r.object_memory == object_memory,
    {
        AstroObject { struct_id, object_memory }
    }
}

impl AstroApply {
    /// A `Apply` payload made of the given parts.
    pub fn new(function: NodeRef, argument: NodeRef) -> (r: Self)
        ensures
            r.function == function,
            r.argument == argument,
    {
        AstroApply { function, argument }
    }
}

impl AstroIndex {
    /// A `Index` payload made of the given parts.
    pub fn new(structure: NodeRef, index_exp: NodeRef) -> (r: Self)
        ensures
            r.structure == structure,
            r.index_exp == index_exp,
    {
        AstroIndex { structure, index_exp }
    }
}

impl AstroEscape {
    /// A `Escape` payload made of the given parts.
    pub fn new(content: String) -> (r: Self)
        ensures
            r.content == content,
    {
        AstroEscape { content }
    }
}

impl AstroIs {
    /// A `Is` payload made of the given parts.
    pub fn new(pattern: NodeRef, term: NodeRef) -> (r: Self)
        ensures
            r.pattern == pattern,
            r.term == term,
    {
        AstroIs { pattern, term }
    }
}

impl AstroIn {
    /// A `In` payload made of the given parts.
    pub fn new(expression: NodeRef, expression_list: NodeRef) -> (r: Self)
        ensures
            r.expression == expression,
            r.expression_list == expression_list,
    {
        AstroIn { expression, expression_list }
    }
}

impl AstroIf {
    /// A `If` payload made of the given parts.
    pub fn new(cond_exp: NodeRef, then_exp: NodeRef, else_exp: NodeRef) -> (r: Self)
        ensures
            r.cond_exp == cond_exp,
            r.then_exp == then_exp,
            r.else_exp == else_exp,
    {
        AstroIf { cond_exp, then_exp, else_exp }
    }
}

impl AstroNamedPattern {
    /// A `NamedPattern` payload made of the given parts.
    pub fn new(name: AstroID, pattern: NodeRef) -> (r: Self)
        ensures
            r.name == name,
            r.pattern == pattern,
    {
        AstroNamedPattern { name, pattern }
    }
}

impl AstroDeref {
    /// A `Deref` payload made of the given parts.
    pub fn new(expression: NodeRef) -> (r: Self)
        ensures
            r.expression == expression,
    {
        AstroDeref { expression }
    }
}

impl AstroStruct {
    /// A `Struct` payload made of the given parts.
    pub fn new(member_names: Vec<NodeRef>, struct_memory: Vec<NodeRef>) -> (r: Self)
        ensures
            r.member_names == member_names,
            r.struct_memory == struct_memory,
    {
        AstroStruct { member_names, struct_memory }
    }
}

impl AstroMemberFunctionVal {
    /// A `MemberFunctionVal` payload made of the given parts.
    pub fn new(argument: NodeRef, body: NodeRef) -> (r: Self)
        ensures
            r.argument == argument,
            r.body == body,
    {
        AstroMemberFunctionVal { argument, body }
    }
}

impl AstroData {
    /// A `Data` payload made of the given parts.
    pub fn new(value: NodeRef) -> (r: Self)
        ensures
            r.value == value,
    {
        AstroData { value }
    }
}

impl AstroUnify {
    /// A `Unify` payload made of the given parts.
    pub fn new(term: NodeRef, pattern: NodeRef) -> (r: Self)
        ensures
            r.term == term,
            r.pattern == pattern,
    {
        AstroUnify { term, pattern }
    }
}

impl AstroPair {
    /// A `Pair` payload made of the given parts.
    pub fn new(first: NodeRef, second: NodeRef) -> (r: Self)
        ensures
            r.first == first,
            r.second == second,
    {
        AstroPair { first, second }
    }
}

} // verus!
