//! Pattern matching: unifying a term with a pattern yields the bindings
//! (unifiers) that make the pattern match, or an exception.

use vstd::prelude::*;
use crate::ast::{Node, NodeRef, Kind, kind_of, kind_name, kind_str, node_kind, node_ok, refs_below, peek, AstroString, AstroList, AstroID};
use crate::memory::{Memory, mem_ok};
use crate::state::{State, str_eq, names_has};
use crate::host::{Host, env_ok, steps, unify_pre, unify_post, unify_ok, unifiers_ok, CompareOp, Number};
use crate::exception::{raise, new_exception, spend, store, raised, exception_parts, text2, text3, text4, text5};
use crate::support::{term2string, map2boolean, term_text, truth};
use crate::regex_match::{regex_match, regex_valid, regex_is_match};
use crate::walk::{walk, spent, is_value_kind, bound_list_item, apply_parts};
use crate::builtins::{Op, op_of, builtin_outcome, Outcome};
use crate::index::{declare_unifiers, inner_globals};

verus! {

/// Which matching rule applies to a term and a pattern.
#[derive(Clone, Copy, PartialEq, Eq, Structural, Debug)]
pub enum Rule {
    Id,
    SubsumeNamedPattern,
    SubsumeDeref,
    ObjectToObject,
    StringToString,
    Index,
    NamedPattern,
    Pairs,
    TypeMatch,
    TermNotAllowed,
    StringToOther,
    If,
    SubsumeIf,
    Primitive,
    SubsumeConditional,
    NoneRule,
    PatternNotAllowed,
    Quote,
    QuoteMismatch,
    TermQuote,
    ObjectToApply,
    HeadTail,
    List,
    Deref,
    Apply,
    Constraint,
    Tuple,
}

/// Integers, reals and booleans.
pub open spec fn is_primitive(k: Kind) -> bool {
    k == Kind::Integer || k == Kind::Real || k == Kind::Bool
}

/// The matching rule for a term of kind `t` and a pattern of kind `p`; the
/// first case that fits decides. `unifying` is false while clauses are
/// compared with each other for redundancy.
pub open spec fn unify_rule(t: Kind, p: Kind, unifying: bool) -> Rule {
    if p == Kind::ID { Rule::Id }
    else if t == Kind::NamedPattern && !unifying { Rule::SubsumeNamedPattern }
    else if t == Kind::Deref && !unifying { Rule::SubsumeDeref }
    else if t == Kind::Object && p == Kind::Object { Rule::ObjectToObject }
    else if t == Kind::String && p == Kind::String { Rule::StringToString }
    else if t == Kind::String && p == Kind::Index { Rule::Index }
    else if p == Kind::NamedPattern { Rule::NamedPattern }
    else if t == Kind::Pair && p == Kind::Pair { Rule::Pairs }
    else if p == Kind::TypeMatch { Rule::TypeMatch }
    else if t == Kind::String { Rule::TermNotAllowed }
    else if p == Kind::String { Rule::StringToOther }
    else if p == Kind::If && unifying { Rule::If }
    else if p == Kind::If { Rule::SubsumeIf }
    else if is_primitive(t) && is_primitive(p) { Rule::Primitive }
    else if t == Kind::If { Rule::SubsumeConditional }
    else if p == Kind::NoneValue { Rule::NoneRule }
    else if t == Kind::ToList || t == Kind::RawToList || t == Kind::Escape || t == Kind::Is || t == Kind::In { Rule::TermNotAllowed }
    else if p == Kind::ToList || p == Kind::RawToList || p == Kind::Escape || p == Kind::Is || p == Kind::In
        || p == Kind::Foreign || p == Kind::Function { Rule::PatternNotAllowed }
    else if p == Kind::Quote { Rule::Quote }
    else if t == Kind::Quote && p == Kind::Index { Rule::QuoteMismatch }
    else if t == Kind::Quote { Rule::TermQuote }
    else if t == Kind::Object && p == Kind::Apply { Rule::ObjectToApply }
    else if p == Kind::Index { Rule::Index }
    else if p == Kind::HeadTail || p == Kind::RawHeadTail { Rule::HeadTail }
    else if p == Kind::List || t == Kind::List { Rule::List }
    else if p == Kind::Deref { Rule::Deref }
    else if p == Kind::Apply { Rule::Apply }
    else if p == Kind::Constraint { Rule::Constraint }
    else { Rule::Tuple }
}

fn primitive(k: Kind) -> (b: bool)
    ensures
        b == is_primitive(k),
{
    k == Kind::Integer || k == Kind::Real || k == Kind::Bool
}

/// Chooses the matching rule.
pub fn select_rule(t: Kind, p: Kind, unifying: bool) -> (r: Rule)
    ensures
        r == unify_rule(t, p, unifying),
{
    if p == Kind::ID { Rule::Id }
    else if t == Kind::NamedPattern && !unifying { Rule::SubsumeNamedPattern }
    else if t == Kind::Deref && !unifying { Rule::SubsumeDeref }
    else if t == Kind::Object && p == Kind::Object { Rule::ObjectToObject }
    else if t == Kind::String && p == Kind::String { Rule::StringToString }
    else if t == Kind::String && p == Kind::Index { Rule::Index }
    else if p == Kind::NamedPattern { Rule::NamedPattern }
    else if t == Kind::Pair && p == Kind::Pair { Rule::Pairs }
    else if p == Kind::TypeMatch { Rule::TypeMatch }
    else if t == Kind::String { Rule::TermNotAllowed }
    else if p == Kind::String { Rule::StringToOther }
    else if p == Kind::If && unifying { Rule::If }
    else if p == Kind::If { Rule::SubsumeIf }
    else if primitive(t) && primitive(p) { Rule::Primitive }
    else if t == Kind::If { Rule::SubsumeConditional }
    else if p == Kind::NoneValue { Rule::NoneRule }
    else if t == Kind::ToList || t == Kind::RawToList || t == Kind::Escape || t == Kind::Is || t == Kind::In { Rule::TermNotAllowed }
    else if p == Kind::ToList || p == Kind::RawToList || p == Kind::Escape || p == Kind::Is || p == Kind::In
        || p == Kind::Foreign || p == Kind::Function { Rule::PatternNotAllowed }
    else if p == Kind::Quote { Rule::Quote }
    else if t == Kind::Quote && p == Kind::Index { Rule::QuoteMismatch }
    else if t == Kind::Quote { Rule::TermQuote }
    else if t == Kind::Object && p == Kind::Apply { Rule::ObjectToApply }
    else if p == Kind::Index { Rule::Index }
    else if p == Kind::HeadTail || p == Kind::RawHeadTail { Rule::HeadTail }
    else if p == Kind::List || t == Kind::List { Rule::List }
    else if p == Kind::Deref { Rule::Deref }
    else if p == Kind::Apply { Rule::Apply }
    else if p == Kind::Constraint { Rule::Constraint }
    else { Rule::Tuple }
}

/// The kind of the stored node.
pub open spec fn kind_at(m: Seq<Node>, r: NodeRef) -> Kind {
    kind_of(m[r.id as int])
}

/// The text of a string node.
pub open spec fn string_at(m: Seq<Node>, r: NodeRef) -> Option<Seq<char>> {
    match m[r.id as int] {
        Node::AstroString(s) => Some(s.value@),
        _ => None,
    }
}

/// The name of an identifier node.
pub open spec fn id_at(m: Seq<Node>, r: NodeRef) -> Option<Seq<char>> {
    match m[r.id as int] {
        Node::AstroID(s) => Some(s.name@),
        _ => None,
    }
}

/// Whether two primitive values are the same value; `None` where this is
/// decided on real numbers, by the host. Values of different kinds differ.
pub open spec fn primitive_same(a: Node, b: Node) -> Option<bool> {
    match (a, b) {
        (Node::AstroInteger(x), Node::AstroInteger(y)) => Some(x.value == y.value),
        (Node::AstroBool(x), Node::AstroBool(y)) => Some(x.value == y.value),
        (Node::AstroReal(_), Node::AstroReal(_)) => None,
        _ => Some(false),
    }
}

/// The full-match expression built from a string pattern.
pub open spec fn anchored(p: Seq<char>) -> Seq<char> {
    "^"@ + p + "$"@
}

/// What matching the text `t` against the string pattern `p` gives: the
/// pattern is a regular expression that has to match the whole text.
pub open spec fn regex_result(m: Seq<Node>, t: Seq<char>, p: Seq<char>, r: Result<Vec<(NodeRef, NodeRef)>, NodeRef>) -> bool {
    &&& !regex_valid(anchored(p)) ==> (r matches Err(e) && raised(m, e, "VMError"@))
    &&& regex_valid(anchored(p)) && regex_is_match(anchored(p), t) ==> (r matches Ok(u) && u@.len() == 0)
    &&& regex_valid(anchored(p)) && !regex_is_match(anchored(p), t)
        ==> (r matches Err(e) && raised(m, e, "PatternMatchFailed"@))
}

/// The text of the term, for messages.
fn text_of<H: Host>(r: NodeRef, state: &State<H>, memory: &Memory) -> (s: String)
    requires
        env_ok(*state, memory@),
        r.id < memory@.len(),
    ensures
        term_text(memory@, r, memory@.len()) matches Some(t) ==> s@ == t,
{
    assert(crate::memory::mem_ok(memory@, state.frames@.len()));
    term2string::<H>(r, memory)
}

/// Matches a string against a string pattern, read as a regular expression
/// that has to match the whole term.
pub fn unify_string_to_string<H: Host>(term: NodeRef, pattern: NodeRef, state: &mut State<H>, memory: &mut Memory, unifying: bool)
    -> (r: Result<Vec<(NodeRef, NodeRef)>, NodeRef>)
    requires
        unify_pre(*old(state), old(memory)@, term, pattern),
    ensures
        steps(*old(state), old(memory)@, *final(state), final(memory)@),
        unify_ok(r, final(memory)@),
        *final(state) == *old(state),
        (string_at(old(memory)@, term) is None || string_at(old(memory)@, pattern) is None)
            ==> (r matches Err(e) && raised(final(memory)@, e, "VMError"@)),
        string_at(old(memory)@, term) matches Some(t) ==> (string_at(old(memory)@, pattern) matches Some(p)
            ==> regex_result(final(memory)@, t, p, r)),
{
    let t = match memory.get(term) { Node::AstroString(x) => Some(x.value.clone()), _ => None };
    let p = match memory.get(pattern) { Node::AstroString(x) => Some(x.value.clone()), _ => None };
    let (t, p) = match (t, p) {
        (Some(t), Some(p)) => (t, p),
        _ => {
            let e = raise("VMError", "unify: expected string.", state, memory);
            return Err(e);
        },
    };
    proof { reveal_strlit("^"); reveal_strlit("$"); }
    let re = text3("^", p.as_str(), "$");
    let matched = regex_match(re.as_str(), t.as_str());
    regex_outcome(matched, term, pattern, state, memory)
}

/// What matching a term against a regular expression gives, once the
/// expression has been compiled and tried: `matched` is `None` where it
/// did not compile, else whether it matched.
pub fn regex_outcome<H: Host>(matched: Option<bool>, term: NodeRef, pattern: NodeRef, state: &mut State<H>, memory: &mut Memory)
    -> (r: Result<Vec<(NodeRef, NodeRef)>, NodeRef>)
    requires
        env_ok(*old(state), old(memory)@),
        term.id < old(memory)@.len(),
        pattern.id < old(memory)@.len(),
    ensures
        steps(*old(state), old(memory)@, *final(state), final(memory)@),
        unify_ok(r, final(memory)@),
        *final(state) == *old(state),
        matched is None ==> (r matches Err(e)
            && exception_parts(final(memory)@, e) == Some(("VMError"@, "unify: invalid regular expression."@))),
        matched == Some(true) ==> (r matches Ok(u) && u@.len() == 0 && final(memory)@ == old(memory)@),
        matched == Some(false) ==> (r matches Err(e) && raised(final(memory)@, e, "PatternMatchFailed"@)
            && (term_text(old(memory)@, pattern, old(memory)@.len()) matches Some(ps)
            ==> (term_text(old(memory)@, term, old(memory)@.len()) matches Some(ts)
            ==> exception_parts(final(memory)@, e)
                == Some(("PatternMatchFailed"@, "regular expression "@ + ps + " did not match "@ + ts))))),
{
    match matched {
        None => Err(raise("VMError", "unify: invalid regular expression.", state, memory)),
        Some(true) => Ok(Vec::new()),
        Some(false) => {
            let ps = text_of(pattern, state, memory);
            let ts = text_of(term, state, memory);
            let msg = text4("regular expression ", ps.as_str(), " did not match ", ts.as_str());
            Err(new_exception("PatternMatchFailed".to_owned(), msg, state, memory))
        },
    }
}

/// Matches a term that is not a string against a string pattern: the text
/// of the term is matched.
pub fn unify_string_to_other<H: Host>(term: NodeRef, pattern: NodeRef, state: &mut State<H>, memory: &mut Memory, unifying: bool)
    -> (r: Result<Vec<(NodeRef, NodeRef)>, NodeRef>)
    requires
        unify_pre(*old(state), old(memory)@, term, pattern),
    ensures
        unify_post(*old(state), old(memory)@, *final(state), final(memory)@, r),
        old(state).fuel >= 2 ==> (term_text(old(memory)@, term, old(memory)@.len()) matches Some(txt)
            ==> (string_at(old(memory)@, pattern) matches Some(p) ==> regex_result(final(memory)@, txt, p, r))),
    decreases old(state).fuel,
{
    match spend(state, memory) { Err(e) => return Err(e), Ok(()) => {} }
    let text = text_of(term, state, memory);
    let s = store(state, memory, Node::AstroString(AstroString { value: text }));
    unify(s, pattern, state, memory, unifying)
}

/// Matches two primitive values: they have to be the same value.
pub fn unify_primitive_to_primitive<H: Host>(term: NodeRef, pattern: NodeRef, state: &mut State<H>, memory: &mut Memory, unifying: bool)
    -> (r: Result<Vec<(NodeRef, NodeRef)>, NodeRef>)
    requires
        unify_pre(*old(state), old(memory)@, term, pattern),
    ensures
        steps(*old(state), old(memory)@, *final(state), final(memory)@),
        unify_ok(r, final(memory)@),
        *final(state) == *old(state),
        primitive_same(old(memory)@[term.id as int], old(memory)@[pattern.id as int]) == Some(true)
            ==> (r matches Ok(u) && u@.len() == 0),
        primitive_same(old(memory)@[term.id as int], old(memory)@[pattern.id as int]) == Some(false)
            ==> (r matches Err(e) && raised(final(memory)@, e, "PatternMatchFailed"@)),
        r matches Ok(u) ==> u@.len() == 0 && final(memory)@ == old(memory)@,
        r matches Err(e) ==> raised(final(memory)@, e, "PatternMatchFailed"@),
{
    let same = match (memory.get(term), memory.get(pattern)) {
        (Node::AstroInteger(x), Node::AstroInteger(y)) => x.value == y.value,
        (Node::AstroBool(x), Node::AstroBool(y)) => x.value == y.value,
        (Node::AstroReal(x), Node::AstroReal(y)) => H::real_compare(CompareOp::Eq, Number::Real(x.bits), Number::Real(y.bits)),
        _ => false,
    };
    if same {
        Ok(Vec::new())
    } else {
        let ps = text_of(pattern, state, memory);
        let ts = text_of(term, state, memory);
        let msg = text3(ps.as_str(), " is not the same as ", ts.as_str());
        Err(new_exception("PatternMatchFailed".to_owned(), msg, state, memory))
    }
}

/// Matches a variable: it binds the term, except `_`, which binds nothing.
pub fn unify_id<H: Host>(term: NodeRef, pattern: NodeRef, state: &mut State<H>, memory: &mut Memory, unifying: bool)
    -> (r: Result<Vec<(NodeRef, NodeRef)>, NodeRef>)
    requires
        unify_pre(*old(state), old(memory)@, term, pattern),
    ensures
        steps(*old(state), old(memory)@, *final(state), final(memory)@),
        unify_ok(r, final(memory)@),
        *final(state) == *old(state),
        id_at(old(memory)@, pattern) == Some("_"@) ==> (r matches Ok(u) && u@.len() == 0 && final(memory)@ == old(memory)@),
        id_at(old(memory)@, pattern) matches Some(n) ==> (n != "_"@ ==> (r matches Ok(u) && u@ == seq![(pattern, term)]
            && final(memory)@ == old(memory)@)),
        id_at(old(memory)@, pattern) is None ==> (r matches Err(e) && raised(final(memory)@, e, "VMError"@)),
{
    let name = match memory.get(pattern) { Node::AstroID(x) => Some(x.name.clone()), _ => None };
    match name {
        None => Err(raise("VMError", "unify: expected id.", state, memory)),
        Some(n) => {
            proof { reveal_strlit("_"); }
            if str_eq(n.as_str(), "_") {
                Ok(Vec::new())
            } else {
                let mut u: Vec<(NodeRef, NodeRef)> = Vec::new();
                u.push((pattern, term));
                assert(u@ =~= seq![(pattern, term)]);
                Ok(u)
            }
        },
    }
}

/// The pattern `none`: note that it fails on the term `none` and succeeds
/// on every other term.
pub fn unify_none<H: Host>(term: NodeRef, pattern: NodeRef, state: &mut State<H>, memory: &mut Memory, unifying: bool)
    -> (r: Result<Vec<(NodeRef, NodeRef)>, NodeRef>)
    requires
        unify_pre(*old(state), old(memory)@, term, pattern),
    ensures
        steps(*old(state), old(memory)@, *final(state), final(memory)@),
        unify_ok(r, final(memory)@),
        *final(state) == *old(state),
        kind_at(old(memory)@, term) == Kind::NoneValue ==> (r matches Err(e) && raised(final(memory)@, e, "PatternMatchFailed"@)),
        kind_at(old(memory)@, term) != Kind::NoneValue ==> (r matches Ok(u) && u@.len() == 0 && final(memory)@ == old(memory)@),
{
    if node_kind(memory.get(term)) == Kind::NoneValue {
        Err(raise("PatternMatchFailed", "expected 'none' got 'none'", state, memory))
    } else {
        Ok(Vec::new())
    }
}

/// Compares a conditional pattern with another clause for redundancy: this
/// is not supported; the first time, a warning is given and the clauses are
/// taken as redundant.
pub fn subsume_if<H: Host>(term: NodeRef, pattern: NodeRef, state: &mut State<H>, memory: &mut Memory, unifying: bool)
    -> (r: Result<Vec<(NodeRef, NodeRef)>, NodeRef>)
    requires
        unify_pre(*old(state), old(memory)@, term, pattern),
    ensures
        steps(*old(state), old(memory)@, *final(state), final(memory)@),
        unify_ok(r, final(memory)@),
        !old(state).cond_warning ==> (r matches Ok(u) && u@.len() == 0 && final(state).cond_warning
            && final(state).warnings@.len() == old(state).warnings@.len() + 1
            && *final(state) == (State { cond_warning: true, warnings: final(state).warnings, ..*old(state) })),
        old(state).cond_warning ==> (*final(state) == *old(state) && (r matches Err(e)
            && raised(final(memory)@, e, "PatternMatchFailed"@))),
{
    if !state.cond_warning {
        state.warnings.push("Redundant pattern detection is not supported for conditional pattern expressions.".to_owned());
        state.cond_warning = true;
        Ok(Vec::new())
    } else {
        Err(raise("PatternMatchFailed", "Subsumption relatioship broken, pattern will not be rendered redundant.", state, memory))
    }
}

/// What matching gives for the rules that do not match sub-terms: a
/// variable binds the term (`_` binds nothing), primitive values match when
/// they are the same value, and terms or patterns of kinds that take no
/// part in matching fail.
pub open spec fn unify_leaf_facts(m0: Seq<Node>, m1: Seq<Node>, term: NodeRef, pattern: NodeRef, unifying: bool,
    r: Result<Vec<(NodeRef, NodeRef)>, NodeRef>) -> bool {
    let rule = unify_rule(kind_at(m0, term), kind_at(m0, pattern), unifying);
    &&& rule == Rule::Id && id_at(m0, pattern) == Some("_"@) ==> (r matches Ok(u) && u@.len() == 0)
    &&& rule == Rule::Id && id_at(m0, pattern) != Some("_"@) ==> (r matches Ok(u) && u@ == seq![(pattern, term)])
    &&& rule == Rule::Primitive && primitive_same(m0[term.id as int], m0[pattern.id as int]) == Some(true)
        ==> (r matches Ok(u) && u@.len() == 0)
    &&& rule == Rule::Primitive && primitive_same(m0[term.id as int], m0[pattern.id as int]) == Some(false)
        ==> (r matches Err(e) && raised(m1, e, "PatternMatchFailed"@))
    &&& rule == Rule::NoneRule && kind_at(m0, term) != Kind::NoneValue ==> (r matches Ok(u) && u@.len() == 0)
    &&& (rule == Rule::TermNotAllowed || rule == Rule::PatternNotAllowed || rule == Rule::QuoteMismatch)
        ==> (r matches Err(e) && raised(m1, e, "PatternMatchFailed"@))
}

/// An integer or boolean term matched against an integer or boolean
/// pattern goes by the primitive rule, which (see [`unify`]) succeeds,
/// binding nothing, exactly when both are the same value.
pub proof fn law_primitive_match(m: Seq<Node>, t: NodeRef, p: NodeRef, unifying: bool)
    requires
        kind_at(m, t) == Kind::Integer || kind_at(m, t) == Kind::Bool,
        kind_at(m, p) == Kind::Integer || kind_at(m, p) == Kind::Bool,
    ensures
        unify_rule(kind_at(m, t), kind_at(m, p), unifying) == Rule::Primitive,
        primitive_same(m[t.id as int], m[p.id as int]) == Some(m[t.id as int] == m[p.id as int]),
{
}

/// What matching `t` against `p` gives where no sub-term has to be
/// matched: `Some(Some(u))` for a success with the unifiers `u`,
/// `Some(None)` for a failure, `None` where the rule matches sub-terms (or
/// reals are compared).
pub open spec fn leaf_match(m: Seq<Node>, t: NodeRef, p: NodeRef, unifying: bool) -> Option<Option<Seq<(NodeRef, NodeRef)>>> {
    let rule = unify_rule(kind_at(m, t), kind_at(m, p), unifying);
    if rule == Rule::Id {
        if id_at(m, p) == Some("_"@) { Some(Some(Seq::empty())) } else { Some(Some(seq![(p, t)])) }
    } else if rule == Rule::Primitive {
        match primitive_same(m[t.id as int], m[p.id as int]) {
            Some(b) => if b { Some(Some(Seq::empty())) } else { Some(None) },
            None => None,
        }
    } else if rule == Rule::NoneRule {
        if kind_at(m, t) != Kind::NoneValue { Some(Some(Seq::empty())) } else { Some(None) }
    } else if rule == Rule::TermNotAllowed || rule == Rule::PatternNotAllowed || rule == Rule::QuoteMismatch {
        Some(None)
    } else {
        None
    }
}

/// Matching the first `n` terms against the first `n` patterns, item by
/// item and stopping at the first failure, as far as [`leaf_match`] decides
/// it: the joined unifiers of a success, `Some(None)` for a failure, `None`
/// where an item before the first failure is not decided.
pub open spec fn items_match(m: Seq<Node>, t: Seq<NodeRef>, p: Seq<NodeRef>, n: nat, unifying: bool)
    -> Option<Option<Seq<(NodeRef, NodeRef)>>>
    decreases n,
{
    if n == 0 {
        Some(Some(Seq::empty()))
    } else {
        match items_match(m, t, p, (n - 1) as nat, unifying) {
            Some(Some(b)) => match leaf_match(m, t[n - 1], p[n - 1], unifying) {
                Some(Some(c)) => Some(Some(b + c)),
                Some(None) => Some(None),
                None => None,
            },
            Some(None) => Some(None),
            None => None,
        }
    }
}

/// The result agrees with [`leaf_match`] where that decides it.
pub open spec fn leaf_outcome(m: Seq<Node>, t: NodeRef, p: NodeRef, unifying: bool,
    r: Result<Vec<(NodeRef, NodeRef)>, NodeRef>) -> bool {
    leaf_match(m, t, p, unifying) matches Some(o) ==> (match o {
        Some(b) => r matches Ok(u) && u@ == b,
        None => r is Err,
    })
}

/// The result agrees with [`items_match`] where that decides it.
pub open spec fn items_outcome(m: Seq<Node>, t: Seq<NodeRef>, p: Seq<NodeRef>, n: nat, unifying: bool,
    r: Result<Vec<(NodeRef, NodeRef)>, NodeRef>) -> bool {
    items_match(m, t, p, n, unifying) matches Some(o) ==> (match o {
        Some(b) => r matches Ok(u) && u@ == b,
        None => r is Err,
    })
}

/// Matching variables position by position decides every item.
proof fn lemma_items_match_vars(m: Seq<Node>, t: Seq<NodeRef>, p: Seq<NodeRef>, n: nat, unifying: bool)
    requires
        n <= t.len(),
        n <= p.len(),
        var_list(m, p.take(n as int)),
    ensures
        items_match(m, t, p, n, unifying) == Some(Some(zip_unifiers(p, t, n))),
    decreases n,
{
    if n > 0 {
        assert(p.take((n - 1) as int).take((n - 1) as int) =~= p.take((n - 1) as int));
        assert forall|i: int| 0 <= i < n - 1 implies ((#[trigger] id_at(m, p.take((n - 1) as int)[i])) matches Some(x) && x != "_"@) by {
            assert(p.take((n - 1) as int)[i] == p.take(n as int)[i]);
        }
        lemma_items_match_vars(m, t, p, (n - 1) as nat, unifying);
        assert(p.take(n as int)[n - 1] == p[n - 1]);
        assert(id_at(m, p[n - 1]) is Some);
        assert(zip_unifiers(p, t, (n - 1) as nat) + seq![(p[n - 1], t[n - 1])] =~= zip_unifiers(p, t, n));
    }
}

/// No two patterns of the sequence are the same variable.
pub open spec fn distinct_vars(m: Seq<Node>, p: Seq<NodeRef>) -> bool {
    forall|a: int, b: int| 0 <= a < b < p.len() ==> #[trigger] id_at(m, p[a]) != #[trigger] id_at(m, p[b])
}

/// Binding distinct variables position by position binds no name twice.
proof fn lemma_zip_linear(m: Seq<Node>, p: Seq<NodeRef>, t: Seq<NodeRef>)
    requires
        p.len() == t.len(),
        distinct_vars(m, p),
    ensures
        !repeated_symbols(m, zip_unifiers(p, t, p.len())),
{
    let u = zip_unifiers(p, t, p.len());
    assert forall|i: int, j: int| 0 <= i < j < u.len() implies !((#[trigger] id_at(m, u[i].0)) is Some
        && id_at(m, u[i].0) == #[trigger] id_at(m, u[j].0)) by {
        assert(u[i].0 == p[i] && u[j].0 == p[j]);
    }
}

/// Every pattern of the sequence is a variable other than `_`.
pub open spec fn var_list(m: Seq<Node>, p: Seq<NodeRef>) -> bool {
    forall|i: int| 0 <= i < p.len() ==> ((#[trigger] id_at(m, p[i])) matches Some(n) && n != "_"@)
}

/// The unifiers that bind the first `n` patterns `p` to the terms `t`,
/// position by position.
pub open spec fn zip_unifiers(p: Seq<NodeRef>, t: Seq<NodeRef>, n: nat) -> Seq<(NodeRef, NodeRef)> {
    Seq::new(n, |i: int| (p[i], t[i]))
}

/// Unifies a term with a pattern, choosing the rule by the kinds of both
/// (see [`unify_rule`]); `unifying` is false while clauses are compared
/// for redundancy.
pub fn unify<H: Host>(term: NodeRef, pattern: NodeRef, state: &mut State<H>, memory: &mut Memory, unifying: bool)
    -> (r: Result<Vec<(NodeRef, NodeRef)>, NodeRef>)
    requires
        unify_pre(*old(state), old(memory)@, term, pattern),
    ensures
        unify_post(*old(state), old(memory)@, *final(state), final(memory)@, r),
        old(state).fuel > 0 ==> unify_leaf_facts(old(memory)@, final(memory)@, term, pattern, unifying, r),
        old(state).fuel >= 14 && unifying && kind_at(old(memory)@, term) != Kind::String
            ==> cond_pattern_result(old(memory)@, final(memory)@, term, pattern, r),
        old(state).fuel >= 16 && unifying && is_value_kind(kind_at(old(memory)@, term)) && kind_at(old(memory)@, term) != Kind::String
            ==> (quoted(old(memory)@, pattern) matches Some(q) ==> cond_pattern_result(old(memory)@, final(memory)@, term, q, r)),
        old(state).fuel >= 19 && unifying && is_value_kind(kind_at(old(memory)@, term)) && kind_at(old(memory)@, term) != Kind::String
            ==> (deref_target(*old(state), old(memory)@, pattern) matches Some(v) ==> (quoted(old(memory)@, v) matches Some(q)
            ==> cond_pattern_result(old(memory)@, final(memory)@, term, q, r))),
        old(state).fuel >= 21 && unifying && is_value_kind(kind_at(old(memory)@, term)) && kind_at(old(memory)@, term) != Kind::String
            ==> (old(memory)@[pattern.id as int] matches Node::AstroNamedPattern(np)
            ==> (deref_target(*old(state), old(memory)@, np.pattern) matches Some(v) ==> (quoted(old(memory)@, v) matches Some(q)
            ==> (cond_pattern(old(memory)@, q, term) matches Some((th, holds)) ==> named_cond_outcome(final(memory)@, th, term, np.name.name@, holds, r))))),
        old(state).fuel >= 2 ==> (typematch_name(old(memory)@, pattern) matches Some(p)
            ==> (typed_kind(kind_at(old(memory)@, term)) && p == pattern_type_name(kind_at(old(memory)@, term)) ==> (r matches Ok(u) && u@.len() == 0
                && final(memory)@ == old(memory)@ && *final(state) == (State { fuel: (old(state).fuel - 2) as u64, ..*old(state) })))),
        old(state).fuel >= 4 ==> (old(memory)@[pattern.id as int] matches Node::AstroNamedPattern(np)
            ==> (typematch_name(old(memory)@, np.pattern) matches Some(p)
            ==> (typed_kind(kind_at(old(memory)@, term)) && p == pattern_type_name(kind_at(old(memory)@, term))
            ==> (r matches Ok(u) && u@.len() == 1 && u@[0].1 == term && id_at(final(memory)@, u@[0].0) == Some(np.name.name@)
                && final(memory)@.len() == old(memory)@.len() + 1 && final(memory)@.subrange(0, old(memory)@.len() as int) == old(memory)@
                && *final(state) == (State { fuel: (old(state).fuel - 4) as u64, ..*old(state) }))))),
        old(state).fuel > 0 ==> (leaf_match(old(memory)@, term, pattern, unifying) matches Some(o) ==> (match o {
            Some(b) => r matches Ok(u) && u@ == b && final(memory)@ == old(memory)@ && spent(*old(state), *final(state)),
            None => r is Err && spent(*old(state), *final(state)),
        })),
        old(state).fuel > 0 && kind_at(old(memory)@, pattern) == Kind::ID
            ==> final(memory)@ == old(memory)@ && spent(*old(state), *final(state)),
        old(state).fuel > 0 ==> (string_at(old(memory)@, term) matches Some(t) ==> (string_at(old(memory)@, pattern) matches Some(p)
            ==> regex_result(final(memory)@, t, p, r))),
        old(state).fuel > 0 ==> (list_at(old(memory)@, term) matches Some(t) ==> (list_at(old(memory)@, pattern) matches Some(p)
            ==> (t.len() == p.len() && old(state).fuel > t.len() + 3 && var_list(old(memory)@, p) && distinct_vars(old(memory)@, p)
            ==> (r matches Ok(u) && u@ == zip_unifiers(p, t, t.len()))))),
        old(state).fuel > 0 ==> (list_at(old(memory)@, term) matches Some(t) ==> (list_at(old(memory)@, pattern) matches Some(p)
            ==> (t.len() == p.len() && old(state).fuel > t.len() + 3
            ==> (items_match(old(memory)@, t, p, t.len(), unifying) matches Some(o) ==> (match o {
                Some(b) => if repeated_symbols(old(memory)@, b) {
                        r matches Err(e) && raised(final(memory)@, e, "NonLinearPattern"@)
                    } else {
                        r matches Ok(u) && u@ == b
                    },
                None => r is Err,
            }))))),
        old(state).fuel >= 2 ==> (list_at(old(memory)@, term) matches Some(t) ==> (list_at(old(memory)@, pattern) matches Some(p)
            ==> (t.len() != p.len() ==> (r matches Err(e) && raised(final(memory)@, e, "PatternMatchFailed"@))))),
        old(state).fuel >= 4 ==> (list_at(old(memory)@, term) matches Some(t) ==> (headtail_at(old(memory)@, pattern) matches Some((h, tl))
            ==> (t.len() > 0 && var_list(old(memory)@, seq![h, tl])
            ==> (r matches Ok(u) && u@.len() == 2 && u@[0] == (h, t[0]) && u@[1].0 == tl
                && list_at(final(memory)@, u@[1].1) == Some(t.subrange(1, t.len() as int)))))),
        old(state).fuel > 0 ==> (tuple_at(old(memory)@, term) matches Some(t) ==> (tuple_at(old(memory)@, pattern) matches Some(p)
            ==> (t.len() <= p.len() && old(state).fuel > t.len() + 3 && var_list(old(memory)@, p.take(t.len() as int))
            ==> (r matches Ok(u) && u@ == zip_unifiers(p, t, t.len()))))),
        old(state).fuel >= 2 ==> (tuple_at(old(memory)@, term) matches Some(t) ==> (tuple_at(old(memory)@, pattern) matches Some(p)
            ==> ((t.len() > p.len() ==> (r matches Err(e) && raised(final(memory)@, e, "PatternMatchFailed"@)))
                && (t.len() <= p.len() && old(state).fuel > t.len() + 3
                    ==> items_outcome(old(memory)@, t, p, t.len(), unifying, r))))),
        old(state).fuel >= 4 ==> (old(memory)@[term.id as int] matches Node::AstroPair(t)
            ==> (old(memory)@[pattern.id as int] matches Node::AstroPair(p)
            ==> (var_list(old(memory)@, seq![p.first, p.second])
            ==> (r matches Ok(u) && u@ == seq![(p.first, t.first), (p.second, t.second)])))),
    decreases old(state).fuel,
{
    match spend(state, memory) { Err(e) => return Err(e), Ok(()) => {} }
    let tk = node_kind(memory.get(term));
    let pk = node_kind(memory.get(pattern));
    match select_rule(tk, pk, unifying) {
        Rule::Id => unify_id(term, pattern, state, memory, unifying),
        Rule::SubsumeNamedPattern => subsume_namedpattern(term, pattern, state, memory, unifying),
        Rule::SubsumeDeref => subsume_deref(term, pattern, state, memory, unifying),
        Rule::ObjectToObject => unify_object_to_object(term, pattern, state, memory, unifying),
        Rule::StringToString => unify_string_to_string(term, pattern, state, memory, unifying),
        Rule::Index => unify_index(term, pattern, state, memory, unifying),
        Rule::NamedPattern => unify_namedpattern(term, pattern, state, memory, unifying),
        Rule::Pairs => unify_pairs(term, pattern, state, memory, unifying),
        Rule::TypeMatch => unify_typematch(term, pattern, state, memory, unifying),
        Rule::TermNotAllowed => {
            let msg = text3("term of type '", kind_str(tk), "' not allowed in pattern matching");
            Err(new_exception("PatternMatchFailed".to_owned(), msg, state, memory))
        },
        Rule::StringToOther => unify_string_to_other(term, pattern, state, memory, unifying),
        Rule::If => unify_if(term, pattern, state, memory, unifying),
        Rule::SubsumeIf => subsume_if(term, pattern, state, memory, unifying),
        Rule::Primitive => unify_primitive_to_primitive(term, pattern, state, memory, unifying),
        Rule::SubsumeConditional => subsume_conditional(term, pattern, state, memory, unifying),
        Rule::NoneRule => unify_none(term, pattern, state, memory, unifying),
        Rule::PatternNotAllowed => {
            let msg = text3("pattern of type '", kind_str(pk), "' not allowed in pattern matching");
            Err(new_exception("PatternMatchFailed".to_owned(), msg, state, memory))
        },
        Rule::Quote => unify_quote(term, pattern, state, memory, unifying),
        Rule::QuoteMismatch => {
            let msg = text5("pattern of type '", kind_str(pk), "' cannot be matched againt '", kind_str(tk), "'");
            Err(new_exception("PatternMatchFailed".to_owned(), msg, state, memory))
        },
        Rule::TermQuote => unify_term_quote(term, pattern, state, memory, unifying),
        Rule::ObjectToApply => unify_object_to_apply(term, pattern, state, memory, unifying),
        Rule::HeadTail => unify_headtail(term, pattern, state, memory, unifying),
        Rule::List => unify_list(term, pattern, state, memory, unifying),
        Rule::Deref => unify_deref(term, pattern, state, memory, unifying),
        Rule::Apply => unify_apply(term, pattern, state, memory, unifying),
        Rule::Constraint => unify_constraint(term, pattern, state, memory, unifying),
        Rule::Tuple => unify_tuple(term, pattern, state, memory, unifying),
    }
}

/// Unpacks a term-side named pattern while clauses are compared.
pub fn subsume_namedpattern<H: Host>(term: NodeRef, pattern: NodeRef, state: &mut State<H>, memory: &mut Memory, unifying: bool)
    -> (r: Result<Vec<(NodeRef, NodeRef)>, NodeRef>)
    requires
        unify_pre(*old(state), old(memory)@, term, pattern),
    ensures
        unify_post(*old(state), old(memory)@, *final(state), final(memory)@, r),
        old(state).fuel > 0 && kind_at(old(memory)@, term) != Kind::NamedPattern
            ==> (r matches Err(e) && raised(final(memory)@, e, "VMError"@)),
        old(state).fuel >= 2 ==> (old(memory)@[term.id as int] matches Node::AstroNamedPattern(np)
            ==> leaf_outcome(old(memory)@, np.pattern, pattern, unifying, r)),
    decreases old(state).fuel,
{
    match spend(state, memory) { Err(e) => return Err(e), Ok(()) => {} }
    let inner = match memory.get(term) { Node::AstroNamedPattern(x) => Some(x.pattern), _ => None };
    match inner {
        None => Err(raise("VMError", "unify: expected named pattern.", state, memory)),
        Some(t) => unify(t, pattern, state, memory, unifying),
    }
}

/// Unpacks a term-side dereference while clauses are compared: the term is
/// the value of the variable.
pub fn subsume_deref<H: Host>(term: NodeRef, pattern: NodeRef, state: &mut State<H>, memory: &mut Memory, unifying: bool)
    -> (r: Result<Vec<(NodeRef, NodeRef)>, NodeRef>)
    requires
        unify_pre(*old(state), old(memory)@, term, pattern),
    ensures
        unify_post(*old(state), old(memory)@, *final(state), final(memory)@, r),
        old(state).fuel > 0 && kind_at(old(memory)@, term) != Kind::Deref
            ==> (r matches Err(e) && raised(final(memory)@, e, "VMError"@)),
        old(state).fuel > 0 ==> (old(memory)@[term.id as int] matches Node::AstroDeref(d)
            ==> (id_at(old(memory)@, d.expression) matches Some(n) ==> (old(state).lookup_spec(n) is None
            ==> (r matches Err(e) && raised(final(memory)@, e, "ValueError"@))))),
        old(state).fuel >= 2 ==> (old(memory)@[term.id as int] matches Node::AstroDeref(d)
            ==> (id_at(old(memory)@, d.expression) matches Some(n) ==> (old(state).lookup_spec(n) matches Some(v)
            ==> leaf_outcome(old(memory)@, v, pattern, unifying, r)))),
    decreases old(state).fuel,
{
    match spend(state, memory) { Err(e) => return Err(e), Ok(()) => {} }
    let exp = match memory.get(term) { Node::AstroDeref(x) => Some(x.expression), _ => None };
    let exp = match exp {
        None => return Err(raise("VMError", "unify: expected derefence expression.", state, memory)),
        Some(x) => x,
    };
    let name = match memory.get(exp) { Node::AstroID(x) => Some(x.name.clone()), _ => None };
    let name = match name {
        None => return Err(raise("VMError", "unify: expected derefence expression.", state, memory)),
        Some(n) => n,
    };
    match state.lookup_sym(name.as_str()) {
        None => {
            let msg = text3("'", name.as_str(), "' is not defined");
            Err(new_exception("ValueError".to_owned(), msg, state, memory))
        },
        Some(t) => unify(t, pattern, state, memory, unifying),
    }
}

/// Copies a sequence of handles.
pub fn copy_refs(v: &Vec<NodeRef>) -> (r: Vec<NodeRef>)
    ensures
        r@ == v@,
{
    let mut r: Vec<NodeRef> = Vec::new();
    let mut i: usize = 0;
    while i < v.len()
        invariant
            i <= v@.len(),
            r@ == v@.take(i as int),
        decreases v@.len() - i,
    {
        r.push(v[i]);
        i = i + 1;
        assert(r@ =~= v@.take(i as int));
    }
    assert(v@.take(v@.len() as int) =~= v@);
    r
}

/// Unifies the first `count` items of two sequences pairwise and joins
/// the unifiers, stopping at the first failure.
fn unify_items<H: Host>(terms: &Vec<NodeRef>, patterns: &Vec<NodeRef>, count: usize, state: &mut State<H>, memory: &mut Memory, unifying: bool)
    -> (r: Result<Vec<(NodeRef, NodeRef)>, NodeRef>)
    requires
        env_ok(*old(state), old(memory)@),
        count <= terms@.len(),
        count <= patterns@.len(),
        refs_below(terms@, old(memory)@.len()),
        refs_below(patterns@, old(memory)@.len()),
    ensures
        unify_post(*old(state), old(memory)@, *final(state), final(memory)@, r),
        old(state).fuel > count + 1 ==> (var_list(old(memory)@, patterns@.take(count as int))
            ==> (r matches Ok(u) && u@ == zip_unifiers(patterns@, terms@, count as nat))),
        old(state).fuel > count + 1 ==> (items_match(old(memory)@, terms@, patterns@, count as nat, unifying) matches Some(o)
            ==> (match o {
                Some(b) => r matches Ok(u) && u@ == b && final(memory)@ == old(memory)@,
                None => r is Err,
            })),
    decreases old(state).fuel,
{
    proof {
        if var_list(old(memory)@, patterns@.take(count as int)) {
            lemma_items_match_vars(old(memory)@, terms@, patterns@, count as nat, unifying);
        }
    }
    match spend(state, memory) { Err(e) => return Err(e), Ok(()) => {} }
    let mut unifiers: Vec<(NodeRef, NodeRef)> = Vec::new();
    let mut i: usize = 0;
    let ghost s0 = *old(state);
    let ghost m0 = old(memory)@;
    let ghost known = old(state).fuel > count + 1 && items_match(old(memory)@, terms@, patterns@, count as nat, unifying) is Some;
    let ghost vl = old(state).fuel > count + 1 && var_list(old(memory)@, patterns@.take(count as int));
    assert(unifiers@ =~= Seq::<(NodeRef, NodeRef)>::empty());
    while i < count
        invariant
            s0 == *old(state),
            m0 == old(memory)@,
            known == (s0.fuel > count + 1 && items_match(m0, terms@, patterns@, count as nat, unifying) is Some),
            vl == (s0.fuel > count + 1 && var_list(m0, patterns@.take(count as int))),
            vl ==> known && items_match(m0, terms@, patterns@, count as nat, unifying)
                == Some(Some(zip_unifiers(patterns@, terms@, count as nat))),
            known ==> (items_match(m0, terms@, patterns@, i as nat, unifying) matches Some(Some(b))
                && memory@ == m0 && state.fuel == s0.fuel - 1 - i && unifiers@ == b),
            i <= count,
            count <= terms@.len(),
            count <= patterns@.len(),
            refs_below(terms@, m0.len()),
            refs_below(patterns@, m0.len()),
            steps(s0, m0, *state, memory@),
            state.fuel < s0.fuel,
            unifiers_ok(unifiers@, memory@.len()),
        decreases count - i,
    {
        proof {
            if known {
                lemma_items_match_prefix(m0, terms@, patterns@, (i + 1) as nat, count as nat, unifying);
                if items_match(m0, terms@, patterns@, count as nat, unifying) is Some && !(items_match(m0, terms@, patterns@, count as nat, unifying) == Some(None::<Seq<(NodeRef, NodeRef)>>)) {
                    assert(items_match(m0, terms@, patterns@, (i + 1) as nat, unifying) is Some);
                    assert(items_match(m0, terms@, patterns@, (i + 1) as nat, unifying) != Some(None::<Seq<(NodeRef, NodeRef)>>));
                }
            }
        }
        let ghost before = unifiers@;
        let r = unify(terms[i], patterns[i], state, memory, unifying);
        match r {
            Err(e) => return Err(e),
            Ok(u) => {
                let mut u = u;
                unifiers.append(&mut u);
            },
        }
        i = i + 1;
    }
    Ok(unifiers)
}

/// A decided match of `n` items decides every shorter prefix, as a success
/// when the whole is one and otherwise at least up to its first failure.
proof fn lemma_items_match_prefix(m: Seq<Node>, t: Seq<NodeRef>, p: Seq<NodeRef>, k: nat, n: nat, unifying: bool)
    requires
        k <= n,
        items_match(m, t, p, n, unifying) is Some,
    ensures
        items_match(m, t, p, k, unifying) is Some,
        items_match(m, t, p, k, unifying) == Some(None::<Seq<(NodeRef, NodeRef)>>)
            ==> items_match(m, t, p, n, unifying) == Some(None::<Seq<(NodeRef, NodeRef)>>),
    decreases n - k,
{
    if k < n {
        lemma_items_match_prefix(m, t, p, (k + 1) as nat, n, unifying);
    }
}

/// Matches two objects of the same structure member by member (all members
/// but the last).
pub fn unify_object_to_object<H: Host>(term: NodeRef, pattern: NodeRef, state: &mut State<H>, memory: &mut Memory, unifying: bool)
    -> (r: Result<Vec<(NodeRef, NodeRef)>, NodeRef>)
    requires
        unify_pre(*old(state), old(memory)@, term, pattern),
    ensures
        unify_post(*old(state), old(memory)@, *final(state), final(memory)@, r),
        old(state).fuel > 0 && (kind_at(old(memory)@, term) != Kind::Object || kind_at(old(memory)@, pattern) != Kind::Object)
            ==> (r matches Err(e) && raised(final(memory)@, e, "VMError"@)),
        old(state).fuel > 0 ==> (old(memory)@[term.id as int] matches Node::AstroObject(t)
            ==> (old(memory)@[pattern.id as int] matches Node::AstroObject(p)
            ==> (t.struct_id.name@ != p.struct_id.name@ ==> (r matches Err(e) && raised(final(memory)@, e, "PatternMatchFailed"@))))),
        old(state).fuel > 0 ==> (old(memory)@[term.id as int] matches Node::AstroObject(t)
            ==> (old(memory)@[pattern.id as int] matches Node::AstroObject(p)
            ==> (t.struct_id.name@ == p.struct_id.name@ && t.object_memory@.len() >= 1
                && p.object_memory@.len() >= t.object_memory@.len() - 1 && old(state).fuel > t.object_memory@.len() + 1
            ==> items_outcome(old(memory)@, t.object_memory@, p.object_memory@, (t.object_memory@.len() - 1) as nat, unifying, r)))),
    decreases old(state).fuel,
{
    match spend(state, memory) { Err(e) => return Err(e), Ok(()) => {} }
    let t = match memory.get(term) { Node::AstroObject(x) => Some((x.struct_id.name.clone(), copy_refs(&x.object_memory))), _ => None };
    let p = match memory.get(pattern) { Node::AstroObject(x) => Some((x.struct_id.name.clone(), copy_refs(&x.object_memory))), _ => None };
    let ((t_name, t_data), (p_name, p_data)) = match (t, p) {
        (Some(t), Some(p)) => (t, p),
        _ => return Err(raise("VMError", "divison by zero", state, memory)),
    };
    if !str_eq(t_name.as_str(), p_name.as_str()) {
        let msg = text5("pattern type ", t_name.as_str(), " and term type ", p_name.as_str(), " do not agree.");
        return Err(new_exception("PatternMatchFailed".to_owned(), msg, state, memory));
    }
    if t_data.len() == 0 || p_data.len() < t_data.len() - 1 {
        return Err(raise("VMError", "unify: object memories do not agree.", state, memory));
    }
    proof {
        assert(node_ok(old(memory)@[term.id as int], old(memory)@.len(), old(state).frames@.len()));
        assert(node_ok(old(memory)@[pattern.id as int], old(memory)@.len(), old(state).frames@.len()));
    }
    let count = t_data.len() - 1;
    unify_items(&t_data, &p_data, count, state, memory, unifying)
}

/// Matches a conditional pattern `p if c`: the term has to match `p`, and
/// `c` has to hold with the bindings made; a pattern with an `else` part
/// is refused.
#[verifier::rlimit(100)]
#[verifier::spinoff_prover]
pub fn unify_if<H: Host>(term: NodeRef, pattern: NodeRef, state: &mut State<H>, memory: &mut Memory, unifying: bool)
    -> (r: Result<Vec<(NodeRef, NodeRef)>, NodeRef>)
    requires
        unify_pre(*old(state), old(memory)@, term, pattern),
    ensures
        unify_post(*old(state), old(memory)@, *final(state), final(memory)@, r),
        old(state).fuel > 0 && kind_at(old(memory)@, pattern) != Kind::If
            ==> (r matches Err(e) && raised(final(memory)@, e, "VMError"@)),
        old(state).fuel > 0 ==> (old(memory)@[pattern.id as int] matches Node::AstroIf(x)
            ==> (kind_at(old(memory)@, x.else_exp) != Kind::NoneValue
            ==> (r matches Err(e) && raised(final(memory)@, e, "ValueError"@)))),
        old(state).fuel >= 2 ==> (old(memory)@[pattern.id as int] matches Node::AstroIf(x)
            ==> (kind_at(old(memory)@, x.else_exp) == Kind::NoneValue ==> (leaf_match(old(memory)@, term, x.then_exp, unifying) matches Some(o)
            ==> ((o is None ==> r is Err) && (o matches Some(b) ==> (r matches Ok(u) ==> u@ == b)))))),
        old(state).fuel >= 5 ==> (old(memory)@[pattern.id as int] matches Node::AstroIf(x)
            ==> (kind_at(old(memory)@, x.else_exp) == Kind::NoneValue && is_value_kind(kind_at(old(memory)@, x.cond_exp))
                && (id_at(old(memory)@, x.then_exp) matches Some(n) && n != "this"@)
            ==> (truth(old(memory)@[x.cond_exp.id as int]) matches Some(holds) ==> (leaf_match(old(memory)@, term, x.then_exp, unifying) matches Some(Some(b))
            ==> ((holds ==> (r matches Ok(u) && u@ == b))
                && (!holds ==> (r matches Err(e) && exception_parts(final(memory)@, e)
                    == Some(("PatternMatchFailed"@, "Conditional pattern match failed."@))))))))),
        old(state).fuel >= 13 ==> cond_pattern_result(old(memory)@, final(memory)@, term, pattern, r),
        old(state).fuel >= 13 ==> (old(memory)@[pattern.id as int] matches Node::AstroIf(x)
            ==> (kind_at(old(memory)@, x.else_exp) == Kind::NoneValue
                && (id_at(old(memory)@, x.then_exp) matches Some(n) && n != "this"@ && n != "_"@)
            ==> (cond_call(old(memory)@, x.cond_exp, id_at(old(memory)@, x.then_exp).unwrap(), term) matches Some((op, a, b))
            ==> (builtin_outcome(old(memory)@, op, a, b) matches Some(Outcome::Bool(holds))
            ==> cond_outcome(final(memory)@, x.then_exp, term, holds, r))))),
        old(state).fuel >= 16 ==> (old(memory)@[pattern.id as int] matches Node::AstroIf(x)
            ==> (kind_at(old(memory)@, x.else_exp) == Kind::NoneValue ==> (named_then(old(memory)@, x.then_exp, term) matches Some(n)
            ==> (cond_call(old(memory)@, x.cond_exp, n, term) matches Some((op, a, b))
            ==> (builtin_outcome(old(memory)@, op, a, b) matches Some(Outcome::Bool(holds))
            ==> named_then_outcome(final(memory)@, n, term, holds, r)))))),
    decreases old(state).fuel,
{
    match spend(state, memory) { Err(e) => return Err(e), Ok(()) => {} }
    let parts = match memory.get(pattern) { Node::AstroIf(x) => Some((x.cond_exp, x.then_exp, x.else_exp)), _ => None };
    let (p_cond, p_then, p_else) = match parts {
        None => return Err(raise("VMError", "unify: expected if expression.", state, memory)),
        Some(x) => x,
    };
    proof { assert(node_ok(memory@[pattern.id as int], memory@.len(), state.frames@.len())); }
    if node_kind(memory.get(p_else)) != Kind::NoneValue {
        return Err(raise("ValueError", "Conditional patterns do not support else clauses.", state, memory));
    }
    let unifiers = match unify(term, p_then, state, memory, unifying) {
        Ok(v) => v,
        Err(e) => return Err(e),
    };
    let ghost n1 = memory@.len();
    let ghost m0 = old(memory)@;
    let ghost nm = id_at(m0, p_then).unwrap();
    let ghost cc = cond_call(m0, p_cond, nm, term);
    let ghost big = old(state).fuel >= 13 && id_at(m0, p_then) is Some && nm != "this"@ && nm != "_"@
        && cc is Some && (builtin_outcome(m0, cc.unwrap().0, cc.unwrap().1, cc.unwrap().2) matches Some(Outcome::Bool(_)));
    proof {
        if big {
            assert(unifiers@ == seq![(p_then, term)]);
            assert(memory@ == m0);
        }
    }
    let ghost nm2 = match named_then(m0, p_then, term) { Some(n) => n, None => Seq::<char>::empty() };
    let ghost cc2 = cond_call(m0, p_cond, nm2, term);
    let ghost big2 = old(state).fuel >= 16 && named_then(m0, p_then, term) is Some && cc2 is Some
        && (builtin_outcome(m0, cc2.unwrap().0, cc2.unwrap().1, cc2.unwrap().2) matches Some(Outcome::Bool(_)));
    let ghost m_u = memory@;
    proof {
        if big2 {
            assert(unifiers@.len() == 1 && unifiers@[0].1 == term && id_at(memory@, unifiers@[0].0) == Some(nm2));
            assert(memory@.subrange(0, m0.len() as int) == m0);
            assert(*state == (State { fuel: (old(state).fuel - 5) as u64, ..*old(state) }));
        }
    }
    if state.constraint_lvl > 0 {
        state.push_scope();
        proof { crate::memory::lemma_mem_ok_frames(memory@, (state.frames@.len() - 1) as nat, state.frames@.len()); }
    }
    let nfr = state.frames.len();
    state.push_scope();
    proof { crate::memory::lemma_mem_ok_frames(memory@, (state.frames@.len() - 1) as nat, state.frames@.len()); }
    let ghost s_b = *state;
    proof {
        if big {
            assert(s_b.innermost() == nfr);
            assert(s_b.frames@[nfr as int] == s_b.frames@.last());
            assert(inner_globals(s_b).len() == 0);
            assert(!names_has(inner_globals(s_b), nm));
            assert(crate::index::plain_bindings(memory@, unifiers@));
            assert(crate::index::last_binding(memory@, unifiers@, nm, unifiers@.len()) == Some(term));
        }
        if big2 {
            assert(s_b.innermost() == nfr);
            assert(s_b.frames@[nfr as int] == s_b.frames@.last());
            assert(inner_globals(s_b).len() == 0);
            assert(!names_has(inner_globals(s_b), nm2));
            assert(crate::index::plain_bindings(memory@, unifiers@));
            assert(crate::index::last_binding(memory@, unifiers@, nm2, unifiers@.len()) == Some(term));
        }
    }
    let _ = declare_unifiers(&unifiers, state, memory);
    let ghost s_c = *state;
    let ghost m_c = memory@;
    proof {
        if big {
            assert(m_c == m0);
            assert(s_c.lookup_spec(nm) == Some(term));
            let (op, a, b) = cond_call(m0, p_cond, nm, term).unwrap();
            assert(node_ok(m0[p_cond.id as int], m0.len(), s_c.frames@.len()));
            assert(crate::walk::operator_call(s_c, m_c, p_cond) == Some((op, a, b, 2nat)));
        }
        if big2 {
            assert(m_c == m_u);
            assert(s_c.lookup_spec(nm2) == Some(term));
            lemma_cond_operator_call(s_c, m0, m_c, p_cond, nm2, term, old(state).frames@.len() as nat);
        }
    }
    match walk(p_cond, state, memory) {
        Ok(_) => {},
        Err(e) => return Err(e),
    }
    let ghost s_d = *state;
    let ghost m_d = memory@;
    proof {
        if big {
            let (op, a, b) = cond_call(m0, p_cond, nm, term).unwrap();
            assert(m_d.subrange(0, m0.len() as int) == m0);
            assert(s_d.lookup_spec(nm) == Some(term));
            assert(crate::walk::operator_call(s_d, m_d, p_cond) == Some((op, a, b, 2nat)));
        }
        if big2 {
            let (op, a, b) = cond_call(m0, p_cond, nm2, term).unwrap();
            assert(m_d.subrange(0, m0.len() as int) == m0) by {
                assert(m_d.subrange(0, m0.len() as int) == m_d.subrange(0, m_c.len() as int).subrange(0, m0.len() as int));
            }
            assert(s_d.lookup_spec(nm2) == Some(term));
            lemma_cond_operator_call(s_d, m0, m_d, p_cond, nm2, term, old(state).frames@.len() as nat);
        }
    }
    let cond = match walk(p_cond, state, memory) {
        Ok(v) => v,
        Err(e) => return Err(e),
    };
    let b = map2boolean::<H>(memory.get(cond));
    state.pop_scope();
    if state.constraint_lvl > 0 {
        state.pop_scope();
    }
    let holds = match b { Node::AstroBool(x) => x.value, _ => false };
    if holds {
        Ok(unifiers)
    } else {
        Err(raise("PatternMatchFailed", "Conditional pattern match failed.", state, memory))
    }
}

/// An operand of a condition: the variable `n`, which stands for `v`, or a
/// value.
pub open spec fn cond_operand(m: Seq<Node>, r: NodeRef, n: Seq<char>, v: NodeRef) -> Option<NodeRef> {
    if id_at(m, r) == Some(n) {
        Some(v)
    } else if is_value_kind(kind_at(m, r)) {
        Some(r)
    } else {
        None
    }
}

/// A condition `op(a, b)` on a built-in operator whose operands are each
/// the variable `n`, standing for `v`, or a value: the operator and the
/// values it is applied to.
pub open spec fn cond_call(m: Seq<Node>, cond: NodeRef, n: Seq<char>, v: NodeRef) -> Option<(Op, NodeRef, NodeRef)> {
    match apply_parts(m, cond) {
        Some((f, a)) => match (m[f.id as int], m[a.id as int]) {
            (Node::AstroID(x), Node::AstroPair(p)) => if op_of(x.name@) is Some {
                match (cond_operand(m, p.first, n, v), cond_operand(m, p.second, n, v)) {
                    (Some(a1), Some(b1)) => Some((op_of(x.name@).unwrap(), a1, b1)),
                    _ => None,
                }
            } else {
                None
            },
            _ => None,
        },
        None => None,
    }
}

/// What a conditional pattern `n if c` gives on a term whose condition
/// evaluates to the boolean `holds`: the binding of `n`, or a failure.
pub open spec fn cond_outcome(m1: Seq<Node>, then_exp: NodeRef, term: NodeRef, holds: bool,
    r: Result<Vec<(NodeRef, NodeRef)>, NodeRef>) -> bool {
    &&& holds ==> (r matches Ok(u) && u@ == seq![(then_exp, term)])
    &&& !holds ==> (r matches Err(e) && exception_parts(m1, e) == Some(("PatternMatchFailed"@, "Conditional pattern match failed."@)))
}

/// A conditional pattern `n if c` with no else part, where `n` is a
/// variable other than `_` and `this` and `c` is a condition as
/// [`cond_call`] reads it, given `term`: the variable's node and the
/// boolean the condition gives.
pub open spec fn cond_pattern(m: Seq<Node>, p: NodeRef, term: NodeRef) -> Option<(NodeRef, bool)> {
    match m[p.id as int] {
        Node::AstroIf(x) => if kind_at(m, x.else_exp) == Kind::NoneValue && id_at(m, x.then_exp) is Some
            && id_at(m, x.then_exp).unwrap() != "this"@ && id_at(m, x.then_exp).unwrap() != "_"@ {
            match cond_call(m, x.cond_exp, id_at(m, x.then_exp).unwrap(), term) {
                Some((op, a, b)) => match builtin_outcome(m, op, a, b) {
                    Some(Outcome::Bool(holds)) => Some((x.then_exp, holds)),
                    _ => None,
                },
                None => None,
            }
        } else {
            None
        },
        _ => None,
    }
}

/// The result of matching `term` against the conditional pattern `p` (see
/// [`cond_pattern`]).
pub open spec fn cond_pattern_result(m0: Seq<Node>, m1: Seq<Node>, term: NodeRef, p: NodeRef,
    r: Result<Vec<(NodeRef, NodeRef)>, NodeRef>) -> bool {
    cond_pattern(m0, p, term) matches Some((th, holds)) ==> cond_outcome(m1, th, term, holds, r)
}

/// What a named pattern `x: p` gives where `p` gives [`cond_outcome`]: the
/// binding of the condition's variable, then that of `x`, both to the term.
pub open spec fn named_cond_outcome(m1: Seq<Node>, then_exp: NodeRef, term: NodeRef, name: Seq<char>, holds: bool,
    r: Result<Vec<(NodeRef, NodeRef)>, NodeRef>) -> bool {
    &&& holds ==> (r matches Ok(u) && u@.len() == 2 && u@[0] == (then_exp, term) && u@[1].1 == term
        && id_at(m1, u@[1].0) == Some(name))
    &&& !holds ==> r is Err
}

/// The variable that the then-part of a conditional pattern binds to the
/// whole term, where that part is a named pattern `n: %t` whose type the
/// term has and `n` is neither `this` nor `_`.
pub open spec fn named_then(m: Seq<Node>, then_exp: NodeRef, term: NodeRef) -> Option<Seq<char>> {
    match m[then_exp.id as int] {
        Node::AstroNamedPattern(np) => match typematch_name(m, np.pattern) {
            Some(p) => if typed_kind(kind_at(m, term)) && p == pattern_type_name(kind_at(m, term))
                && np.name.name@ != "this"@ && np.name.name@ != "_"@ {
                Some(np.name.name@)
            } else {
                None
            },
            None => None,
        },
        _ => None,
    }
}

/// What a conditional pattern whose then-part binds `n` to the term gives:
/// that one binding where the condition holds, else `PatternMatchFailed`.
pub open spec fn named_then_outcome(m1: Seq<Node>, n: Seq<char>, term: NodeRef, holds: bool,
    r: Result<Vec<(NodeRef, NodeRef)>, NodeRef>) -> bool {
    &&& holds ==> (r matches Ok(u) && u@.len() == 1 && u@[0].1 == term && u@[0].0.id < m1.len() && id_at(m1, u@[0].0) == Some(n))
    &&& !holds ==> (r matches Err(e) && exception_parts(m1, e) == Some(("PatternMatchFailed"@, "Conditional pattern match failed."@)))
}

/// A condition that [`cond_call`] reads in a store evaluates, in any larger
/// store and with `n` bound to `v`, as an operator call on the same values.
proof fn lemma_cond_operator_call<H>(s: State<H>, m0: Seq<Node>, m1: Seq<Node>, cond: NodeRef, n: Seq<char>, v: NodeRef, nf: nat)
    requires
        mem_ok(m0, nf),
        m0.len() <= m1.len(),
        m1.subrange(0, m0.len() as int) == m0,
        cond.id < m0.len(),
        s.lookup_spec(n) == Some(v),
        cond_call(m0, cond, n, v) is Some,
    ensures
        crate::walk::operator_call(s, m1, cond) == Some((cond_call(m0, cond, n, v).unwrap().0,
            cond_call(m0, cond, n, v).unwrap().1, cond_call(m0, cond, n, v).unwrap().2, 2nat)),
{
    assert(m1[cond.id as int] == m1.subrange(0, m0.len() as int)[cond.id as int]);
    assert(node_ok(m0[cond.id as int], m0.len(), nf));
    if let Node::AstroApply(x) = m0[cond.id as int] {
        assert(m1[x.function.id as int] == m1.subrange(0, m0.len() as int)[x.function.id as int]);
        assert(m1[x.argument.id as int] == m1.subrange(0, m0.len() as int)[x.argument.id as int]);
        assert(node_ok(m0[x.argument.id as int], m0.len(), nf));
        if let Node::AstroPair(p) = m0[x.argument.id as int] {
            assert(m1[p.first.id as int] == m1.subrange(0, m0.len() as int)[p.first.id as int]);
            assert(m1[p.second.id as int] == m1.subrange(0, m0.len() as int)[p.second.id as int]);
        }
    }
}

/// The quoted conditional pattern that `p`, a quote, holds.
pub open spec fn quoted(m: Seq<Node>, p: NodeRef) -> Option<NodeRef> {
    match m[p.id as int] {
        Node::AstroQuote(q) => Some(q.expression),
        _ => None,
    }
}

/// The pattern that the dereference `p` = `*v` stands for: the value of
/// the variable `v`.
pub open spec fn deref_target<H>(s: State<H>, m: Seq<Node>, p: NodeRef) -> Option<NodeRef> {
    match m[p.id as int] {
        Node::AstroDeref(d) => match id_at(m, d.expression) {
            Some(n) => s.lookup_spec(n),
            None => None,
        },
        _ => None,
    }
}

/// Compares a conditional pattern placed after an unconditional one: it is
/// redundant when its pattern part is subsumed.
pub fn subsume_conditional<H: Host>(term: NodeRef, pattern: NodeRef, state: &mut State<H>, memory: &mut Memory, unifying: bool)
    -> (r: Result<Vec<(NodeRef, NodeRef)>, NodeRef>)
    requires
        unify_pre(*old(state), old(memory)@, term, pattern),
    ensures
        unify_post(*old(state), old(memory)@, *final(state), final(memory)@, r),
        old(state).fuel > 0 && kind_at(old(memory)@, term) != Kind::If
            ==> (r matches Err(e) && raised(final(memory)@, e, "VMError"@)),
        old(state).fuel > 0 ==> (old(memory)@[term.id as int] matches Node::AstroIf(x)
            ==> (kind_at(old(memory)@, x.else_exp) != Kind::NoneValue
            ==> (r matches Err(e) && raised(final(memory)@, e, "ValueError"@)))),
    decreases old(state).fuel,
{
    match spend(state, memory) { Err(e) => return Err(e), Ok(()) => {} }
    let parts = match memory.get(term) { Node::AstroIf(x) => Some((x.then_exp, x.else_exp)), _ => None };
    let (t_then, t_else) = match parts {
        None => return Err(raise("VMError", "unify: expected if expression.", state, memory)),
        Some(x) => x,
    };
    proof { assert(node_ok(memory@[term.id as int], memory@.len(), state.frames@.len())); }
    if node_kind(memory.get(t_else)) == Kind::NoneValue {
        unify(t_then, pattern, state, memory, unifying)
    } else {
        Err(raise("ValueError", "Conditional patterns do not support else clauses.", state, memory))
    }
}

/// The type names a type match on a primitive type may name.
pub open spec fn builtin_type(p: Seq<char>) -> bool {
    p == "string"@ || p == "real"@ || p == "integer"@ || p == "list"@ || p == "tuple"@ || p == "boolean"@ || p == "none"@
}

fn is_builtin_type(p: &str) -> (b: bool)
    ensures
        b == builtin_type(p@),
{
    str_eq(p, "string") || str_eq(p, "real") || str_eq(p, "integer") || str_eq(p, "list")
        || str_eq(p, "tuple") || str_eq(p, "boolean") || str_eq(p, "none")
}

/// The name by which a type pattern names the type of a node of kind `k`:
/// booleans are `boolean`, other kinds go by their own name.
pub open spec fn pattern_type_name(k: Kind) -> Seq<char> {
    if k == Kind::Bool { "boolean"@ } else { kind_name(k) }
}

/// The kinds of the values that a primitive type pattern names.
pub open spec fn typed_kind(k: Kind) -> bool {
    k == Kind::String || k == Kind::Real || k == Kind::Integer || k == Kind::List || k == Kind::Tuple
        || k == Kind::Bool || k == Kind::NoneValue
}

/// A type pattern names the kind of a primitive value by the name that
/// [`crate::ast::peek`] gives that kind (`boolean` for booleans), and no two
/// of these kinds share a name: `%tuple` matches tuples and only tuples,
/// `%list` lists and only lists.
pub proof fn law_type_pattern_names(k1: Kind, k2: Kind)
    requires
        typed_kind(k1),
        typed_kind(k2),
    ensures
        k1 != Kind::Bool ==> pattern_type_name(k1) == kind_name(k1),
        k1 == Kind::Bool ==> pattern_type_name(k1) == "boolean"@,
        builtin_type(pattern_type_name(k1)),
        k1 != k2 ==> pattern_type_name(k1) != pattern_type_name(k2),
{
    reveal_strlit("string"); reveal_strlit("real"); reveal_strlit("integer"); reveal_strlit("list");
    reveal_strlit("tuple"); reveal_strlit("boolean"); reveal_strlit("none");
    assert(pattern_type_name(k1).len() > 0 && pattern_type_name(k2).len() > 0);
    assert(k1 != k2 ==> pattern_type_name(k1)[0] != pattern_type_name(k2)[0]);
}

/// Whether the type pattern `p` names the type of a node of kind `k`.
fn type_matches(p: &str, k: Kind) -> (b: bool)
    ensures
        b == (p@ == pattern_type_name(k)),
{
    if k == Kind::Bool {
        str_eq(p, "boolean")
    } else {
        str_eq(p, kind_str(k))
    }
}

/// The type named by a type-match pattern.
pub open spec fn typematch_name(m: Seq<Node>, p: NodeRef) -> Option<Seq<char>> {
    match m[p.id as int] {
        Node::AstroTypeMatch(x) => if x.expression.id < m.len() { string_at(m, x.expression) } else { None },
        _ => None,
    }
}

/// Matches a type pattern `%type`: the term has to be of that type.
pub fn unify_typematch<H: Host>(term: NodeRef, pattern: NodeRef, state: &mut State<H>, memory: &mut Memory, unifying: bool)
    -> (r: Result<Vec<(NodeRef, NodeRef)>, NodeRef>)
    requires
        unify_pre(*old(state), old(memory)@, term, pattern),
    ensures
        unify_post(*old(state), old(memory)@, *final(state), final(memory)@, r),
        r matches Ok(u) ==> u@.len() == 0,
        old(state).fuel > 0 ==> (typematch_name(old(memory)@, pattern) matches Some(p)
            ==> (builtin_type(p) && p == pattern_type_name(kind_at(old(memory)@, term))
            ==> (r is Ok && final(memory)@ == old(memory)@ && spent(*old(state), *final(state))))),
        old(state).fuel > 0 && typematch_name(old(memory)@, pattern) is None
            ==> (r matches Err(e) && raised(final(memory)@, e, "VMError"@)),
        old(state).fuel > 0 ==> (typematch_name(old(memory)@, pattern) matches Some(p) ==> {
            let k = kind_at(old(memory)@, term);
            &&& builtin_type(p) && p == pattern_type_name(k) ==> r is Ok
            &&& builtin_type(p) && p != pattern_type_name(k) && k != Kind::ID && k != Kind::Index
                ==> (r matches Err(e) && raised(final(memory)@, e, "PatternMatchFailed"@))
            &&& p == "pattern"@ ==> (r is Ok <==> k == Kind::Quote)
            &&& p == "function"@ ==> (r is Ok <==> (k == Kind::FunctionVal || k == Kind::MemberFunctionVal))
            &&& p == "object"@ ==> (old(memory)@[term.id as int] matches Node::AstroObject(o)
                ==> (r is Ok <==> o.struct_id.name@ == "object"@))
            &&& p == "object"@ && k != Kind::Object ==> (r matches Err(e) && raised(final(memory)@, e, "VMError"@))
            &&& !builtin_type(p) && p != "pattern"@ && p != "object"@ && p != "function"@ ==> r is Err
            &&& !builtin_type(p) && p != "object"@ && r is Err
                ==> (r matches Err(e) && raised(final(memory)@, e, "PatternMatchFailed"@))
        }),
        old(state).fuel >= 2 ==> (typematch_name(old(memory)@, pattern) matches Some(p) ==> (builtin_type(p)
            ==> (id_at(old(memory)@, term) matches Some(n) ==> (old(state).lookup_spec(n) matches Some(v)
            ==> ((r is Ok <==> p == pattern_type_name(kind_at(old(memory)@, v)))
                && (r is Err ==> (r matches Err(e) && raised(final(memory)@, e, "PatternMatchFailed"@)))))))),
    decreases old(state).fuel,
{
    match spend(state, memory) { Err(e) => return Err(e), Ok(()) => {} }
    let exp = match memory.get(pattern) { Node::AstroTypeMatch(x) => Some(x.expression), _ => None };
    let exp = match exp {
        None => return Err(raise("VMError", "unify: expected typematch.", state, memory)),
        Some(x) => x,
    };
    proof { assert(node_ok(memory@[pattern.id as int], memory@.len(), state.frames@.len())); }
    let p_type = match memory.get(exp) { Node::AstroString(x) => Some(x.value.clone()), _ => None };
    let p_type = match p_type {
        None => return Err(raise("VMError", "unify: expected string.", state, memory)),
        Some(x) => x,
    };
    let term_kind = node_kind(memory.get(term));
    let term_type = kind_str(term_kind);
    proof {
        reveal_strlit("string"); reveal_strlit("real"); reveal_strlit("integer"); reveal_strlit("list");
        reveal_strlit("tuple"); reveal_strlit("boolean"); reveal_strlit("none");
        reveal_strlit("function"); reveal_strlit("pattern"); reveal_strlit("object");
        assert("pattern"@[0] != "string"@[0] && "pattern"@[0] != "real"@[0] && "pattern"@[0] != "integer"@[0]
            && "pattern"@[0] != "list"@[0] && "pattern"@[0] != "tuple"@[0] && "pattern"@[0] != "boolean"@[0]
            && "pattern"@[0] != "none"@[0] && "pattern"@[0] != "function"@[0]);
        assert(!builtin_type("pattern"@));
        reveal_strlit("id"); reveal_strlit("index");
        assert("index"@[0] != "tuple"@[0] && "index"@.len() == 5 && "tuple"@.len() == 5);
        assert("id"@.len() == 2);
        assert(!builtin_type("id"@));
        assert(!builtin_type("index"@));
    }
    if is_builtin_type(p_type.as_str()) {
        if type_matches(p_type.as_str(), term_kind) {
            return Ok(Vec::new());
        } else if term_kind == Kind::ID || term_kind == Kind::Index {
            let v = match walk(term, state, memory) {
                Ok(v) => v,
                Err(e) => return Err(e),
            };
            let v_kind = node_kind(memory.get(v));
            let v_type = kind_str(v_kind);
            if type_matches(p_type.as_str(), v_kind) {
                return Ok(Vec::new());
            } else {
                let msg = text4("Expected typematch: ", p_type.as_str(), ", got a term of type ", v_type);
                return Err(new_exception("PatternMatchFailed".to_owned(), msg, state, memory));
            }
        } else {
            let msg = text4("Expected typematch: ", p_type.as_str(), ", got a term of type ", term_type);
            return Err(new_exception("PatternMatchFailed".to_owned(), msg, state, memory));
        }
    }
    let msg = text4("Expected typematch: ", p_type.as_str(), ", got a term of type ", term_type);
    if str_eq(p_type.as_str(), "function") {
        if term_kind == Kind::FunctionVal || term_kind == Kind::MemberFunctionVal {
            Ok(Vec::new())
        } else {
            Err(new_exception("PatternMatchFailed".to_owned(), msg, state, memory))
        }
    } else if str_eq(p_type.as_str(), "pattern") {
        if term_kind == Kind::Quote {
            Ok(Vec::new())
        } else {
            Err(new_exception("PatternMatchFailed".to_owned(), msg, state, memory))
        }
    } else if str_eq(p_type.as_str(), "object") {
        let t_type = match memory.get(term) { Node::AstroObject(x) => Some(x.struct_id.name.clone()), _ => None };
        match t_type {
            None => Err(raise("VMError", "unify: expected object.", state, memory)),
            Some(t) => if str_eq(p_type.as_str(), t.as_str()) {
                Ok(Vec::new())
            } else {
                Err(new_exception("PatternMatchFailed".to_owned(), msg, state, memory))
            },
        }
    } else {
        match state.lookup_sym(p_type.as_str()) {
            None => {
                let m2 = text2(p_type.as_str(), " is not a valid type for typematch");
                Err(new_exception("PatternMatchFailed".to_owned(), m2, state, memory))
            },
            Some(v) => {
                if node_kind(memory.get(v)) != Kind::Struct {
                    let m2 = text2(p_type.as_str(), " is not a type");
                    Err(new_exception("PatternMatchFailed".to_owned(), m2, state, memory))
                } else {
                    Err(new_exception("PatternMatchFailed".to_owned(), msg, state, memory))
                }
            },
        }
    }
}

/// Matches a named pattern `x: p`: the term has to match `p`, and `x` is
/// bound to the whole term after the bindings of `p`.
pub fn unify_namedpattern<H: Host>(term: NodeRef, pattern: NodeRef, state: &mut State<H>, memory: &mut Memory, unifying: bool)
    -> (r: Result<Vec<(NodeRef, NodeRef)>, NodeRef>)
    requires
        unify_pre(*old(state), old(memory)@, term, pattern),
    ensures
        unify_post(*old(state), old(memory)@, *final(state), final(memory)@, r),
        old(state).fuel > 0 && kind_at(old(memory)@, pattern) != Kind::NamedPattern
            ==> (r matches Err(e) && raised(final(memory)@, e, "VMError"@)),
        r matches Ok(u) ==> u@.len() >= 1 && u@.last().1 == term && (old(memory)@[pattern.id as int] matches Node::AstroNamedPattern(np)
            && id_at(final(memory)@, u@.last().0) == Some(np.name.name@)),
        old(state).fuel >= 2 ==> (old(memory)@[pattern.id as int] matches Node::AstroNamedPattern(np)
            ==> (var_list(old(memory)@, seq![np.pattern]) ==> (r matches Ok(u) && u@.len() == 2 && u@[0] == (np.pattern, term)))),
        old(state).fuel >= 20 && unifying && is_value_kind(kind_at(old(memory)@, term)) && kind_at(old(memory)@, term) != Kind::String
            ==> (old(memory)@[pattern.id as int] matches Node::AstroNamedPattern(np)
            ==> (deref_target(*old(state), old(memory)@, np.pattern) matches Some(v) ==> (quoted(old(memory)@, v) matches Some(q)
            ==> (cond_pattern(old(memory)@, q, term) matches Some((th, holds)) ==> named_cond_outcome(final(memory)@, th, term, np.name.name@, holds, r))))),
        old(state).fuel >= 3 ==> (old(memory)@[pattern.id as int] matches Node::AstroNamedPattern(np)
            ==> (typematch_name(old(memory)@, np.pattern) matches Some(p)
            ==> (typed_kind(kind_at(old(memory)@, term)) && p == pattern_type_name(kind_at(old(memory)@, term)) ==> (r matches Ok(u) && u@.len() == 1
                && final(memory)@.len() == old(memory)@.len() + 1 && final(memory)@.subrange(0, old(memory)@.len() as int) == old(memory)@
                && *final(state) == (State { fuel: (old(state).fuel - 3) as u64, ..*old(state) }))))),
    decreases old(state).fuel,
{
    match spend(state, memory) { Err(e) => return Err(e), Ok(()) => {} }
    let parts = match memory.get(pattern) { Node::AstroNamedPattern(x) => Some((x.name.name.clone(), x.pattern)), _ => None };
    let (name, p) = match parts {
        None => return Err(raise("VMError", "unify: expected named pattern.", state, memory)),
        Some(x) => x,
    };
    proof { assert(node_ok(memory@[pattern.id as int], memory@.len(), state.frames@.len())); }
    proof {
        if var_list(old(memory)@, seq![p]) {
            assert(id_at(old(memory)@, seq![p][0]) is Some);
        }
    }
    let mut unifiers = match unify(term, p, state, memory, unifying) {
        Ok(v) => v,
        Err(e) => return Err(e),
    };
    let id = store(state, memory, Node::AstroID(AstroID { name }));
    unifiers.push((id, term));
    Ok(unifiers)
}

/// Matches a quoted pattern: the quote is ignored, and so is a quote on the
/// term.
pub fn unify_quote<H: Host>(term: NodeRef, pattern: NodeRef, state: &mut State<H>, memory: &mut Memory, unifying: bool)
    -> (r: Result<Vec<(NodeRef, NodeRef)>, NodeRef>)
    requires
        unify_pre(*old(state), old(memory)@, term, pattern),
    ensures
        unify_post(*old(state), old(memory)@, *final(state), final(memory)@, r),
        old(state).fuel > 0 && kind_at(old(memory)@, pattern) != Kind::Quote
            ==> (r matches Err(e) && raised(final(memory)@, e, "VMError"@)),
        old(state).fuel >= 15 && unifying && is_value_kind(kind_at(old(memory)@, term)) && kind_at(old(memory)@, term) != Kind::String
            ==> (quoted(old(memory)@, pattern) matches Some(q) ==> cond_pattern_result(old(memory)@, final(memory)@, term, q, r)),
        old(state).fuel >= 2 ==> (old(memory)@[pattern.id as int] matches Node::AstroQuote(q)
            ==> leaf_outcome(old(memory)@, match old(memory)@[term.id as int] {
                    Node::AstroQuote(x) => x.expression,
                    _ => term,
                }, q.expression, unifying, r)),
    decreases old(state).fuel,
{
    match spend(state, memory) { Err(e) => return Err(e), Ok(()) => {} }
    let p = match memory.get(pattern) { Node::AstroQuote(x) => Some(x.expression), _ => None };
    let p = match p {
        None => return Err(raise("VMError", "unify: expected quote.", state, memory)),
        Some(x) => x,
    };
    proof { assert(node_ok(memory@[pattern.id as int], memory@.len(), state.frames@.len())); }
    let t = match memory.get(term) { Node::AstroQuote(x) => Some(x.expression), _ => None };
    proof { assert(node_ok(memory@[term.id as int], memory@.len(), state.frames@.len())); }
    match t {
        Some(t) => unify(t, p, state, memory, unifying),
        None => unify(term, p, state, memory, unifying),
    }
}

/// Ignores a quote on the term.
pub fn unify_term_quote<H: Host>(term: NodeRef, pattern: NodeRef, state: &mut State<H>, memory: &mut Memory, unifying: bool)
    -> (r: Result<Vec<(NodeRef, NodeRef)>, NodeRef>)
    requires
        unify_pre(*old(state), old(memory)@, term, pattern),
    ensures
        unify_post(*old(state), old(memory)@, *final(state), final(memory)@, r),
        old(state).fuel > 0 && kind_at(old(memory)@, term) != Kind::Quote
            ==> (r matches Err(e) && raised(final(memory)@, e, "VMError"@)),
        old(state).fuel >= 2 ==> (old(memory)@[term.id as int] matches Node::AstroQuote(x)
            ==> leaf_outcome(old(memory)@, x.expression, pattern, unifying, r)),
    decreases old(state).fuel,
{
    match spend(state, memory) { Err(e) => return Err(e), Ok(()) => {} }
    let t = match memory.get(term) { Node::AstroQuote(x) => Some(x.expression), _ => None };
    proof { assert(node_ok(memory@[term.id as int], memory@.len(), state.frames@.len())); }
    match t {
        None => Err(raise("VMError", "unify: expected quote.", state, memory)),
        Some(t) => unify(t, pattern, state, memory, unifying),
    }
}

/// Matches an object against a constructor pattern `A(p1, ..., pn)`: the
/// structure names have to agree, then the members match the arguments.
pub fn unify_object_to_apply<H: Host>(term: NodeRef, pattern: NodeRef, state: &mut State<H>, memory: &mut Memory, unifying: bool)
    -> (r: Result<Vec<(NodeRef, NodeRef)>, NodeRef>)
    requires
        unify_pre(*old(state), old(memory)@, term, pattern),
    ensures
        unify_post(*old(state), old(memory)@, *final(state), final(memory)@, r),
        old(state).fuel > 0 && (kind_at(old(memory)@, term) != Kind::Object || kind_at(old(memory)@, pattern) != Kind::Apply)
            ==> (r matches Err(e) && raised(final(memory)@, e, "VMError"@)),
        old(state).fuel > 0 ==> (old(memory)@[term.id as int] matches Node::AstroObject(t)
            ==> (old(memory)@[pattern.id as int] matches Node::AstroApply(p)
            ==> (id_at(old(memory)@, p.function) matches Some(pf)
            ==> (pf != t.struct_id.name@ ==> (r matches Err(e) && exception_parts(final(memory)@, e)
                == Some(("PatternMatchFailed"@, "expected type '"@ + pf + "' got type '"@ + t.struct_id.name@ + "'"@))))))),
        old(state).fuel > 0 ==> (old(memory)@[term.id as int] matches Node::AstroObject(t)
            ==> (old(memory)@[pattern.id as int] matches Node::AstroApply(p)
            ==> (id_at(old(memory)@, p.function) == Some(t.struct_id.name@)
            ==> (tuple_at(old(memory)@, p.argument) matches Some(c)
            ==> (c.len() <= t.object_memory@.len() && old(state).fuel > c.len() + 2
            ==> items_outcome(old(memory)@, t.object_memory@, c, c.len(), unifying, r)))))),
    decreases old(state).fuel,
{
    match spend(state, memory) { Err(e) => return Err(e), Ok(()) => {} }
    let t = match memory.get(term) { Node::AstroObject(x) => Some((x.struct_id.name.clone(), copy_refs(&x.object_memory))), _ => None };
    let (t_id, t_mem) = match t {
        None => return Err(raise("VMError", "unify: expected object.", state, memory)),
        Some(x) => x,
    };
    let p = match memory.get(pattern) { Node::AstroApply(x) => Some((x.function, x.argument)), _ => None };
    let (p_func, p_arg) = match p {
        None => return Err(raise("VMError", "unify: expected apply.", state, memory)),
        Some(x) => x,
    };
    proof {
        assert(node_ok(memory@[term.id as int], memory@.len(), state.frames@.len()));
        assert(node_ok(memory@[pattern.id as int], memory@.len(), state.frames@.len()));
    }
    let p_id = match memory.get(p_func) { Node::AstroID(x) => Some(x.name.clone()), _ => None };
    let p_id = match p_id {
        None => return Err(raise("VMError", "unify: expected string.", state, memory)),
        Some(x) => x,
    };
    if !str_eq(p_id.as_str(), t_id.as_str()) {
        let msg = text5("expected type '", p_id.as_str(), "' got type '", t_id.as_str(), "'");
        return Err(new_exception("PatternMatchFailed".to_owned(), msg, state, memory));
    }
    let content = match memory.get(p_arg) { Node::AstroTuple(x) => Some(copy_refs(&x.contents)), _ => None };
    proof { assert(node_ok(memory@[p_arg.id as int], memory@.len(), state.frames@.len())); }
    match content {
        Some(content) => {
            if t_mem.len() < content.len() {
                return Err(raise("VMError", "unify: object has fewer members than the pattern.", state, memory));
            }
            let n = content.len();
            unify_items(&t_mem, &content, n, state, memory, unifying)
        },
        None => {
            if t_mem.len() == 0 {
                return Err(raise("VMError", "unify: object has no members.", state, memory));
            }
            let mut items: Vec<NodeRef> = Vec::new();
            items.push(p_arg);
            let l = store(state, memory, Node::AstroList(AstroList { contents: items }));
            unify(t_mem[0], l, state, memory, unifying)
        },
    }
}

/// Matches an index expression as a pattern: it binds the term to that
/// location, after the index expression has been evaluated once.
pub fn unify_index<H: Host>(term: NodeRef, pattern: NodeRef, state: &mut State<H>, memory: &mut Memory, unifying: bool)
    -> (r: Result<Vec<(NodeRef, NodeRef)>, NodeRef>)
    requires
        unify_pre(*old(state), old(memory)@, term, pattern),
    ensures
        unify_post(*old(state), old(memory)@, *final(state), final(memory)@, r),
        r matches Ok(u) ==> u@ == seq![(pattern, term)],
        old(state).fuel >= 6 ==> (bound_list_item(*old(state), old(memory)@, pattern) matches Some(Ok(_))
            ==> (r matches Ok(u) && u@ == seq![(pattern, term)])),
    decreases old(state).fuel,
{
    match spend(state, memory) { Err(e) => return Err(e), Ok(()) => {} }
    match walk(pattern, state, memory) {
        Ok(_) => {},
        Err(e) => return Err(e),
    }
    let mut u: Vec<(NodeRef, NodeRef)> = Vec::new();
    u.push((pattern, term));
    assert(u@ =~= seq![(pattern, term)]);
    Ok(u)
}

/// Matches a list against a head-tail pattern `[h | t]`: `h` matches the
/// first item and `t` a new list of the other items. The matched list is
/// cut down to its head: the other items move to the new list.
#[verifier::rlimit(50)]
pub fn unify_headtail<H: Host>(term: NodeRef, pattern: NodeRef, state: &mut State<H>, memory: &mut Memory, unifying: bool)
    -> (r: Result<Vec<(NodeRef, NodeRef)>, NodeRef>)
    requires
        unify_pre(*old(state), old(memory)@, term, pattern),
    ensures
        unify_post(*old(state), old(memory)@, *final(state), final(memory)@, r),
        old(state).fuel > 0 && kind_at(old(memory)@, term) != Kind::List
            ==> (r matches Err(e) && raised(final(memory)@, e, "PatternMatchFailed"@)),
        old(state).fuel > 0 && (old(memory)@[term.id as int] matches Node::AstroList(l) && l.contents@.len() == 0)
            ==> (r matches Err(e) && raised(final(memory)@, e, "PatternMatchFailed"@)),
        old(state).fuel >= 3 ==> (list_at(old(memory)@, term) matches Some(t) ==> (headtail_at(old(memory)@, pattern) matches Some((h, tl))
            ==> (t.len() > 0 && var_list(old(memory)@, seq![h, tl])
            ==> (r matches Ok(u) && u@.len() == 2 && u@[0] == (h, t[0]) && u@[1].0 == tl
                && list_at(final(memory)@, u@[1].1) == Some(t.subrange(1, t.len() as int))
                && list_at(final(memory)@, term) == Some(seq![t[0]]))))),
        old(state).fuel >= 6 ==> (list_at(old(memory)@, term) matches Some(t) ==> (headtail_at(old(memory)@, pattern) matches Some((h, tl))
            ==> (headtail_at(old(memory)@, tl) matches Some((h2, tl2)) ==> (t.len() > 1 && var_list(old(memory)@, seq![h, h2, tl2])
            ==> (r matches Ok(u) && u@.len() == 3 && u@[0] == (h, t[0]) && u@[1] == (h2, t[1]) && u@[2].0 == tl2
                && list_at(final(memory)@, u@[2].1) == Some(t.subrange(2, t.len() as int))))))),
    decreases old(state).fuel,
{
    let ghost m0 = memory@;
    match spend(state, memory) { Err(e) => return Err(e), Ok(()) => {} }
    let t = match memory.get(term) { Node::AstroList(x) => Some(copy_refs(&x.contents)), _ => None };
    let t = match t {
        None => {
            let msg = text3("head-tail operator expected type 'list' got type '", peek(memory.get(term)), "'");
            return Err(new_exception("PatternMatchFailed".to_owned(), msg, state, memory));
        },
        Some(x) => x,
    };
    let p = match memory.get(pattern) {
        Node::AstroHeadTail(x) => Some((x.head, x.tail)),
        Node::AstroRawHeadTail(x) => Some((x.head, x.tail)),
        _ => None,
    };
    let (head, tail) = match p {
        None => return Err(raise("PatternMatchFailed", "Unify: expected head-tail.", state, memory)),
        Some(x) => x,
    };
    if t.len() == 0 {
        return Err(raise("PatternMatchFailed", "head-tail operator expected a non-empty list", state, memory));
    }
    proof {
        assert(node_ok(memory@[term.id as int], memory@.len(), state.frames@.len()));
        assert(node_ok(memory@[pattern.id as int], memory@.len(), state.frames@.len()));
    }
    let list_head = t[0];
    let mut rest = t;
    let tail_items = rest.split_off(1);
    let ghost m1 = memory@;
    proof {
        assert(refs_below(rest@, m1.len()));
        crate::memory::lemma_mem_ok_update(m1, state.frames@.len(), term.id as int, Node::AstroList(AstroList { contents: rest }));
    }
    memory.set(term, Node::AstroList(AstroList { contents: rest }));
    let list_tail = store(state, memory, Node::AstroList(AstroList { contents: tail_items }));
    let ghost m2 = memory@;
    let ghost tcopy = tail_items@;
    proof {
        if let Some((h2, tl2)) = headtail_at(m0, tail) {
            if old(state).fuel >= 6 && var_list(m0, seq![head, h2, tl2]) && tcopy.len() > 0 {
                assert(id_at(m0, seq![head, h2, tl2][0]) is Some && id_at(m0, seq![head, h2, tl2][1]) is Some
                    && id_at(m0, seq![head, h2, tl2][2]) is Some);
                assert(id_at(m0, seq![head, h2, tl2][0]) != Some("_"@) && id_at(m0, seq![head, h2, tl2][1]) != Some("_"@)
                    && id_at(m0, seq![head, h2, tl2][2]) != Some("_"@));
                assert(node_ok(m0[pattern.id as int], m0.len(), state.frames@.len()));
                assert(tail.id != term.id);
                assert(m2[tail.id as int] == m0[tail.id as int]);
                assert(node_ok(m0[tail.id as int], m0.len(), state.frames@.len()));
                assert(h2.id != term.id && tl2.id != term.id);
                assert(m2[h2.id as int] == m0[h2.id as int] && m2[tl2.id as int] == m0[tl2.id as int]);
                assert(headtail_at(m2, tail) == Some((h2, tl2)));
                assert(var_list(m2, seq![h2, tl2]));
                assert(list_at(m2, list_tail) == Some(tcopy));
            }
        }
    }
    let mut unifiers = match unify(list_head, head, state, memory, unifying) {
        Ok(v) => v,
        Err(e) => return Err(e),
    };
    let mut u2 = match unify(list_tail, tail, state, memory, unifying) {
        Ok(v) => v,
        Err(e) => return Err(e),
    };
    let ghost v1 = unifiers@;
    let ghost v2 = u2@;
    unifiers.append(&mut u2);
    proof {
        assert(unifiers@ == v1 + v2);
        if let Some((h2, tl2)) = headtail_at(m0, tail) {
            if old(state).fuel >= 6 && var_list(m0, seq![head, h2, tl2]) && t@.len() > 1 {
                assert(tail_items@ =~= t@.subrange(1, t@.len() as int));
                assert(t@.subrange(1, t@.len() as int).subrange(1, t@.len() - 1) =~= t@.subrange(2, t@.len() as int));
            }
        }
        if old(state).fuel >= 3 && var_list(m0, seq![head, tail]) {
            assert(var_list(m0, seq![head, tail]) ==> id_at(m0, seq![head, tail][0]) is Some && id_at(m0, seq![head, tail][1]) is Some);
            assert(memory@ == m2);
            assert(tail_items@ =~= t@.subrange(1, t@.len() as int));
            assert(rest@ =~= seq![t@[0]]);
        }
    }
    Ok(unifiers)
}

/// The head and the tail of a head-tail pattern.
pub open spec fn headtail_at(m: Seq<Node>, r: NodeRef) -> Option<(NodeRef, NodeRef)> {
    match m[r.id as int] {
        Node::AstroHeadTail(x) => Some((x.head, x.tail)),
        Node::AstroRawHeadTail(x) => Some((x.head, x.tail)),
        _ => None,
    }
}

/// The contents of a list node.
pub open spec fn list_at(m: Seq<Node>, r: NodeRef) -> Option<Seq<NodeRef>> {
    match m[r.id as int] {
        Node::AstroList(l) => Some(l.contents@),
        _ => None,
    }
}

/// Matches a list against a list pattern: both have to be lists of the
/// same length, and the items match pairwise.
pub fn unify_list<H: Host>(term: NodeRef, pattern: NodeRef, state: &mut State<H>, memory: &mut Memory, unifying: bool)
    -> (r: Result<Vec<(NodeRef, NodeRef)>, NodeRef>)
    requires
        unify_pre(*old(state), old(memory)@, term, pattern),
    ensures
        unify_post(*old(state), old(memory)@, *final(state), final(memory)@, r),
        old(state).fuel > 0 && (list_at(old(memory)@, term) is None || list_at(old(memory)@, pattern) is None)
            ==> (r matches Err(e) && raised(final(memory)@, e, "PatternMatchFailed"@)),
        old(state).fuel > 0 ==> (list_at(old(memory)@, term) matches Some(t) ==> (list_at(old(memory)@, pattern) matches Some(p)
            ==> (t.len() != p.len() ==> (r matches Err(e) && raised(final(memory)@, e, "PatternMatchFailed"@))))),
        r is Ok ==> (list_at(old(memory)@, term) matches Some(t) && list_at(old(memory)@, pattern) matches Some(p)
            && t.len() == p.len()),
        old(state).fuel > 0 ==> (list_at(old(memory)@, term) matches Some(t) ==> (list_at(old(memory)@, pattern) matches Some(p)
            ==> (t.len() == p.len() && old(state).fuel > t.len() + 2 && var_list(old(memory)@, p) && distinct_vars(old(memory)@, p)
            ==> (r matches Ok(u) && u@ == zip_unifiers(p, t, t.len()))))),
        old(state).fuel > 0 ==> (list_at(old(memory)@, term) matches Some(t) ==> (list_at(old(memory)@, pattern) matches Some(p)
            ==> (t.len() == p.len() && old(state).fuel > t.len() + 2
            ==> (items_match(old(memory)@, t, p, t.len(), unifying) matches Some(o) ==> (match o {
                Some(b) => if repeated_symbols(old(memory)@, b) {
                        r matches Err(e) && raised(final(memory)@, e, "NonLinearPattern"@)
                    } else {
                        r matches Ok(u) && u@ == b
                    },
                None => r is Err,
            }))))),
        r matches Ok(u) ==> !repeated_symbols(final(memory)@, u@),
    decreases old(state).fuel,
{
    match spend(state, memory) { Err(e) => return Err(e), Ok(()) => {} }
    let t = match memory.get(term) { Node::AstroList(x) => Some(copy_refs(&x.contents)), _ => None };
    let p = match memory.get(pattern) { Node::AstroList(x) => Some(copy_refs(&x.contents)), _ => None };
    let (t, p) = match (t, p) {
        (Some(t), Some(p)) => (t, p),
        _ => return Err(raise("PatternMatchFailed", "term and pattern do not agree on list/tuple constructor", state, memory)),
    };
    if t.len() != p.len() {
        return Err(raise("PatternMatchFailed", "term and pattern lists/tuples are not the same length", state, memory));
    }
    proof {
        assert(node_ok(memory@[term.id as int], memory@.len(), state.frames@.len()));
        assert(node_ok(memory@[pattern.id as int], memory@.len(), state.frames@.len()));
    }
    let n = t.len();
    assert(p@.take(n as int) =~= p@);
    proof {
        if var_list(old(memory)@, p@) && distinct_vars(old(memory)@, p@) {
            lemma_zip_linear(old(memory)@, p@, t@);
            lemma_items_match_vars(old(memory)@, t@, p@, n as nat, unifying);
        }
    }
    let r = unify_items(&t, &p, n, state, memory, unifying);
    match r {
        Ok(u) => {
            if check_repeated_symbols(&u, memory) {
                Err(raise("NonLinearPattern", "a variable occurs more than once in the pattern", state, memory))
            } else {
                Ok(u)
            }
        },
        Err(e) => Err(e),
    }
}

/// Matches against a dereferenced pattern `*e`: `e` is evaluated, and the
/// term has to match its value.
pub fn unify_deref<H: Host>(term: NodeRef, pattern: NodeRef, state: &mut State<H>, memory: &mut Memory, unifying: bool)
    -> (r: Result<Vec<(NodeRef, NodeRef)>, NodeRef>)
    requires
        unify_pre(*old(state), old(memory)@, term, pattern),
    ensures
        unify_post(*old(state), old(memory)@, *final(state), final(memory)@, r),
        old(state).fuel > 0 && kind_at(old(memory)@, pattern) != Kind::Deref
            ==> (r matches Err(e) && raised(final(memory)@, e, "VMError"@)),
        old(state).fuel >= 3 ==> (old(memory)@[pattern.id as int] matches Node::AstroDeref(d)
            ==> (id_at(old(memory)@, d.expression) matches Some(n) ==> (old(state).lookup_spec(n) matches Some(v)
            ==> leaf_outcome(old(memory)@, term, v, unifying, r)))),
        old(state).fuel >= 18 && unifying && is_value_kind(kind_at(old(memory)@, term)) && kind_at(old(memory)@, term) != Kind::String
            ==> (deref_target(*old(state), old(memory)@, pattern) matches Some(v) ==> (quoted(old(memory)@, v) matches Some(q)
            ==> cond_pattern_result(old(memory)@, final(memory)@, term, q, r))),
        old(state).fuel >= 3 ==> (old(memory)@[pattern.id as int] matches Node::AstroDeref(d)
            ==> (is_value_kind(kind_at(old(memory)@, d.expression)) ==> leaf_outcome(old(memory)@, term, d.expression, unifying, r))),
    decreases old(state).fuel,
{
    match spend(state, memory) { Err(e) => return Err(e), Ok(()) => {} }
    let exp = match memory.get(pattern) { Node::AstroDeref(x) => Some(x.expression), _ => None };
    let exp = match exp {
        None => return Err(raise("VMError", "unify: expected deref", state, memory)),
        Some(x) => x,
    };
    proof { assert(node_ok(memory@[pattern.id as int], memory@.len(), state.frames@.len())); }
    let p = match walk(exp, state, memory) {
        Ok(v) => v,
        Err(e) => return Err(e),
    };
    unify(term, p, state, memory, unifying)
}

/// Matches an application against an application pattern: the function
/// names have to agree, then the arguments match.
pub fn unify_apply<H: Host>(term: NodeRef, pattern: NodeRef, state: &mut State<H>, memory: &mut Memory, unifying: bool)
    -> (r: Result<Vec<(NodeRef, NodeRef)>, NodeRef>)
    requires
        unify_pre(*old(state), old(memory)@, term, pattern),
    ensures
        unify_post(*old(state), old(memory)@, *final(state), final(memory)@, r),
        old(state).fuel > 0 && kind_at(old(memory)@, term) != Kind::Apply
            ==> (r matches Err(e) && raised(final(memory)@, e, "PatternMatchFailed"@)),
        old(state).fuel > 0 ==> (old(memory)@[term.id as int] matches Node::AstroApply(t)
            ==> (old(memory)@[pattern.id as int] matches Node::AstroApply(p)
            ==> (id_at(old(memory)@, t.function) matches Some(tf) ==> (id_at(old(memory)@, p.function) matches Some(pf)
            ==> ((tf != pf ==> (r matches Err(e) && raised(final(memory)@, e, "PatternMatchFailed"@)))
                && (tf == pf && old(state).fuel >= 2 && var_list(old(memory)@, seq![p.argument])
                    ==> (r matches Ok(u) && u@ == seq![(p.argument, t.argument)]))))))),
    decreases old(state).fuel,
{
    match spend(state, memory) { Err(e) => return Err(e), Ok(()) => {} }
    if node_kind(memory.get(term)) != Kind::Apply {
        return Err(raise("PatternMatchFailed", "term and pattern disagree on 'apply' node", state, memory));
    }
    let p = match memory.get(pattern) { Node::AstroApply(x) => Some((x.function, x.argument)), _ => None };
    let (p_func, p_arg) = match p {
        None => return Err(raise("VMError", "unify: expected apply.", state, memory)),
        Some(x) => x,
    };
    let t = match memory.get(term) { Node::AstroApply(x) => Some((x.function, x.argument)), _ => None };
    let (t_func, t_arg) = match t {
        None => return Err(raise("VMError", "unify: expected apply.", state, memory)),
        Some(x) => x,
    };
    proof {
        assert(node_ok(memory@[term.id as int], memory@.len(), state.frames@.len()));
        assert(node_ok(memory@[pattern.id as int], memory@.len(), state.frames@.len()));
    }
    let p_id = match memory.get(p_func) { Node::AstroID(x) => Some(x.name.clone()), _ => None };
    let t_id = match memory.get(t_func) { Node::AstroID(x) => Some(x.name.clone()), _ => None };
    let (p_id, t_id) = match (p_id, t_id) {
        (Some(a), Some(b)) => (a, b),
        _ => return Err(raise("VMError", "unify: expected id.", state, memory)),
    };
    proof {
        if var_list(old(memory)@, seq![p_arg]) {
            assert(id_at(old(memory)@, seq![p_arg][0]) is Some);
        }
    }
    if !str_eq(p_id.as_str(), t_id.as_str()) {
        let msg = text5("term '", t_id.as_str(), "' does not match pattern '", p_id.as_str(), "'");
        Err(new_exception("PatternMatchFailed".to_owned(), msg, state, memory))
    } else {
        unify(t_arg, p_arg, state, memory, unifying)
    }
}

/// Matches a constraint pattern: the term is matched against the pattern
/// inside one more level of constraints, and the match binds nothing.
pub fn unify_constraint<H: Host>(term: NodeRef, pattern: NodeRef, state: &mut State<H>, memory: &mut Memory, unifying: bool)
    -> (r: Result<Vec<(NodeRef, NodeRef)>, NodeRef>)
    requires
        unify_pre(*old(state), old(memory)@, term, pattern),
    ensures
        unify_post(*old(state), old(memory)@, *final(state), final(memory)@, r),
        r matches Ok(u) ==> u@.len() == 0,
        old(state).fuel > 0 && kind_at(old(memory)@, pattern) == Kind::Constraint ==> r is Ok,
    decreases old(state).fuel,
{
    match spend(state, memory) { Err(e) => return Err(e), Ok(()) => {} }
    let p = match memory.get(pattern) { Node::AstroConstraint(x) => Some(x.expression), _ => None };
    let p = match p {
        None => return Err(raise("VMError", "unify: expected constraint.", state, memory)),
        Some(x) => x,
    };
    proof { assert(node_ok(memory@[pattern.id as int], memory@.len(), state.frames@.len())); }
    state.inc_constraint_lvl();
    let _ = unify(term, p, state, memory, unifying);
    state.dec_constraint_lvl();
    Ok(Vec::new())
}

/// The contents of a tuple node.
pub open spec fn tuple_at(m: Seq<Node>, r: NodeRef) -> Option<Seq<NodeRef>> {
    match m[r.id as int] {
        Node::AstroTuple(l) => Some(l.contents@),
        _ => None,
    }
}

/// Matches a tuple against a tuple pattern item by item, over the items of
/// the term.
pub fn unify_tuple<H: Host>(term: NodeRef, pattern: NodeRef, state: &mut State<H>, memory: &mut Memory, unifying: bool)
    -> (r: Result<Vec<(NodeRef, NodeRef)>, NodeRef>)
    requires
        unify_pre(*old(state), old(memory)@, term, pattern),
    ensures
        unify_post(*old(state), old(memory)@, *final(state), final(memory)@, r),
        old(state).fuel > 0 && (tuple_at(old(memory)@, term) is None || tuple_at(old(memory)@, pattern) is None)
            ==> (r matches Err(e) && raised(final(memory)@, e, "PatternMatchFailed"@)),
        r is Ok ==> (tuple_at(old(memory)@, term) matches Some(t) && tuple_at(old(memory)@, pattern) matches Some(p)
            && t.len() <= p.len()),
        old(state).fuel > 0 ==> (tuple_at(old(memory)@, term) matches Some(t) ==> (tuple_at(old(memory)@, pattern) matches Some(p)
            ==> (t.len() <= p.len() && old(state).fuel > t.len() + 2 && var_list(old(memory)@, p.take(t.len() as int))
            ==> (r matches Ok(u) && u@ == zip_unifiers(p, t, t.len()))))),
        old(state).fuel > 0 ==> (tuple_at(old(memory)@, term) matches Some(t) ==> (tuple_at(old(memory)@, pattern) matches Some(p)
            ==> ((t.len() > p.len() ==> (r matches Err(e) && raised(final(memory)@, e, "PatternMatchFailed"@)))
                && (t.len() <= p.len() && old(state).fuel > t.len() + 2
                    ==> items_outcome(old(memory)@, t, p, t.len(), unifying, r))))),
    decreases old(state).fuel,
{
    match spend(state, memory) { Err(e) => return Err(e), Ok(()) => {} }
    let t = match memory.get(term) { Node::AstroTuple(x) => Some(copy_refs(&x.contents)), _ => None };
    let p = match memory.get(pattern) { Node::AstroTuple(x) => Some(copy_refs(&x.contents)), _ => None };
    let (t, p) = match (t, p) {
        (Some(t), Some(p)) => (t, p),
        _ => {
            let msg = text5("nodes '", peek(memory.get(term)), "' and '", peek(memory.get(pattern)), "' are not the same");
            return Err(new_exception("PatternMatchFailed".to_owned(), msg, state, memory));
        },
    };
    if p.len() < t.len() {
        return Err(raise("PatternMatchFailed", "term and pattern lists/tuples are not the same length", state, memory));
    }
    proof {
        assert(node_ok(memory@[term.id as int], memory@.len(), state.frames@.len()));
        assert(node_ok(memory@[pattern.id as int], memory@.len(), state.frames@.len()));
    }
    let n = t.len();
    unify_items(&t, &p, n, state, memory, unifying)
}

/// Matches a pair against a pair pattern, first with first and second with
/// second.
pub fn unify_pairs<H: Host>(term: NodeRef, pattern: NodeRef, state: &mut State<H>, memory: &mut Memory, unifying: bool)
    -> (r: Result<Vec<(NodeRef, NodeRef)>, NodeRef>)
    requires
        unify_pre(*old(state), old(memory)@, term, pattern),
    ensures
        unify_post(*old(state), old(memory)@, *final(state), final(memory)@, r),
        old(state).fuel > 0 && (kind_at(old(memory)@, term) != Kind::Pair || kind_at(old(memory)@, pattern) != Kind::Pair)
            ==> (r matches Err(e) && raised(final(memory)@, e, "PatternMatchFailed"@)),
        old(state).fuel >= 3 ==> (old(memory)@[term.id as int] matches Node::AstroPair(t)
            ==> (old(memory)@[pattern.id as int] matches Node::AstroPair(p)
            ==> (var_list(old(memory)@, seq![p.first, p.second])
            ==> (r matches Ok(u) && u@ == seq![(p.first, t.first), (p.second, t.second)])))),
    decreases old(state).fuel,
{
    match spend(state, memory) { Err(e) => return Err(e), Ok(()) => {} }
    let t = match memory.get(term) { Node::AstroPair(x) => Some((x.first, x.second)), _ => None };
    let p = match memory.get(pattern) { Node::AstroPair(x) => Some((x.first, x.second)), _ => None };
    let ((t1, t2), (p1, p2)) = match (t, p) {
        (Some(t), Some(p)) => (t, p),
        _ => {
            let msg = text5("nodes '", peek(memory.get(term)), "' and '", peek(memory.get(pattern)), "' are not the same");
            return Err(new_exception("PatternMatchFailed".to_owned(), msg, state, memory));
        },
    };
    proof {
        assert(node_ok(memory@[term.id as int], memory@.len(), state.frames@.len()));
        assert(node_ok(memory@[pattern.id as int], memory@.len(), state.frames@.len()));
    }
    let mut unifiers = match unify(t1, p1, state, memory, unifying) {
        Ok(v) => v,
        Err(e) => return Err(e),
    };
    let mut u2 = match unify(t2, p2, state, memory, unifying) {
        Ok(v) => v,
        Err(e) => return Err(e),
    };
    let ghost u1 = unifiers@;
    let ghost v2 = u2@;
    unifiers.append(&mut u2);
    proof {
        if old(state).fuel >= 3 && var_list(old(memory)@, seq![p1, p2]) {
            assert(id_at(old(memory)@, seq![p1, p2][0]) is Some && id_at(old(memory)@, seq![p1, p2][1]) is Some);
            assert(unifiers@ =~= u1 + v2);
        }
    }
    Ok(unifiers)
}

/// Two of the unifiers bind the same variable name.
pub open spec fn repeated_symbols(m: Seq<Node>, u: Seq<(NodeRef, NodeRef)>) -> bool {
    exists|i: int, j: int| 0 <= i < j < u.len() && (#[trigger] id_at(m, u[i].0)) is Some
        && id_at(m, u[i].0) == #[trigger] id_at(m, u[j].0)
}

/// Whether a variable is bound twice by the unifiers, which makes the
/// pattern non-linear.
pub fn check_repeated_symbols(unifiers: &Vec<(NodeRef, NodeRef)>, memory: &Memory) -> (b: bool)
    requires
        unifiers_ok(unifiers@, memory@.len()),
    ensures
        b == repeated_symbols(memory@, unifiers@),
{
    let mut seen: Vec<String> = Vec::new();
    let ghost mut where_seen: Seq<int> = Seq::empty();
    let mut i: usize = 0;
    while i < unifiers.len()
        invariant
            i <= unifiers@.len(),
            unifiers_ok(unifiers@, memory@.len()),
            seen@.len() == where_seen.len(),
            forall|k: int| 0 <= k < where_seen.len() ==> 0 <= #[trigger] where_seen[k] < i
                && id_at(memory@, unifiers@[where_seen[k]].0) == Some(seen@[k]@),
            forall|j: int| 0 <= j < i && (#[trigger] id_at(memory@, unifiers@[j].0)) is Some
                ==> exists|k: int| 0 <= k < seen@.len() && Some(#[trigger] seen@[k]@) == id_at(memory@, unifiers@[j].0),
            !(exists|a: int, c: int| 0 <= a < c < i && (#[trigger] id_at(memory@, unifiers@[a].0)) is Some
                && id_at(memory@, unifiers@[a].0) == #[trigger] id_at(memory@, unifiers@[c].0)),
        decreases unifiers@.len() - i,
    {
        let lhs = unifiers[i].0;
        let name = match memory.get(lhs) { Node::AstroID(x) => Some(x.name.clone()), _ => None };
        match name {
            Some(n) => {
                if crate::state::names_contain(&seen, n.as_str()) {
                    let ghost k = choose|k: int| 0 <= k < seen@.len() && (#[trigger] seen@[k])@ == n@;
                    assert(id_at(memory@, unifiers@[where_seen[k]].0) == id_at(memory@, unifiers@[i as int].0));
                    assert(repeated_symbols(memory@, unifiers@));
                    return true;
                }
                proof {
                    where_seen = where_seen.push(i as int);
                }
                let ghost old_seen = seen@;
                seen.push(n);
                proof {
                    assert(id_at(memory@, unifiers@[i as int].0) == Some(n@));
                    assert forall|j: int| 0 <= j < i + 1 && (#[trigger] id_at(memory@, unifiers@[j].0)) is Some
                        implies exists|k: int| 0 <= k < seen@.len() && Some(#[trigger] seen@[k]@) == id_at(memory@, unifiers@[j].0) by {
                        if j == i {
                            assert(seen@[seen@.len() - 1]@ == n@);
                        } else {
                            let k = choose|k: int| 0 <= k < old_seen.len() && Some(#[trigger] old_seen[k]@) == id_at(memory@, unifiers@[j].0);
                            assert(seen@[k] == old_seen[k]);
                        }
                    }
                    assert forall|a: int, c: int| 0 <= a < c < i + 1 && (#[trigger] id_at(memory@, unifiers@[a].0)) is Some
                        implies id_at(memory@, unifiers@[a].0) != #[trigger] id_at(memory@, unifiers@[c].0) by {
                        if c == i {
                            if id_at(memory@, unifiers@[a].0) == id_at(memory@, unifiers@[c].0) {
                                let k = choose|k: int| 0 <= k < (seen@.len() - 1) && Some(#[trigger] seen@[k]@) == id_at(memory@, unifiers@[a].0);
                                assert(seen@[k]@ == n@);
                            }
                        }
                    }
                }
            },
            None => {},
        }
        i = i + 1;
    }
    false
}

} // verus!
