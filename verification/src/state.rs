//! The interpreter's state: the symbol table (a store of namespaces and the
//! chain of namespaces currently in scope) and the bookkeeping the
//! interpreter keeps while it runs.

use vstd::prelude::*;
use crate::ast::{NodeRef, Closure};

verus! {

/// One name bound in a namespace.
#[derive(Clone, Debug)]
pub struct Binding {
    pub name: String,
    pub value: NodeRef,
}

/// A namespace: its bindings, and the names declared global in the scope it
/// belongs to.
#[derive(Clone, Debug)]
pub struct Frame {
    pub bindings: Vec<Binding>,
    pub globals: Vec<String>,
}

/// No name is bound twice in the namespace.
pub open spec fn names_distinct(b: Seq<Binding>) -> bool {
    forall|i: int, j: int| 0 <= i < j < b.len() ==> (#[trigger] b[i]).name@ != (#[trigger] b[j]).name@
}

/// The namespace binds `k`.
pub open spec fn frame_has(b: Seq<Binding>, k: Seq<char>) -> bool {
    exists|i: int| 0 <= i < b.len() && (#[trigger] b[i]).name@ == k
}

/// The value that the namespace binds to `k`, if any.
pub open spec fn frame_get(b: Seq<Binding>, k: Seq<char>) -> Option<NodeRef> {
    if frame_has(b, k) {
        Some(b[choose|i: int| 0 <= i < b.len() && (#[trigger] b[i]).name@ == k].value)
    } else {
        None
    }
}

/// The function of the first entry named `name`.
pub open spec fn entries_named<F>(e: Seq<(String, F)>, name: Seq<char>) -> Option<F>
    decreases e.len(),
{
    if e.len() == 0 {
        None
    } else if e[0].0@ == name {
        Some(e[0].1)
    } else {
        entries_named(e.drop_first(), name)
    }
}

/// The compiled functions of a program, by name; a later definition of a
/// name replaces the earlier one.
pub struct Functions<F> {
    pub entries: Vec<(String, F)>,
}

impl<F> Functions<F> {
    /// The function defined under `name`, if any.
    pub open spec fn named(self, name: Seq<char>) -> Option<F> {
        entries_named(self.entries@, name)
    }

    /// A table without functions.
    pub fn new() -> (t: Self)
        ensures
            forall|k: Seq<char>| #[trigger] t.named(k) is None,
    {
        Functions { entries: Vec::new() }
    }

    /// Defines `name` as `f`.
    pub fn insert(&mut self, name: String, f: F)
        ensures
            final(self).named(name@) == Some(f),
            forall|k: Seq<char>| k != name@ ==> #[trigger] final(self).named(k) == old(self).named(k),
    {
        self.entries.insert(0, (name, f));
        assert(self.entries@.drop_first() =~= old(self).entries@);
    }
}

impl<F: Copy> Functions<F> {

    /// The function defined under `name`, if any.
    pub fn lookup(&self, name: &str) -> (r: Option<F>)
        ensures
            r == self.named(name@),
    {
        let mut i: usize = 0;
        assert(self.entries@.subrange(0, self.entries@.len() as int) =~= self.entries@);
        while i < self.entries.len()
            invariant
                i <= self.entries@.len(),
                entries_named(self.entries@, name@) == entries_named(self.entries@.subrange(i as int, self.entries@.len() as int), name@),
            decreases self.entries@.len() - i,
        {
            let hit = str_eq(self.entries[i].0.as_str(), name);
            assert(self.entries@.subrange(i as int, self.entries@.len() as int).drop_first()
                =~= self.entries@.subrange(i + 1, self.entries@.len() as int));
            if hit {
                return Some(self.entries[i].1);
            }
            i = i + 1;
        }
        None
    }
}

/// Looks `k` up along a chain of namespaces, innermost (last) first.
pub open spec fn lookup_chain(frames: Seq<Frame>, scopes: Seq<usize>, k: Seq<char>) -> Option<NodeRef>
    decreases scopes.len(),
{
    if scopes.len() == 0 {
        None
    } else {
        match frame_get(frames[scopes.last() as int].bindings@, k) {
            Some(v) => Some(v),
            None => lookup_chain(frames, scopes.drop_last(), k),
        }
    }
}

/// The state of a running program. `H` is the type of its compiled
/// functions (see [`crate::host::Host`]).
pub struct State<H> {
    /// Every namespace created so far; closures keep them alive.
    pub frames: Vec<Frame>,
    /// The namespaces in scope, outermost (global) first.
    pub scopes: Vec<usize>,
    /// The current scope level.
    pub curr_scope: usize,
    /// The module and line being executed.
    pub lineinfo: (String, usize),
    /// How deeply nested in constraint patterns matching currently is.
    pub constraint_lvl: usize,
    /// Whether quoted expressions are evaluated rather than kept.
    pub ignore_quote: bool,
    /// Whether the warning on conditional patterns has been given.
    pub cond_warning: bool,
    /// Warnings for the user, oldest first.
    pub warnings: Vec<String>,
    /// How many more evaluation steps may be taken.
    pub fuel: u64,
    /// The compiled functions of the program.
    pub dispatch_table: Functions<H>,
}

impl<H> State<H> {
    /// The symbol table is well formed: some scope is open, every scope
    /// names an existing namespace, and no namespace binds a name twice.
    pub open spec fn wf(self) -> bool {
        &&& self.scopes@.len() >= 1
        &&& frames_below_len(self.scopes@, self.frames@.len())
        &&& forall|f: int| 0 <= f < self.frames@.len() ==> names_distinct(#[trigger] self.frames@[f].bindings@)
    }

    /// Every value bound in any namespace is a stored node.
    pub open spec fn values_below(self, nlen: nat) -> bool {
        forall|f: int, i: int|
            0 <= f < self.frames@.len() && 0 <= i < self.frames@[f].bindings@.len()
                ==> (#[trigger] self.frames@[f].bindings@[i]).value.id < nlen
    }

    /// What `k` is bound to in the current scope.
    pub open spec fn lookup_spec(self, k: Seq<char>) -> Option<NodeRef> {
        lookup_chain(self.frames@, self.scopes@, k)
    }

    /// The namespace of the innermost scope.
    pub open spec fn innermost(self) -> usize {
        self.scopes@.last()
    }

    /// The namespace that a binding of `k` goes to: the global one where
    /// the innermost scope declares `k` global, else the innermost one.
    pub open spec fn target_frame(self, k: Seq<char>) -> usize {
        if names_has(self.frames@[self.innermost() as int].globals@, k) {
            self.scopes@[0]
        } else {
            self.innermost()
        }
    }
}

/// One of the names is `k`.
pub open spec fn names_has(names: Seq<String>, k: Seq<char>) -> bool {
    exists|j: int| 0 <= j < names.len() && (#[trigger] names[j])@ == k
}

/// Every namespace index of the sequence lies below `n`.
pub open spec fn frames_below_len(s: Seq<usize>, n: nat) -> bool {
    forall|i: int| 0 <= i < s.len() ==> (#[trigger] s[i]) < n
}

/// Compares two strings character by character.
pub fn str_eq(a: &str, b: &str) -> (r: bool)
    ensures
        r == (a@ == b@),
{
    let n = a.unicode_len();
    if n != b.unicode_len() {
        return false;
    }
    let mut i: usize = 0;
    while i < n
        invariant
            n == a@.len(),
            n == b@.len(),
            i <= n,
            forall|j: int| 0 <= j < i ==> a@[j] == b@[j],
        decreases n - i,
    {
        if a.get_char(i) != b.get_char(i) {
            return false;
        }
        i = i + 1;
    }
    assert(a@ =~= b@);
    true
}

/// Finds where a namespace binds `name`.
pub fn frame_find(b: &Vec<Binding>, name: &str) -> (r: Option<usize>)
    requires
        names_distinct(b@),
    ensures
        r is None <==> !frame_has(b@, name@),
        r matches Some(i) ==> i < b@.len() && b@[i as int].name@ == name@
            && frame_get(b@, name@) == Some(b@[i as int].value),
{
    let mut i: usize = 0;
    while i < b.len()
        invariant
            i <= b@.len(),
            names_distinct(b@),
            forall|j: int| 0 <= j < i ==> (#[trigger] b@[j]).name@ != name@,
        decreases b@.len() - i,
    {
        if str_eq(b[i].name.as_str(), name) {
            assert(frame_has(b@, name@));
            let ghost c = choose|j: int| 0 <= j < b@.len() && (#[trigger] b@[j]).name@ == name@;
            assert(c == i as int) by {
                if c < i {
                } else if c > i {
                    assert(b@[i as int].name@ != b@[c].name@);
                }
            }
            return Some(i);
        }
        i = i + 1;
    }
    None
}

/// Binds `name` to `value` in a namespace, replacing an earlier binding.
pub fn frame_enter(b: &mut Vec<Binding>, name: &str, value: NodeRef)
    requires
        names_distinct(old(b)@),
    ensures
        names_distinct(final(b)@),
        forall|k: Seq<char>| #[trigger] frame_get(final(b)@, k)
            == if k == name@ { Some(value) } else { frame_get(old(b)@, k) },
        forall|i: int| 0 <= i < final(b)@.len() ==> (#[trigger] final(b)@[i]).value == value
            || exists|j: int| 0 <= j < old(b)@.len() && old(b)@[j] == final(b)@[i],
{
    let ghost old_b = b@;
    match frame_find(b, name) {
        Some(i) => {
            let entry = Binding { name: b[i].name.clone(), value };
            b.set(i, entry);
            assert forall|k: Seq<char>| #[trigger] frame_get(b@, k)
                == if k == name@ { Some(value) } else { frame_get(old_b, k) } by {
                if k == name@ {
                    assert(b@[i as int].name@ == k);
                    let c = choose|j: int| 0 <= j < b@.len() && (#[trigger] b@[j]).name@ == k;
                    if c != i {
                        if c < i {
                            assert(old_b[c].name@ != old_b[i as int].name@);
                        } else {
                            assert(old_b[i as int].name@ != old_b[c].name@);
                        }
                    }
                } else {
                    if frame_has(old_b, k) {
                        let c = choose|j: int| 0 <= j < old_b.len() && (#[trigger] old_b[j]).name@ == k;
                        assert(b@[c].name@ == k);
                        let c2 = choose|j: int| 0 <= j < b@.len() && (#[trigger] b@[j]).name@ == k;
                        assert(old_b[c2].name@ == k);
                        if c != c2 {
                            if c < c2 {
                                assert(old_b[c].name@ != old_b[c2].name@);
                            } else {
                                assert(old_b[c2].name@ != old_b[c].name@);
                            }
                        }
                    } else {
                        if frame_has(b@, k) {
                            let c2 = choose|j: int| 0 <= j < b@.len() && (#[trigger] b@[j]).name@ == k;
                            assert(old_b[c2].name@ == k);
                        }
                    }
                }
            }
            assert forall|x: int, y: int| 0 <= x < y < b@.len() implies (#[trigger] b@[x]).name@ != (#[trigger] b@[y]).name@ by {
                assert(old_b[x].name@ == b@[x].name@);
                assert(old_b[y].name@ == b@[y].name@);
            }
            assert forall|x: int| 0 <= x < b@.len() implies (#[trigger] b@[x]).value == value
                || exists|j: int| 0 <= j < old_b.len() && old_b[j] == b@[x] by {
                if x != i {
                    assert(old_b[x] == b@[x]);
                }
            }
        },
        None => {
            let entry = Binding { name: name.to_owned(), value };
            b.push(entry);
            assert forall|k: Seq<char>| #[trigger] frame_get(b@, k)
                == if k == name@ { Some(value) } else { frame_get(old_b, k) } by {
                let n = old_b.len() as int;
                if k == name@ {
                    assert(b@[n].name@ == k);
                    let c = choose|j: int| 0 <= j < b@.len() && (#[trigger] b@[j]).name@ == k;
                    if c < n {
                        assert(old_b[c].name@ == k);
                    }
                } else {
                    if frame_has(old_b, k) {
                        let c = choose|j: int| 0 <= j < old_b.len() && (#[trigger] old_b[j]).name@ == k;
                        assert(b@[c].name@ == k);
                        let c2 = choose|j: int| 0 <= j < b@.len() && (#[trigger] b@[j]).name@ == k;
                        assert(c2 < n);
                        assert(old_b[c2].name@ == k);
                        if c != c2 {
                            if c < c2 {
                                assert(old_b[c].name@ != old_b[c2].name@);
                            } else {
                                assert(old_b[c2].name@ != old_b[c].name@);
                            }
                        }
                    } else {
                        if frame_has(b@, k) {
                            let c2 = choose|j: int| 0 <= j < b@.len() && (#[trigger] b@[j]).name@ == k;
                            assert(c2 < n);
                            assert(old_b[c2].name@ == k);
                        }
                    }
                }
            }
            assert forall|x: int, y: int| 0 <= x < y < b@.len() implies (#[trigger] b@[x]).name@ != (#[trigger] b@[y]).name@ by {
                if y == old_b.len() {
                    assert(old_b[x].name@ == b@[x].name@);
                    assert(!frame_has(old_b, name@));
                    if b@[x].name@ == name@ {
                        assert(old_b[x].name@ == name@);
                    }
                } else {
                    assert(old_b[x] == b@[x]);
                    assert(old_b[y] == b@[y]);
                }
            }
            assert forall|x: int| 0 <= x < b@.len() implies (#[trigger] b@[x]).value == value
                || exists|j: int| 0 <= j < old_b.len() && old_b[j] == b@[x] by {
                if x < old_b.len() {
                    assert(old_b[x] == b@[x]);
                }
            }
        },
    }
}

/// Copies a sequence of namespace indices.
pub fn copy_indices(v: &Vec<usize>) -> (r: Vec<usize>)
    ensures
        r@ == v@,
{
    let mut r: Vec<usize> = Vec::new();
    let mut i: usize = 0;
    while i < v.len()
        invariant
            i <= v@.len(),
            r@ == v@.take(i as int),
        decreases v@.len() - i,
    {
        r.push(v[i]);
        i = i + 1;
        assert(r@ =~= v@.take(i as int));
    }
    assert(v@.take(v@.len() as int) =~= v@);
    r
}

/// Whether `name` is among the names of the list.
pub fn names_contain(names: &Vec<String>, name: &str) -> (r: bool)
    ensures
        r == names_has(names@, name@),
{
    let mut i: usize = 0;
    while i < names.len()
        invariant
            i <= names@.len(),
            forall|j: int| 0 <= j < i ==> (#[trigger] names@[j])@ != name@,
        decreases names@.len() - i,
    {
        if str_eq(names[i].as_str(), name) {
            return true;
        }
        i = i + 1;
    }
    false
}

/// Two namespace stores agree on `k` in every namespace of the chain.
pub open spec fn agree_on(f1: Seq<Frame>, f2: Seq<Frame>, scopes: Seq<usize>, k: Seq<char>) -> bool {
    forall|i: int| 0 <= i < scopes.len() ==>
        frame_get(f1[#[trigger] scopes[i] as int].bindings@, k) == frame_get(f2[scopes[i] as int].bindings@, k)
}

/// Lookups only depend on what the namespaces of the chain bind.
pub proof fn lemma_lookup_agree(f1: Seq<Frame>, f2: Seq<Frame>, scopes: Seq<usize>, k: Seq<char>)
    requires
        agree_on(f1, f2, scopes, k),
    ensures
        lookup_chain(f1, scopes, k) == lookup_chain(f2, scopes, k),
    decreases scopes.len(),
{
    if scopes.len() > 0 {
        assert(scopes.last() == scopes[scopes.len() - 1]);
        assert(agree_on(f1, f2, scopes.drop_last(), k)) by {
            assert forall|i: int| 0 <= i < scopes.drop_last().len() implies
                frame_get(f1[#[trigger] scopes.drop_last()[i] as int].bindings@, k) == frame_get(f2[scopes.drop_last()[i] as int].bindings@, k) by {
                assert(scopes.drop_last()[i] == scopes[i]);
            }
        }
        lemma_lookup_agree(f1, f2, scopes.drop_last(), k);
    }
}

impl<H> State<H> {
    /// A fresh state: one global namespace, at line 1 of `<input>`, with
    /// the given compiled functions.
    pub fn new() -> (s: State<H>)
        ensures
            s.wf(),
            s.values_below(0),
            s.frames@.len() == 1,
            s.scopes@ == seq![0usize],
            s.frames@[0].bindings@.len() == 0,
            s.frames@[0].globals@.len() == 0,
            s.curr_scope == 0,
            s.lineinfo.0@ == "<input>"@,
            s.lineinfo.1 == 1,
            s.constraint_lvl == 0,
            !s.ignore_quote,
            !s.cond_warning,
            s.warnings@.len() == 0,
            s.fuel == u64::MAX,
            forall|k: Seq<char>| #[trigger] s.dispatch_table.named(k) is None,
    {
        let mut frames: Vec<Frame> = Vec::new();
        frames.push(Frame { bindings: Vec::new(), globals: Vec::new() });
        let mut scopes: Vec<usize> = Vec::new();
        scopes.push(0);
        let s = State {
            frames,
            scopes,
            curr_scope: 0,
            lineinfo: ("<input>".to_owned(), 1),
            constraint_lvl: 0,
            ignore_quote: false,
            cond_warning: false,
            warnings: Vec::new(),
            fuel: u64::MAX,
            dispatch_table: Functions::new(),
        };
        assert(s.scopes@ =~= seq![0usize]);
        s
    }

    /// What `name` is bound to in the current scope, innermost scope first.
    pub fn lookup_sym(&self, name: &str) -> (r: Option<NodeRef>)
        requires
            self.wf(),
        ensures
            r == self.lookup_spec(name@),
            forall|n: nat| #[trigger] self.values_below(n) ==> (r matches Some(v) ==> v.id < n),
    {
        let ghost scopes = self.scopes@;
        let mut idx: usize = self.scopes.len();
        assert(scopes.take(idx as int) =~= scopes);
        while idx > 0
            invariant
                idx <= scopes.len(),
                scopes == self.scopes@,
                self.wf(),
                lookup_chain(self.frames@, scopes, name@) == lookup_chain(self.frames@, scopes.take(idx as int), name@),
            decreases idx,
        {
            let f = self.scopes[idx - 1];
            let ghost pre = scopes.take(idx as int);
            assert(pre.last() == f);
            assert(pre.drop_last() =~= scopes.take(idx - 1));
            match frame_find(&self.frames[f].bindings, name) {
                Some(i) => {
                    return Some(self.frames[f].bindings[i].value);
                },
                None => {},
            }
            idx = idx - 1;
        }
        None
    }

    /// The number of the namespace that binds `name` in the current scope,
    /// innermost first, if any.
    pub fn find_sym(&self, name: &str) -> (r: Option<usize>)
        requires
            self.wf(),
        ensures
            r is Some <==> self.lookup_spec(name@) is Some,
            r matches Some(f) ==> f < self.frames@.len()
                && self.lookup_spec(name@) == frame_get(self.frames@[f as int].bindings@, name@),
    {
        let ghost scopes = self.scopes@;
        let mut idx: usize = self.scopes.len();
        assert(scopes.take(idx as int) =~= scopes);
        while idx > 0
            invariant
                idx <= scopes.len(),
                scopes == self.scopes@,
                self.wf(),
                lookup_chain(self.frames@, scopes, name@) == lookup_chain(self.frames@, scopes.take(idx as int), name@),
            decreases idx,
        {
            let f = self.scopes[idx - 1];
            let ghost pre = scopes.take(idx as int);
            assert(pre.last() == f);
            assert(pre.drop_last() =~= scopes.take(idx - 1));
            match frame_find(&self.frames[f].bindings, name) {
                Some(_) => {
                    return Some(f);
                },
                None => {},
            }
            idx = idx - 1;
        }
        None
    }

    /// Binds `name` to `value`: in the global namespace where the innermost
    /// scope declares `name` global, else in the innermost namespace.
    pub fn enter_sym(&mut self, name: &str, value: NodeRef)
        requires
            old(self).wf(),
        ensures
            final(self).wf(),
            final(self).scopes@ == old(self).scopes@,
            final(self).frames@.len() == old(self).frames@.len(),
            forall|f: int| 0 <= f < final(self).frames@.len() && f != old(self).target_frame(name@)
                ==> #[trigger] final(self).frames@[f] == old(self).frames@[f],
            final(self).frames@[old(self).target_frame(name@) as int].globals@
                == old(self).frames@[old(self).target_frame(name@) as int].globals@,
            forall|k: Seq<char>| #[trigger] frame_get(final(self).frames@[old(self).target_frame(name@) as int].bindings@, k)
                == if k == name@ { Some(value) } else { frame_get(old(self).frames@[old(self).target_frame(name@) as int].bindings@, k) },
            forall|nlen: nat| old(self).values_below(nlen) && value.id < nlen ==> #[trigger] final(self).values_below(nlen),
            forall|k: Seq<char>| k != name@ ==> #[trigger] final(self).lookup_spec(k) == old(self).lookup_spec(k),
            !names_has(old(self).frames@[old(self).innermost() as int].globals@, name@)
                ==> final(self).lookup_spec(name@) == Some(value),
            final(self).curr_scope == old(self).curr_scope,
            final(self).lineinfo == old(self).lineinfo,
            final(self).constraint_lvl == old(self).constraint_lvl,
            final(self).ignore_quote == old(self).ignore_quote,
            final(self).cond_warning == old(self).cond_warning,
            final(self).warnings == old(self).warnings,
            final(self).fuel == old(self).fuel,
            final(self).dispatch_table == old(self).dispatch_table,
    {
        let inner = self.scopes[self.scopes.len() - 1];
        let is_global = names_contain(&self.frames[inner].globals, name);
        let target = if is_global {
            self.scopes[0]
        } else {
            inner
        };
        let ghost old_frames = self.frames@;
        frame_enter(&mut self.frames[target].bindings, name, value);
        let ghost scopes = self.scopes@;
        assert forall|k: Seq<char>| k != name@ implies #[trigger] self.lookup_spec(k) == old(self).lookup_spec(k) by {
            assert forall|i: int| 0 <= i < scopes.len() implies
                frame_get(old_frames[#[trigger] scopes[i] as int].bindings@, k) == frame_get(self.frames@[scopes[i] as int].bindings@, k) by {
                if scopes[i] != target {
                    assert(old_frames[scopes[i] as int] == self.frames@[scopes[i] as int]);
                }
            }
            lemma_lookup_agree(old_frames, self.frames@, scopes, k);
        }
        proof {
            if !is_global {
                assert(scopes.last() == inner);
                assert(frame_get(self.frames@[inner as int].bindings@, name@) == Some(value));
            }
        }
        assert forall|nlen: nat| old(self).values_below(nlen) && value.id < nlen implies #[trigger] self.values_below(nlen) by {
            assert forall|f: int, i: int|
                0 <= f < self.frames@.len() && 0 <= i < self.frames@[f].bindings@.len()
                implies (#[trigger] self.frames@[f].bindings@[i]).value.id < nlen by {
                if f == target as int {
                    let b = self.frames@[f].bindings@[i];
                    if b.value != value {
                        let j = choose|j: int| 0 <= j < old_frames[f].bindings@.len() && old_frames[f].bindings@[j] == b;
                        assert(old_frames[f].bindings@[j].value.id < nlen);
                    }
                }
            }
        }
    }

    /// Opens a new, empty innermost scope.
    pub fn push_scope(&mut self)
        requires
            old(self).wf(),
        ensures
            final(self).wf(),
            final(self).frames@ == old(self).frames@.push(Frame { bindings: final(self).frames@.last().bindings, globals: final(self).frames@.last().globals }),
            final(self).frames@.last().bindings@.len() == 0,
            final(self).frames@.last().globals@.len() == 0,
            final(self).scopes@ == old(self).scopes@.push(old(self).frames@.len() as usize),
            forall|k: Seq<char>| #[trigger] final(self).lookup_spec(k) == old(self).lookup_spec(k),
            final(self).curr_scope == if old(self).curr_scope < usize::MAX { (old(self).curr_scope + 1) as usize } else { old(self).curr_scope },
            forall|nlen: nat| old(self).values_below(nlen) ==> #[trigger] final(self).values_below(nlen),
            final(self).lineinfo == old(self).lineinfo,
            final(self).constraint_lvl == old(self).constraint_lvl,
            final(self).ignore_quote == old(self).ignore_quote,
            final(self).cond_warning == old(self).cond_warning,
            final(self).warnings == old(self).warnings,
            final(self).fuel == old(self).fuel,
            final(self).dispatch_table == old(self).dispatch_table,
    {
        let id = self.frames.len();
        self.frames.push(Frame { bindings: Vec::new(), globals: Vec::new() });
        self.scopes.push(id);
        if self.curr_scope < usize::MAX {
            self.curr_scope = self.curr_scope + 1;
        }
        assert forall|nlen: nat| old(self).values_below(nlen) implies #[trigger] self.values_below(nlen) by {
            assert forall|f: int, i: int|
                0 <= f < self.frames@.len() && 0 <= i < self.frames@[f].bindings@.len()
                implies (#[trigger] self.frames@[f].bindings@[i]).value.id < nlen by {
                assert(f < old(self).frames@.len());
                assert(self.frames@[f] == old(self).frames@[f]);
            }
        }
        proof {
            lemma_lookup_open_scope(old(self).frames@, self.frames@, old(self).scopes@, id);
        }
    }

    /// Closes the innermost scope; the global scope is never closed.
    pub fn pop_scope(&mut self)
        requires
            old(self).wf(),
        ensures
            final(self).wf(),
            final(self).frames@ == old(self).frames@,
            final(self).scopes@ == if old(self).scopes@.len() > 1 { old(self).scopes@.drop_last() } else { old(self).scopes@ },
            final(self).curr_scope == if old(self).scopes@.len() > 1 && old(self).curr_scope > 0 { (old(self).curr_scope - 1) as usize } else { old(self).curr_scope },
            forall|nlen: nat| old(self).values_below(nlen) ==> #[trigger] final(self).values_below(nlen),
            final(self).lineinfo == old(self).lineinfo,
            final(self).constraint_lvl == old(self).constraint_lvl,
            final(self).ignore_quote == old(self).ignore_quote,
            final(self).cond_warning == old(self).cond_warning,
            final(self).warnings == old(self).warnings,
            final(self).fuel == old(self).fuel,
            final(self).dispatch_table == old(self).dispatch_table,
    {
        if self.scopes.len() > 1 {
            self.scopes.pop();
            if self.curr_scope > 0 {
                self.curr_scope = self.curr_scope - 1;
            }
        }
    }

    /// Declares `name` global in the innermost scope.
    pub fn enter_global(&mut self, name: &str)
        requires
            old(self).wf(),
        ensures
            final(self).wf(),
            final(self).scopes@ == old(self).scopes@,
            final(self).frames@.len() == old(self).frames@.len(),
            forall|f: int| 0 <= f < final(self).frames@.len() && f != old(self).innermost()
                ==> #[trigger] final(self).frames@[f] == old(self).frames@[f],
            final(self).frames@[old(self).innermost() as int].bindings == old(self).frames@[old(self).innermost() as int].bindings,
            final(self).frames@[old(self).innermost() as int].globals@.len()
                == old(self).frames@[old(self).innermost() as int].globals@.len() + 1,
            forall|k: Seq<char>| #[trigger] names_has(final(self).frames@[old(self).innermost() as int].globals@, k)
                <==> names_has(old(self).frames@[old(self).innermost() as int].globals@, k) || k == name@,
            forall|nlen: nat| old(self).values_below(nlen) ==> #[trigger] final(self).values_below(nlen),
            final(self).curr_scope == old(self).curr_scope,
            final(self).lineinfo == old(self).lineinfo,
            final(self).fuel == old(self).fuel,
            final(self).dispatch_table == old(self).dispatch_table,
    {
        let inner = self.scopes[self.scopes.len() - 1];
        let ghost old_g = self.frames@[inner as int].globals@;
        self.frames[inner].globals.push(name.to_owned());
        assert forall|k: Seq<char>| #[trigger] names_has(self.frames@[inner as int].globals@, k)
            <==> names_has(old_g, k) || k == name@ by {
            let g = self.frames@[inner as int].globals@;
            if names_has(old_g, k) {
                let j = choose|j: int| 0 <= j < old_g.len() && (#[trigger] old_g[j])@ == k;
                assert(g[j] == old_g[j]);
            }
            if k == name@ {
                assert(g[old_g.len() as int]@ == k);
            }
            if names_has(g, k) {
                let j = choose|j: int| 0 <= j < g.len() && (#[trigger] g[j])@ == k;
                if j < old_g.len() {
                    assert(g[j] == old_g[j]);
                }
            }
        }
        assert forall|nlen: nat| old(self).values_below(nlen) implies #[trigger] self.values_below(nlen) by {
            assert forall|f: int, i: int|
                0 <= f < self.frames@.len() && 0 <= i < self.frames@[f].bindings@.len()
                implies (#[trigger] self.frames@[f].bindings@[i]).value.id < nlen by {
                assert(self.frames@[f].bindings == old(self).frames@[f].bindings);
            }
        }
    }

    /// The scope chain and level in force, for saving and restoring.
    pub fn get_config(&self) -> (r: (Vec<usize>, usize))
        ensures
            r.0@ == self.scopes@,
            r.1 == self.curr_scope,
    {
        (copy_indices(&self.scopes), self.curr_scope)
    }

    /// Installs a scope chain and level.
    pub fn set_config(&mut self, scopes: Vec<usize>, level: usize)
        requires
            old(self).wf(),
            scopes@.len() >= 1,
            frames_below_len(scopes@, old(self).frames@.len()),
        ensures
            final(self).wf(),
            final(self).scopes@ == scopes@,
            final(self).curr_scope == level,
            final(self).frames@ == old(self).frames@,
            forall|nlen: nat| old(self).values_below(nlen) ==> #[trigger] final(self).values_below(nlen),
            final(self).lineinfo == old(self).lineinfo,
            final(self).constraint_lvl == old(self).constraint_lvl,
            final(self).ignore_quote == old(self).ignore_quote,
            final(self).cond_warning == old(self).cond_warning,
            final(self).warnings == old(self).warnings,
            final(self).fuel == old(self).fuel,
            final(self).dispatch_table == old(self).dispatch_table,
    {
        self.scopes = scopes;
        self.curr_scope = level;
    }

    /// The environment a function value defined here captures.
    pub fn get_closure(&self) -> (c: Closure)
        ensures
            c.scopes@ == self.scopes@,
            c.level == self.curr_scope,
    {
        Closure { scopes: copy_indices(&self.scopes), level: self.curr_scope }
    }

    /// Enters one more level of constraint patterns.
    pub fn inc_constraint_lvl(&mut self)
        ensures
            final(self).constraint_lvl == if old(self).constraint_lvl < usize::MAX { (old(self).constraint_lvl + 1) as usize } else { old(self).constraint_lvl },
            final(self).frames == old(self).frames,
            final(self).scopes == old(self).scopes,
            final(self).curr_scope == old(self).curr_scope,
            final(self).lineinfo == old(self).lineinfo,
            final(self).ignore_quote == old(self).ignore_quote,
            final(self).cond_warning == old(self).cond_warning,
            final(self).warnings == old(self).warnings,
            final(self).fuel == old(self).fuel,
            final(self).dispatch_table == old(self).dispatch_table,
    {
        if self.constraint_lvl < usize::MAX {
            self.constraint_lvl = self.constraint_lvl + 1;
        }
    }

    /// Leaves one level of constraint patterns.
    pub fn dec_constraint_lvl(&mut self)
        ensures
            final(self).constraint_lvl == if old(self).constraint_lvl > 0 { (old(self).constraint_lvl - 1) as usize } else { 0 },
            final(self).frames == old(self).frames,
            final(self).scopes == old(self).scopes,
            final(self).curr_scope == old(self).curr_scope,
            final(self).lineinfo == old(self).lineinfo,
            final(self).ignore_quote == old(self).ignore_quote,
            final(self).cond_warning == old(self).cond_warning,
            final(self).warnings == old(self).warnings,
            final(self).fuel == old(self).fuel,
            final(self).dispatch_table == old(self).dispatch_table,
    {
        if self.constraint_lvl > 0 {
            self.constraint_lvl = self.constraint_lvl - 1;
        }
    }

    /// From now on quoted expressions are evaluated.
    pub fn ignore_quote_on(&mut self)
        ensures
            final(self).ignore_quote,
            final(self).frames == old(self).frames,
            final(self).scopes == old(self).scopes,
            final(self).curr_scope == old(self).curr_scope,
            final(self).lineinfo == old(self).lineinfo,
            final(self).constraint_lvl == old(self).constraint_lvl,
            final(self).cond_warning == old(self).cond_warning,
            final(self).warnings == old(self).warnings,
            final(self).fuel == old(self).fuel,
            final(self).dispatch_table == old(self).dispatch_table,
    {
        self.ignore_quote = true;
    }

    /// From now on quoted expressions are kept as they are.
    pub fn ignore_quote_off(&mut self)
        ensures
            !final(self).ignore_quote,
            final(self).frames == old(self).frames,
            final(self).scopes == old(self).scopes,
            final(self).curr_scope == old(self).curr_scope,
            final(self).lineinfo == old(self).lineinfo,
            final(self).constraint_lvl == old(self).constraint_lvl,
            final(self).cond_warning == old(self).cond_warning,
            final(self).warnings == old(self).warnings,
            final(self).fuel == old(self).fuel,
            final(self).dispatch_table == old(self).dispatch_table,
    {
        self.ignore_quote = false;
    }
}

/// Bound values stay stored nodes as the store grows.
pub proof fn lemma_values_below_mono<H>(s: State<H>, a: nat, b: nat)
    requires
        s.values_below(a),
        a <= b,
    ensures
        s.values_below(b),
{
}

/// What a name is bound to along a chain of namespaces is a stored node.
pub proof fn lemma_lookup_chain_below<H>(s: State<H>, scopes: Seq<usize>, k: Seq<char>, nlen: nat)
    requires
        s.values_below(nlen),
        frames_below_len(scopes, s.frames@.len()),
    ensures
        lookup_chain(s.frames@, scopes, k) matches Some(v) ==> v.id < nlen,
    decreases scopes.len(),
{
    if scopes.len() > 0 {
        let b = s.frames@[scopes.last() as int].bindings@;
        if frame_has(b, k) {
            let i = choose|i: int| 0 <= i < b.len() && (#[trigger] b[i]).name@ == k;
            assert(s.frames@[scopes.last() as int].bindings@[i].value.id < nlen);
        } else {
            lemma_lookup_chain_below(s, scopes.drop_last(), k, nlen);
        }
    }
}

/// What a name is bound to in the current scope is a stored node.
pub proof fn lemma_lookup_below<H>(s: State<H>, k: Seq<char>, nlen: nat)
    requires
        s.wf(),
        s.values_below(nlen),
    ensures
        s.lookup_spec(k) matches Some(v) ==> v.id < nlen,
{
    lemma_lookup_chain_below(s, s.scopes@, k, nlen);
}

/// Opening a new, empty namespace as the innermost scope changes no lookup.
pub proof fn lemma_lookup_open_scope(f0: Seq<Frame>, f1: Seq<Frame>, scopes: Seq<usize>, id: usize)
    requires
        frames_below_len(scopes, f0.len()),
        f1.len() == f0.len() + 1,
        forall|f: int| 0 <= f < f0.len() ==> #[trigger] f1[f] == f0[f],
        id == f0.len(),
        f1[id as int].bindings@.len() == 0,
    ensures
        forall|k: Seq<char>| #[trigger] lookup_chain(f1, scopes.push(id), k) == lookup_chain(f0, scopes, k),
{
    assert forall|k: Seq<char>| #[trigger] lookup_chain(f1, scopes.push(id), k) == lookup_chain(f0, scopes, k) by {
        let s1 = scopes.push(id);
        assert(s1.last() == id);
        assert(s1.drop_last() =~= scopes);
        assert(!frame_has(f1[id as int].bindings@, k));
        assert(agree_on(f1, f0, scopes, k)) by {
            assert forall|i: int| 0 <= i < scopes.len() implies
                frame_get(f1[#[trigger] scopes[i] as int].bindings@, k) == frame_get(f0[scopes[i] as int].bindings@, k) by {
                assert(f1[scopes[i] as int] == f0[scopes[i] as int]);
            }
        }
        lemma_lookup_agree(f1, f0, scopes, k);
    }
}

/// Closing a scope that was just opened restores the chain of scopes and
/// what every name is bound to.
pub proof fn law_pop_undoes_push<H>(s0: State<H>, s1: State<H>, s2: State<H>)
    requires
        s0.wf(),
        s1.frames@ == s0.frames@.push(Frame { bindings: s1.frames@.last().bindings, globals: s1.frames@.last().globals }),
        s1.frames@.last().bindings@.len() == 0,
        s1.scopes@ == s0.scopes@.push(s0.frames@.len() as usize),
        s2.frames@ == s1.frames@,
        s2.scopes@ == (if s1.scopes@.len() > 1 { s1.scopes@.drop_last() } else { s1.scopes@ }),
    ensures
        s2.scopes@ == s0.scopes@,
        forall|k: Seq<char>| #[trigger] s2.lookup_spec(k) == s0.lookup_spec(k),
{
    assert(s1.scopes@.drop_last() =~= s0.scopes@);
    assert forall|k: Seq<char>| #[trigger] s2.lookup_spec(k) == s0.lookup_spec(k) by {
        assert(agree_on(s2.frames@, s0.frames@, s0.scopes@, k)) by {
            assert forall|i: int| 0 <= i < s0.scopes@.len() implies
                frame_get(s2.frames@[#[trigger] s0.scopes@[i] as int].bindings@, k) == frame_get(s0.frames@[s0.scopes@[i] as int].bindings@, k) by {
                assert(s2.frames@[s0.scopes@[i] as int] == s0.frames@[s0.scopes@[i] as int]);
            }
        }
        lemma_lookup_agree(s2.frames@, s0.frames@, s0.scopes@, k);
    }
}

} // verus!
