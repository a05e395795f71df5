//! The evaluator's state: scopes of variables, control flow, and its model.
use vstd::prelude::*;
use crate::error::{ErrorKind, NbclError, SSpan, SError};
use crate::registry::{Registry, SRegistry, assoc_get, assoc_put, first_key_index, find_key, get_entry, put_entry, lemma_first_key_index};
use crate::text::to_owned_string;
use crate::value::{SValue, Value, clone_value};

use crate::host::grows;

verus! {

/// A variable binding.
pub struct Binding {
    pub value: Value,
    pub is_const: bool,
}

/// Mathematical model of a [`Binding`].
pub struct SBinding {
    pub value: SValue,
    pub is_const: bool,
}

impl DeepView for Binding {
    type V = SBinding;

    open spec fn deep_view(&self) -> SBinding {
        SBinding { value: self.value@, is_const: self.is_const }
    }
}

/// Kinds of scopes.
#[derive(PartialEq, Eq, Structural, Clone, Copy)]
pub enum ScopeKind {
    TopLevel,
    /// `if`, `for`, `while`, `match`.
    Block,
    /// Functions and lambdas.
    Function,
    Component,
}

/// A scope: its variables and kind.
pub struct Scope {
    pub variables: Vec<(String, Binding)>,
    pub kind: ScopeKind,
}

/// Mathematical model of a [`Scope`].
pub struct SScope {
    pub vars: Seq<(Seq<char>, SBinding)>,
    pub kind: ScopeKind,
}

impl DeepView for Scope {
    type V = SScope;

    open spec fn deep_view(&self) -> SScope {
        SScope { vars: self.variables.deep_view(), kind: self.kind }
    }
}

impl Scope {
    /// An empty scope of the given kind.
    pub fn new(kind: ScopeKind) -> (r: Scope)
        ensures
            r.deep_view() == (SScope { vars: Seq::empty(), kind }),
    {
        let r = Scope { variables: Vec::new(), kind };
        assert(r.variables.deep_view() =~= Seq::empty());
        r
    }
}

/// Whether a `return` has been executed.
pub enum FlowControl {
    Normal,
    Return(Value),
}

/// Mathematical model of a [`FlowControl`].
pub enum SFlow {
    Normal,
    Return(SValue),
}

impl DeepView for FlowControl {
    type V = SFlow;

    open spec fn deep_view(&self) -> SFlow {
        match self {
            FlowControl::Normal => SFlow::Normal,
            FlowControl::Return(v) => SFlow::Return(v@),
        }
    }
}

/// The evaluator: registry, scope stack, control flow, call depth and printed output.
pub struct Evaluator {
    pub registry: Registry,
    pub scopes: Vec<Scope>,
    pub flow: FlowControl,
    pub call_stack_depth: usize,
    pub max_depth: usize,
    /// Lines printed by `print`, in order.
    pub output: Vec<String>,
    /// Counter for fresh internal function names.
    pub anon_count: u64,
    /// Module files already imported.
    pub loaded_files: Vec<String>,
    /// The requests made to the host so far, each with the host's reply.
    pub host_calls: Ghost<Seq<crate::host::HostCall>>,
    /// Which kinds of import the modules this evaluator reads may hold.
    pub import_features: crate::builder::ImportFeatures,
}

/// Mathematical model of an [`Evaluator`].
pub struct SState {
    pub reg: SRegistry,
    pub scopes: Seq<SScope>,
    pub flow: SFlow,
    pub depth: usize,
    pub max_depth: usize,
    pub output: Seq<Seq<char>>,
    pub anon: u64,
    pub loaded: Seq<Seq<char>>,
}

impl DeepView for Evaluator {
    type V = SState;

    open spec fn deep_view(&self) -> SState {
        SState {
            reg: self.registry.deep_view(),
            scopes: self.scopes.deep_view(),
            flow: self.flow.deep_view(),
            depth: self.call_stack_depth,
            max_depth: self.max_depth,
            output: self.output.deep_view(),
            anon: self.anon_count,
            loaded: self.loaded_files.deep_view(),
        }
    }
}

/// An error of evaluation: kind, message, hint and span.
pub struct SErr {
    pub kind: ErrorKind,
    pub message: Seq<char>,
    pub hint: Option<Seq<char>>,
    pub span: Option<SSpan>,
}

/// The evaluation error that an error value stands for.
pub open spec fn err_core(e: SError) -> SErr {
    SErr { kind: e.kind, message: e.message, hint: e.hint, span: e.span }
}

/// A runtime error with the given message and span, without a hint.
pub open spec fn rt(message: Seq<char>, span: Option<SSpan>) -> SErr {
    SErr { kind: ErrorKind::Runtime, message, hint: None, span }
}

/// A runtime error with the given message, hint and span.
pub open spec fn rth(message: Seq<char>, hint: Option<Seq<char>>, span: Option<SSpan>) -> SErr {
    SErr { kind: ErrorKind::Runtime, message, hint, span }
}

/// The outcome of a step of evaluation: a result, an error, or "the host was consulted"
/// (after which nothing is stated).
pub enum Out<T> {
    Done(T),
    Fail(SErr),
    Host,
}

/// The innermost scope (highest index) that binds `name`.
pub open spec fn scope_with(scopes: Seq<SScope>, name: Seq<char>) -> Option<int>
    decreases scopes.len(),
{
    if scopes.len() == 0 {
        None
    } else if first_key_index(scopes.last().vars, name) is Some {
        Some(scopes.len() - 1)
    } else {
        scope_with(scopes.drop_last(), name)
    }
}

pub proof fn lemma_scope_with(scopes: Seq<SScope>, name: Seq<char>)
    ensures
        match scope_with(scopes, name) {
            Some(i) => 0 <= i < scopes.len() && first_key_index(scopes[i].vars, name) is Some
                && forall|j: int| i < j < scopes.len() ==> first_key_index(#[trigger] scopes[j].vars, name) is None,
            None => forall|j: int| 0 <= j < scopes.len() ==> first_key_index(#[trigger] scopes[j].vars, name) is None,
        },
    decreases scopes.len(),
{
    if scopes.len() > 0 {
        lemma_scope_with(scopes.drop_last(), name);
        assert forall|j: int| 0 <= j < scopes.len() - 1 implies scopes.drop_last()[j] == scopes[j] by {}
    }
}

/// The value of variable `name`: innermost scope first, then the globals.
pub open spec fn lookup_var(st: SState, name: Seq<char>) -> Option<SValue> {
    match scope_with(st.scopes, name) {
        Some(i) => Some(assoc_get(st.scopes[i].vars, name).unwrap().value),
        None => assoc_get(st.reg.globals, name),
    }
}

/// Declares `name` in the innermost scope (no effect without scopes).
pub open spec fn declare(st: SState, name: Seq<char>, value: SValue, is_const: bool) -> SState {
    if st.scopes.len() == 0 {
        st
    } else {
        let last = st.scopes.last();
        let sc = SScope { vars: assoc_put(last.vars, name, SBinding { value, is_const }), kind: last.kind };
        SState { scopes: st.scopes.update(st.scopes.len() - 1, sc), ..st }
    }
}

/// Sets the value bound to `name` in scope `i`, keeping its constness.
pub open spec fn set_var(st: SState, i: int, name: Seq<char>, value: SValue) -> SState {
    let sc = st.scopes[i];
    let b = assoc_get(sc.vars, name).unwrap();
    SState {
        scopes: st.scopes.update(i, SScope { vars: assoc_put(sc.vars, name, SBinding { value, is_const: b.is_const }), kind: sc.kind }),
        ..st
    }
}

/// Pushes a scope.
pub open spec fn push_scope(st: SState, sc: SScope) -> SState {
    SState { scopes: st.scopes.push(sc), ..st }
}

/// `b` has as many scopes as `a`, at the same call depth.
pub open spec fn same_frame(a: SState, b: SState) -> bool {
    b.scopes.len() == a.scopes.len() && b.depth == a.depth
}

/// A successful step from `a` to `b` leaves as many scopes as it found, at the call depth
/// it started at.
pub open spec fn frame_kept<T>(a: SState, b: SState, r: Result<T, NbclError>) -> bool {
    r is Ok ==> same_frame(a, b)
}

/// A successful call from `a` to `b` leaves as many scopes as it found, one call level up.
pub open spec fn frame_left<T>(a: SState, b: SState, r: Result<T, NbclError>) -> bool {
    r is Ok ==> b.scopes.len() == a.scopes.len() && b.depth == (if a.depth > 0 { (a.depth - 1) as usize } else { 0usize })
}

/// Pops the innermost scope (no effect without scopes).
pub open spec fn pop_scope(st: SState) -> SState {
    if st.scopes.len() == 0 { st } else { SState { scopes: st.scopes.drop_last(), ..st } }
}


impl Evaluator {
    /// The innermost scope that binds `name`.
    pub fn find_scope(&self, name: &str) -> (r: Option<usize>)
        ensures
            match scope_with(self.deep_view().scopes, name@) {
                Some(i) => r matches Some(x) && x as int == i && i < self.scopes@.len(),
                None => r is None,
            },
    {
        let ghost full = self.deep_view().scopes;
        let mut i: usize = self.scopes.len();
        proof { assert(full.take(i as int) =~= full); }
        while i > 0
            invariant
                i <= self.scopes@.len(),
                full == self.deep_view().scopes,
                scope_with(full, name@) == scope_with(full.take(i as int), name@),
            decreases i,
        {
            let ghost t = full.take(i as int);
            proof {
                assert(t.last() == full[i - 1]);
                assert(t.drop_last() =~= full.take(i - 1));
                assert(full[i - 1] == self.scopes@[i - 1].deep_view());
            }
            match find_key(&self.scopes[i - 1].variables, name) {
                Some(_) => {
                    return Some(i - 1);
                },
                None => {},
            }
            i = i - 1;
        }
        proof { assert(full.take(0) =~= Seq::<SScope>::empty()); }
        None
    }

    /// The value of variable `name`: innermost scope first, then the globals.
    pub fn lookup(&self, name: &str) -> (r: Option<Value>)
        ensures
            match lookup_var(self.deep_view(), name@) {
                Some(v) => r is Some && r.unwrap()@ == v,
                None => r is None,
            },
    {
        match self.find_scope(name) {
            Some(i) => {
                proof { lemma_scope_with(self.deep_view().scopes, name@); }
                assert(self.deep_view().scopes[i as int] == self.scopes@[i as int].deep_view());
                assert(self.deep_view().scopes[i as int].vars == self.scopes@[i as int].variables.deep_view());
                match get_entry(&self.scopes[i].variables, name) {
                    Some(b) => {
                        assert(b.deep_view() == assoc_get(self.deep_view().scopes[i as int].vars, name@).unwrap());
                        assert(scope_with(self.deep_view().scopes, name@) == Some(i as int));
                        assert(lookup_var(self.deep_view(), name@) == Some(b.value@));
                        let c = clone_value(&b.value);
                        assert(c@ == b.value@);
                        Some(c)
                    },
                    None => None,
                }
            },
            None => match get_entry(&self.registry.globals, name) {
                Some(v) => {
                    assert(v.deep_view() == v@);
                    Some(clone_value(v))
                },
                None => None,
            },
        }
    }

    /// Declares `name` in the innermost scope.
    pub fn declare(&mut self, name: &str, value: Value, is_const: bool)
        ensures
            grows(old(self).host_calls@, final(self).host_calls@),
            final(self).import_features == old(self).import_features,
            final(self).deep_view() == declare(old(self).deep_view(), name@, value@, is_const),
    {
        let n = self.scopes.len();
        if n > 0 {
            let ghost d0 = self.scopes.deep_view();
            let mut sc = self.scopes.pop().unwrap();
            assert(sc.deep_view() == d0[n - 1]);
            let b = Binding { value, is_const };
            put_entry(&mut sc.variables, to_owned_string(name), b);
            self.scopes.push(sc);
            assert(self.scopes.deep_view() =~= d0.update(n - 1, SScope {
                vars: assoc_put(d0[n - 1].vars, name@, SBinding { value: value@, is_const }),
                kind: d0[n - 1].kind,
            }));
        }
    }

    /// Sets the value of `name` in scope `i`, keeping its constness.
    pub fn set_var_at(&mut self, i: usize, name: &str, value: Value)
        requires
            i < old(self).scopes@.len(),
            first_key_index(old(self).deep_view().scopes[i as int].vars, name@) is Some,
        ensures
            grows(old(self).host_calls@, final(self).host_calls@),
            final(self).import_features == old(self).import_features,
            final(self).deep_view() == set_var(old(self).deep_view(), i as int, name@, value@),
    {
        let ghost d0 = self.scopes.deep_view();
        assert(d0[i as int] == self.scopes@[i as int].deep_view());
        let mut sc = self.scopes.remove(i);
        let is_const = match get_entry(&sc.variables, name) {
            Some(b) => b.is_const,
            None => false,
        };
        let b = Binding { value, is_const };
        put_entry(&mut sc.variables, to_owned_string(name), b);
        self.scopes.insert(i, sc);
        assert(self.scopes.deep_view() =~= d0.update(i as int, SScope {
            vars: assoc_put(d0[i as int].vars, name@, SBinding { value: value@, is_const: assoc_get(d0[i as int].vars, name@).unwrap().is_const }),
            kind: d0[i as int].kind,
        }));
    }

    /// Pushes a scope.
    pub fn push_scope(&mut self, sc: Scope)
        ensures
            grows(old(self).host_calls@, final(self).host_calls@),
            final(self).import_features == old(self).import_features,
            final(self).deep_view() == push_scope(old(self).deep_view(), sc.deep_view()),
    {
        let ghost d0 = self.scopes.deep_view();
        let ghost sv = sc.deep_view();
        self.scopes.push(sc);
        assert(self.scopes.deep_view() =~= d0.push(sv));
    }

    /// Pops the innermost scope.
    pub fn pop_scope(&mut self)
        ensures
            grows(old(self).host_calls@, final(self).host_calls@),
            final(self).import_features == old(self).import_features,
            final(self).deep_view() == pop_scope(old(self).deep_view()),
    {
        let ghost d0 = self.scopes.deep_view();
        if self.scopes.len() > 0 {
            self.scopes.pop();
            assert(self.scopes.deep_view() =~= d0.drop_last());
        }
    }
}

} // verus!
