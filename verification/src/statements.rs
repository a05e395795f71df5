//! Execution of statements: declarations, assignments, loops and `return`.
use vstd::prelude::*;
use crate::ast::{AssignOp, Block, Expr, ExprKind, ReturnType, Stmt};
use crate::error::{NbclError, Span};
use crate::host::Host;
use crate::interp::{did_you_mean, keys_of};
use crate::ops::{apply_assign_op, err_at, err_hint_at, step_error};
use crate::registry::{find_key, get_entry, lemma_entries_deep_view, lemma_first_key_index, put_entry};
use crate::semantics::{
    at_root, assign_field, assign_index, assign_var, bind_list_patterns, bind_names, bind_range_patterns, block_stmts, empty_scope, exec_assign, for_list, for_range,
    exec_block, exec_for, exec_stmt, insert_loop_var, list_loop, range_loop, reassign, return_value,
    set_loop_var, unit_res, val_res, while_loop, err_res, scope_names,
};
use crate::utils::names_view;
use crate::state::{Binding, Evaluator, FlowControl, Out, SBinding, SFlow, SScope, SState, Scope, ScopeKind, lemma_scope_with, scope_with};
use crate::text::{concat3, i64_to_string, to_owned_string};
use crate::value::{SValue, Value, clone_value, lemma_view_entries, lemma_view_nodes, lemma_view_values, view_entries, view_values};

use crate::host::grows;
use crate::state::{frame_kept, frame_left, same_frame};

verus! {

/// An executable result agrees with an outcome that is a state and a flag.
pub open spec fn flag_res(o: Out<(SState, bool)>, fin: SState, r: Result<bool, NbclError>) -> bool {
    match o {
        Out::Done((s, b)) => r == Ok::<bool, NbclError>(b) && fin == s,
        Out::Fail(e) => err_res(e, r),
        Out::Host => true,
    }
}

/// Replaces entry `p` of a map's entries.
fn update_entry(entries: &mut Vec<(String, Value)>, p: usize, key: String, v: Value)
    requires
        p < old(entries)@.len(),
    ensures
        view_entries(final(entries)@) == view_entries(old(entries)@).update(p as int, (key@, v@)),
{
    proof { lemma_view_entries(entries@); }
    let ghost ev = view_entries(entries@);
    let ghost kv = (key@, v@);
    entries.remove(p);
    entries.insert(p, (key, v));
    proof {
        lemma_view_entries(entries@);
        assert(view_entries(entries@) =~= ev.update(p as int, kv));
    }
}

/// Appends an entry to a map's entries.
fn push_entry(entries: &mut Vec<(String, Value)>, key: String, v: Value)
    ensures
        view_entries(final(entries)@) == view_entries(old(entries)@).push((key@, v@)),
{
    let e = (key, v);
    proof { crate::value::lemma_view_entries_push(entries@, e); }
    entries.push(e);
}

/// Replaces item `p` of a list.
fn update_item(items: &mut Vec<Value>, p: usize, v: Value)
    requires
        p < old(items)@.len(),
    ensures
        view_values(final(items)@) == view_values(old(items)@).update(p as int, v@),
{
    proof { lemma_view_values(items@); }
    let ghost iv = view_values(items@);
    let ghost vv = v@;
    items.remove(p);
    items.insert(p, v);
    proof {
        lemma_view_values(items@);
        assert(view_values(items@) =~= iv.update(p as int, vv));
    }
}

impl Evaluator {
    /// Whether a `return` has been executed.
    fn returned(&self) -> (r: bool)
        ensures
            r == (self.deep_view().flow is Return),
    {
        match self.flow {
            FlowControl::Return(_) => true,
            FlowControl::Normal => false,
        }
    }

    /// Executes a statement.
    pub fn exec_stmt<H: Host>(&mut self, stmt: &Stmt, fuel: u64, host: &mut H) -> (r: Result<Value, NbclError>)
        ensures
            grows(old(self).host_calls@, final(self).host_calls@),
            final(self).import_features == old(self).import_features,
            frame_kept(old(self).deep_view(), final(self).deep_view(), r),
            val_res(exec_stmt(old(self).deep_view(), *stmt, fuel as nat), final(self).deep_view(), r),
            fuel > 0 && old(self).flow is Return ==> (r matches Ok(x) && old(self).flow matches FlowControl::Return(v)
                && x@ == v@ && final(self).deep_view() == old(self).deep_view()
                && final(self).host_calls@ == old(self).host_calls@),
        decreases fuel,
    {
        if fuel == 0 {
            return Err(step_error());
        }
        match &self.flow {
            FlowControl::Return(v) => { return Ok(clone_value(v)); },
            FlowControl::Normal => {},
        }
        let f = fuel - 1;
        match stmt {
            Stmt::Expr(e) => self.eval_expr(e, f, host),
            Stmt::Return(ret, span) => {
                let n = self.scopes.len();
                let root = (n == 1 && self.scopes[0].kind == ScopeKind::TopLevel)
                    || (n == 2 && self.scopes[0].kind == ScopeKind::TopLevel && self.scopes[1].kind == ScopeKind::Block);
                proof {
                    if n >= 1 { assert(self.deep_view().scopes[0].kind == self.scopes@[0].kind); }
                    if n >= 2 { assert(self.deep_view().scopes[1].kind == self.scopes@[1].kind); }
                }
                if root {
                    return Err(err_hint_at(to_owned_string("cannot return from the top level"),
                        Some(to_owned_string("Move this logic into a function or component if you need early returns.")), span));
                }
                let v = match self.return_value(ret, f, host) {
                    Ok(v) => v,
                    Err(err) => { return Err(err); },
                };
                self.flow = FlowControl::Return(clone_value(&v));
                Ok(v)
            },
            Stmt::Const(name, e) => {
                let v = match self.eval_expr(e, f, host) {
                    Ok(v) => v,
                    Err(err) => { return Err(err); },
                };
                self.declare(name.as_str(), v, true);
                Ok(Value::Null)
            },
            Stmt::Let(name, e) => {
                let v = match self.eval_expr(e, f, host) {
                    Ok(v) => v,
                    Err(err) => { return Err(err); },
                };
                self.declare(name.as_str(), v, false);
                Ok(Value::Null)
            },
            Stmt::Assign(lhs, op, rhs, span) => self.exec_assign(lhs, op, rhs, span, f, host),
            Stmt::For(pats, it, body) => self.exec_for(pats, it, body, f, host),
            Stmt::While(cond, body) => {
                self.push_scope(Scope::new(ScopeKind::Block));
                match self.while_loop(cond, body, f, host) {
                    Ok(()) => {},
                    Err(err) => { return Err(err); },
                }
                self.pop_scope();
                Ok(Value::Null)
            },
        }
    }

    /// The value a `return` gives back.
    pub fn return_value<H: Host>(&mut self, ret: &Option<ReturnType>, fuel: u64, host: &mut H) -> (r: Result<Value, NbclError>)
        ensures
            grows(old(self).host_calls@, final(self).host_calls@),
            final(self).import_features == old(self).import_features,
            frame_kept(old(self).deep_view(), final(self).deep_view(), r),
            val_res(return_value(old(self).deep_view(), *ret, fuel as nat), final(self).deep_view(), r),
        decreases fuel,
    {
        if fuel == 0 {
            return Err(step_error());
        }
        match ret {
            None => Ok(Value::Null),
            Some(ReturnType::Expr(e)) => self.eval_expr(e, fuel - 1, host),
            Some(ReturnType::Node(n)) => match self.resolve_node(n, fuel - 1, host) {
                Ok(ns) => Ok(Value::Node(ns)),
                Err(err) => Err(err),
            },
        }
    }

    /// Executes an assignment.
    pub fn exec_assign<H: Host>(&mut self, lhs: &Expr, op: &AssignOp, rhs: &Expr, span: &Span, fuel: u64, host: &mut H)
        -> (r: Result<Value, NbclError>)
        ensures
            grows(old(self).host_calls@, final(self).host_calls@),
            final(self).import_features == old(self).import_features,
            frame_kept(old(self).deep_view(), final(self).deep_view(), r),
            val_res(exec_assign(old(self).deep_view(), *lhs, *op, *rhs, span@, fuel as nat), final(self).deep_view(), r),
        decreases fuel,
    {
        if fuel == 0 {
            return Err(step_error());
        }
        let f = fuel - 1;
        let nv = match self.eval_expr(rhs, f, host) {
            Ok(v) => v,
            Err(err) => { return Err(err); },
        };
        match &lhs.kind {
            ExprKind::Variable(name) => self.assign_var(name.as_str(), op, nv, span, host),
            ExprKind::Field(base, field, _) => self.assign_field(base, field, op, nv, span, f, host),
            ExprKind::Index(base, idx) => self.assign_index(base, idx, op, nv, span, f, host),
            _ => Err(err_at(to_owned_string("invalid assignment target"), span)),
        }
    }

    /// Assigns to a variable of a scope.
    fn assign_var<H: Host>(&mut self, name: &str, op: &AssignOp, nv: Value, span: &Span, host: &mut H) -> (r: Result<Value, NbclError>)
        ensures
            grows(old(self).host_calls@, final(self).host_calls@),
            final(self).import_features == old(self).import_features,
            frame_kept(old(self).deep_view(), final(self).deep_view(), r),
            val_res(assign_var(old(self).deep_view(), name@, *op, nv@, span@), final(self).deep_view(), r),
    {
        let sp = Some(span.copy());
        match self.find_scope(name) {
            None => {
                let ghost scopes = self.deep_view().scopes;
                let mut names: Vec<String> = Vec::new();
                let mut k: usize = 0;
                while k < self.scopes.len()
                    invariant
                        grows(old(self).host_calls@, self.host_calls@),
                        self.import_features == old(self).import_features,
                        same_frame(old(self).deep_view(), self.deep_view()),
                        k <= self.scopes@.len(),
                        scopes == self.deep_view().scopes,
                        scopes.len() == self.scopes@.len(),
                        names_view(names@) == scope_names(scopes.take(k as int)),
                    decreases self.scopes@.len() - k,
                {
                    let mut more = keys_of(&self.scopes[k].variables);
                    let ghost n0 = names@;
                    let ghost m0 = more@;
                    names.append(&mut more);
                    proof {
                        assert(names_view(names@) =~= names_view(n0) + names_view(m0));
                        assert(scopes.take(k + 1).drop_last() =~= scopes.take(k as int));
                        assert(scopes[k as int].vars == self.scopes@[k as int].variables.deep_view());
                    }
                    k = k + 1;
                }
                assert(scopes.take(self.scopes@.len() as int) =~= scopes);
                let hint = did_you_mean(name, &names);
                Err(err_hint_at(concat3("variable '", name, "' doesn't exist"), hint, span))
            },
            Some(i) => {
                proof { lemma_scope_with(self.deep_view().scopes, name@); }
                assert(self.deep_view().scopes[i as int].vars == self.scopes@[i as int].variables.deep_view());
                let (is_const, cur) = match get_entry(&self.scopes[i].variables, name) {
                    Some(b) => (b.is_const, clone_value(&b.value)),
                    None => (false, Value::Null),
                };
                if is_const {
                    return Err(err_hint_at(concat3("cannot reassign to constant variable '", name, "'"),
                        Some(to_owned_string("This variable was declared with 'const', or is an immutable loop/property binding.")),
                        span));
                }
                let u = match apply_assign_op(cur, op, nv, &sp, host) {
                    Ok(u) => u,
                    Err(err) => { return Err(err); },
                };
                self.set_var_at(i, name, u);
                Ok(Value::Null)
            },
        }
    }

    /// Assigns to a field of the map that `base` gives.
    #[verifier::spinoff_prover]
    fn assign_field<H: Host>(&mut self, base: &Expr, field: &String, op: &AssignOp, nv: Value, span: &Span, fuel: u64, host: &mut H)
        -> (r: Result<Value, NbclError>)
        ensures
            grows(old(self).host_calls@, final(self).host_calls@),
            final(self).import_features == old(self).import_features,
            frame_kept(old(self).deep_view(), final(self).deep_view(), r),
            val_res(assign_field(old(self).deep_view(), *base, field@, *op, nv@, span@, fuel as nat), final(self).deep_view(), r),
        decreases fuel,
    {
        if fuel == 0 {
            return Err(step_error());
        }
        let f = fuel - 1;
        let sp = Some(span.copy());
        let tv = match self.eval_expr(base, f, host) {
            Ok(v) => v,
            Err(err) => { return Err(err); },
        };
        match tv {
            Value::Dict(entries) => {
                let mut entries = entries;
                proof { lemma_entries_deep_view(entries); lemma_view_entries(entries@); }
                match find_key(&entries, field.as_str()) {
                    Some(p) => {
                        let old_v = clone_value(&entries[p].1);
                        let u = match apply_assign_op(old_v, op, nv, &sp, host) {
                            Ok(u) => u,
                            Err(err) => { return Err(err); },
                        };
                        update_entry(&mut entries, p, field.clone(), u);
                        match self.reassign(base, Value::Dict(entries), f, host) {
                            Ok(()) => Ok(Value::Null),
                            Err(err) => Err(err),
                        }
                    },
                    None => {
                        match op {
                            AssignOp::Equal => {
                                push_entry(&mut entries, field.clone(), nv);
                                match self.reassign(base, Value::Dict(entries), f, host) {
                                    Ok(()) => Ok(Value::Null),
                                    Err(err) => Err(err),
                                }
                            },
                            _ => Err(err_at(concat3("cannot update field '", field.as_str(), "' that doesn't exist"), span)),
                        }
                    },
                }
            },
            _ => Err(err_at(to_owned_string("cannot set field on non-map"), span)),
        }
    }

    /// Assigns to an element of the list that `base` gives.
    #[verifier::spinoff_prover]
    fn assign_index<H: Host>(&mut self, base: &Expr, idx: &Expr, op: &AssignOp, nv: Value, span: &Span, fuel: u64, host: &mut H)
        -> (r: Result<Value, NbclError>)
        ensures
            grows(old(self).host_calls@, final(self).host_calls@),
            final(self).import_features == old(self).import_features,
            frame_kept(old(self).deep_view(), final(self).deep_view(), r),
            val_res(assign_index(old(self).deep_view(), *base, *idx, *op, nv@, span@, fuel as nat), final(self).deep_view(), r),
        decreases fuel,
    {
        if fuel == 0 {
            return Err(step_error());
        }
        let f = fuel - 1;
        let sp = Some(span.copy());
        let tv = match self.eval_expr(base, f, host) {
            Ok(v) => v,
            Err(err) => { return Err(err); },
        };
        let iv = match self.eval_expr(idx, f, host) {
            Ok(v) => v,
            Err(err) => { return Err(err); },
        };
        match (tv, iv) {
            (Value::List(items), Value::Int(k)) => {
                let mut items = items;
                proof { lemma_view_values(items@); }
                if k >= 0 && (k as u64) < (items.len() as u64) {
                    let p = k as usize;
                    let old_v = clone_value(&items[p]);
                    let u = match apply_assign_op(old_v, op, nv, &sp, host) {
                        Ok(u) => u,
                        Err(err) => { return Err(err); },
                    };
                    update_item(&mut items, p, u);
                    match self.reassign(base, Value::List(items), f, host) {
                        Ok(()) => Ok(Value::Null),
                        Err(err) => Err(err),
                    }
                } else {
                    Err(err_at(concat3("index ", i64_to_string(k).as_str(), " out of bounds"), span))
                }
            },
            _ => Err(err_at(to_owned_string("invalid index operation"), span)),
        }
    }

    /// Writes `value` back to the place that `lhs` names.
    pub fn reassign<H: Host>(&mut self, lhs: &Expr, value: Value, fuel: u64, host: &mut H) -> (r: Result<(), NbclError>)
        ensures
            grows(old(self).host_calls@, final(self).host_calls@),
            final(self).import_features == old(self).import_features,
            frame_kept(old(self).deep_view(), final(self).deep_view(), r),
            unit_res(reassign(old(self).deep_view(), *lhs, value@, fuel as nat), final(self).deep_view(), r),
        decreases fuel,
    {
        if fuel == 0 {
            return Err(step_error());
        }
        let f = fuel - 1;
        match &lhs.kind {
            ExprKind::Variable(name) => match self.find_scope(name.as_str()) {
                Some(i) => {
                    proof { lemma_scope_with(self.deep_view().scopes, name@); }
                    self.set_var_at(i, name.as_str(), value);
                    Ok(())
                },
                None => Err(crate::ops::runtime_error(to_owned_string("variable lost during assignment"), &None)),
            },
            ExprKind::Field(base, field, _) => {
                let p = match self.eval_expr(base, f, host) {
                    Ok(v) => v,
                    Err(err) => { return Err(err); },
                };
                match p {
                    Value::Dict(es) => {
                        let mut es = es;
                        proof { lemma_entries_deep_view(es); }
                        put_entry(&mut es, field.clone(), value);
                        proof { lemma_entries_deep_view(es); }
                        self.reassign(base, Value::Dict(es), f, host)
                    },
                    _ => Ok(()),
                }
            },
            ExprKind::Index(base, idx) => {
                let p = match self.eval_expr(base, f, host) {
                    Ok(v) => v,
                    Err(err) => { return Err(err); },
                };
                let iv = match self.eval_expr(idx, f, host) {
                    Ok(v) => v,
                    Err(err) => { return Err(err); },
                };
                match (p, iv) {
                    (Value::List(items), Value::Int(k)) => {
                        let mut items = items;
                        proof { lemma_view_values(items@); }
                        if k >= 0 && (k as u64) < (items.len() as u64) {
                            update_item(&mut items, k as usize, value);
                            self.reassign(base, Value::List(items), f, host)
                        } else {
                            Ok(())
                        }
                    },
                    _ => Ok(()),
                }
            },
            _ => Ok(()),
        }
    }

    /// Executes a `for` loop.
    pub fn exec_for<H: Host>(&mut self, pats: &Vec<String>, it: &Expr, body: &Block, fuel: u64, host: &mut H)
        -> (r: Result<Value, NbclError>)
        ensures
            grows(old(self).host_calls@, final(self).host_calls@),
            final(self).import_features == old(self).import_features,
            frame_kept(old(self).deep_view(), final(self).deep_view(), r),
            val_res(exec_for(old(self).deep_view(), pats@, *it, *body, fuel as nat), final(self).deep_view(), r),
        decreases fuel,
    {
        if fuel == 0 {
            return Err(step_error());
        }
        let f = fuel - 1;
        let iv = match self.eval_expr(it, f, host) {
            Ok(v) => v,
            Err(err) => { return Err(err); },
        };
        match iv {
            Value::Range(a, b) => self.for_range(pats, a, b, body, f, host),
            Value::List(items) => self.for_list(pats, &items, body, f, host),
            _ => Ok(Value::Null),
        }
    }

    /// A `for` loop over a range.
    fn for_range<H: Host>(&mut self, pats: &Vec<String>, a: i64, b: i64, body: &Block, fuel: u64, host: &mut H)
        -> (r: Result<Value, NbclError>)
        ensures
            grows(old(self).host_calls@, final(self).host_calls@),
            final(self).import_features == old(self).import_features,
            frame_kept(old(self).deep_view(), final(self).deep_view(), r),
            val_res(for_range(old(self).deep_view(), pats@, a as int, b as int, *body, fuel as nat), final(self).deep_view(), r),
        decreases fuel,
    {
        if fuel == 0 {
            return Err(step_error());
        }
        let ghost nulls = Seq::new(pats@.len(), |i: int| SValue::Null);
        let mut scope = Scope::new(ScopeKind::Block);
        let mut k: usize = 0;
        while k < pats.len()
            invariant
                grows(old(self).host_calls@, self.host_calls@),
                self.import_features == old(self).import_features,
                same_frame(old(self).deep_view(), self.deep_view()),
                k <= pats@.len(),
                nulls == Seq::new(pats@.len(), |i: int| SValue::Null),
                scope.kind == ScopeKind::Block,
                scope.variables.deep_view() == bind_names(pats@, nulls, true, k as int),
            decreases pats@.len() - k,
        {
            put_entry(&mut scope.variables, pats[k].clone(), Binding { value: Value::Null, is_const: true });
            k = k + 1;
        }
        let depth = self.scopes.len();
        self.push_scope(scope);
        match self.range_loop(pats, depth, a, b, body, fuel - 1, host) {
            Ok(()) => {},
            Err(err) => { return Err(err); },
        }
        self.pop_scope();
        Ok(Value::Null)
    }

    /// A `for` loop over a list.
    fn for_list<H: Host>(&mut self, pats: &Vec<String>, items: &Vec<Value>, body: &Block, fuel: u64, host: &mut H)
        -> (r: Result<Value, NbclError>)
        ensures
            grows(old(self).host_calls@, final(self).host_calls@),
            final(self).import_features == old(self).import_features,
            frame_kept(old(self).deep_view(), final(self).deep_view(), r),
            val_res(for_list(old(self).deep_view(), pats@, view_values(items@), *body, fuel as nat), final(self).deep_view(), r),
        decreases fuel,
    {
        if fuel == 0 {
            return Err(step_error());
        }
        let depth = self.scopes.len();
        self.push_scope(Scope::new(ScopeKind::Block));
        match self.list_loop(pats, depth, items, body, fuel - 1, host) {
            Ok(()) => {},
            Err(err) => { return Err(err); },
        }
        self.pop_scope();
        Ok(Value::Null)
    }

    /// Sets loop variable `name` in scope `k` if it is bound there.
    fn set_loop_var(&mut self, k: usize, name: &str, v: Value)
        ensures
            grows(old(self).host_calls@, final(self).host_calls@),
            final(self).import_features == old(self).import_features,
            same_frame(old(self).deep_view(), final(self).deep_view()),
            final(self).deep_view() == set_loop_var(old(self).deep_view(), k as int, name@, v@),
    {
        if k < self.scopes.len() {
            assert(self.deep_view().scopes[k as int].vars == self.scopes@[k as int].variables.deep_view());
            match find_key(&self.scopes[k].variables, name) {
                Some(_) => { self.set_var_at(k, name, v); },
                None => {},
            }
        }
    }

    /// Binds `name` as a constant in scope `k`.
    fn insert_loop_var(&mut self, k: usize, name: &str, v: Value)
        ensures
            grows(old(self).host_calls@, final(self).host_calls@),
            final(self).import_features == old(self).import_features,
            same_frame(old(self).deep_view(), final(self).deep_view()),
            final(self).deep_view() == insert_loop_var(old(self).deep_view(), k as int, name@, v@),
    {
        if k < self.scopes.len() {
            let ghost d0 = self.scopes.deep_view();
            let ghost vv = v@;
            assert(d0[k as int] == self.scopes@[k as int].deep_view());
            let mut sc = self.scopes.remove(k);
            put_entry(&mut sc.variables, to_owned_string(name), Binding { value: v, is_const: true });
            self.scopes.insert(k, sc);
            assert(self.scopes.deep_view() =~= d0.update(k as int, SScope {
                vars: crate::registry::assoc_put(d0[k as int].vars, name@, SBinding { value: vv, is_const: true }),
                kind: d0[k as int].kind,
            }));
        }
    }

    /// Iterations of a range loop.
    pub fn range_loop<H: Host>(&mut self, pats: &Vec<String>, k: usize, start: i64, end: i64, body: &Block, fuel: u64, host: &mut H)
        -> (r: Result<(), NbclError>)
        ensures
            grows(old(self).host_calls@, final(self).host_calls@),
            final(self).import_features == old(self).import_features,
            frame_kept(old(self).deep_view(), final(self).deep_view(), r),
            unit_res(range_loop(old(self).deep_view(), pats@, k as int, end as int, start as int, *body, fuel as nat),
                final(self).deep_view(), r),
        decreases fuel,
    {
        let ghost whole = range_loop(self.deep_view(), pats@, k as int, end as int, start as int, *body, fuel as nat);
        if fuel == 0 {
            return Err(step_error());
        }
        let mut i: i64 = start;
        while i < end
            invariant
                grows(old(self).host_calls@, self.host_calls@),
                self.import_features == old(self).import_features,
                same_frame(old(self).deep_view(), self.deep_view()),
                fuel > 0,
                whole == range_loop(old(self).deep_view(), pats@, k as int, end as int, start as int, *body, fuel as nat),
                whole is Host || whole == range_loop(self.deep_view(), pats@, k as int, end as int, i as int, *body, fuel as nat),
            decreases end - i,
        {
            if self.returned() {
                return Ok(());
            }
            if pats.len() == 1 {
                self.set_loop_var(k, pats[0].as_str(), Value::Int(i));
            } else if pats.len() == 2 {
                self.set_loop_var(k, pats[0].as_str(), Value::Int(i));
                self.set_loop_var(k, pats[1].as_str(), Value::Int(i));
            }
            match self.exec_block(body, fuel - 1, host) {
                Ok(_) => {},
                Err(err) => { return Err(err); },
            }
            if self.returned() {
                return Ok(());
            }
            i = i + 1;
        }
        Ok(())
    }

    /// Iterations of a list loop.
    pub fn list_loop<H: Host>(&mut self, pats: &Vec<String>, k: usize, items: &Vec<Value>, body: &Block, fuel: u64, host: &mut H)
        -> (r: Result<(), NbclError>)
        ensures
            grows(old(self).host_calls@, final(self).host_calls@),
            final(self).import_features == old(self).import_features,
            frame_kept(old(self).deep_view(), final(self).deep_view(), r),
            unit_res(list_loop(old(self).deep_view(), pats@, k as int, view_values(items@), 0, *body, fuel as nat),
                final(self).deep_view(), r),
        decreases fuel,
    {
        let ghost whole = list_loop(self.deep_view(), pats@, k as int, view_values(items@), 0, *body, fuel as nat);
        if fuel == 0 {
            return Err(step_error());
        }
        proof { lemma_view_values(items@); }
        let mut j: usize = 0;
        while j < items.len()
            invariant
                grows(old(self).host_calls@, self.host_calls@),
                self.import_features == old(self).import_features,
                same_frame(old(self).deep_view(), self.deep_view()),
                fuel > 0,
                j <= items@.len(),
                view_values(items@).len() == items@.len(),
                forall|t: int| 0 <= t < items@.len() ==> #[trigger] view_values(items@)[t] == items@[t]@,
                whole == list_loop(old(self).deep_view(), pats@, k as int, view_values(items@), 0, *body, fuel as nat),
                whole is Host || whole == list_loop(self.deep_view(), pats@, k as int, view_values(items@), j as int, *body, fuel as nat),
            decreases items@.len() - j,
        {
            if self.returned() {
                return Ok(());
            }
            if pats.len() == 1 {
                self.insert_loop_var(k, pats[0].as_str(), clone_value(&items[j]));
            } else if pats.len() == 2 {
                self.insert_loop_var(k, pats[0].as_str(), Value::Int(j as i64));
                self.insert_loop_var(k, pats[1].as_str(), clone_value(&items[j]));
            }
            match self.exec_block(body, fuel - 1, host) {
                Ok(_) => {},
                Err(err) => { return Err(err); },
            }
            if self.returned() {
                return Ok(());
            }
            j = j + 1;
        }
        Ok(())
    }

    /// Iterations of a `while` loop; each one costs a step.
    pub fn while_loop<H: Host>(&mut self, cond: &Expr, body: &Block, fuel: u64, host: &mut H) -> (r: Result<(), NbclError>)
        ensures
            grows(old(self).host_calls@, final(self).host_calls@),
            final(self).import_features == old(self).import_features,
            frame_kept(old(self).deep_view(), final(self).deep_view(), r),
            unit_res(while_loop(old(self).deep_view(), *cond, *body, fuel as nat), final(self).deep_view(), r),
        decreases fuel,
    {
        let ghost whole = while_loop(self.deep_view(), *cond, *body, fuel as nat);
        let mut f: u64 = fuel;
        loop
            invariant
                grows(old(self).host_calls@, self.host_calls@),
                self.import_features == old(self).import_features,
                same_frame(old(self).deep_view(), self.deep_view()),
                f <= fuel,
                whole == while_loop(old(self).deep_view(), *cond, *body, fuel as nat),
                whole is Host || whole == while_loop(self.deep_view(), *cond, *body, f as nat),
            decreases f,
        {
            if f == 0 {
                return Err(step_error());
            }
            let c = match self.eval_expr(cond, f - 1, host) {
                Ok(v) => v,
                Err(err) => { return Err(err); },
            };
            if !c.is_truthy() || self.returned() {
                return Ok(());
            }
            match self.exec_block(body, f - 1, host) {
                Ok(_) => {},
                Err(err) => { return Err(err); },
            }
            if self.returned() {
                return Ok(());
            }
            f = f - 1;
        }
    }

    /// Runs a loop body.
    pub fn exec_block<H: Host>(&mut self, block: &Block, fuel: u64, host: &mut H) -> (r: Result<Value, NbclError>)
        ensures
            grows(old(self).host_calls@, final(self).host_calls@),
            final(self).import_features == old(self).import_features,
            frame_kept(old(self).deep_view(), final(self).deep_view(), r),
            val_res(exec_block(old(self).deep_view(), *block, fuel as nat), final(self).deep_view(), r),
        decreases fuel,
    {
        if fuel == 0 {
            return Err(step_error());
        }
        let returned = match self.block_stmts(&block.stmts, fuel - 1, host) {
            Ok(b) => b,
            Err(err) => { return Err(err); },
        };
        if returned {
            return Ok(Value::Null);
        }
        match &block.terminator {
            Some(e) => self.eval_expr(e, fuel - 1, host),
            None => Ok(Value::Null),
        }
    }

    /// Statements of a block until one returns; says whether one did.
    pub fn block_stmts<H: Host>(&mut self, stmts: &Vec<Stmt>, fuel: u64, host: &mut H) -> (r: Result<bool, NbclError>)
        ensures
            grows(old(self).host_calls@, final(self).host_calls@),
            final(self).import_features == old(self).import_features,
            frame_kept(old(self).deep_view(), final(self).deep_view(), r),
            flag_res(block_stmts(old(self).deep_view(), stmts@, 0, fuel as nat), final(self).deep_view(), r),
        decreases fuel,
    {
        let ghost whole = block_stmts(self.deep_view(), stmts@, 0, fuel as nat);
        if fuel == 0 {
            return Err(step_error());
        }
        let mut i: usize = 0;
        while i < stmts.len()
            invariant
                grows(old(self).host_calls@, self.host_calls@),
                self.import_features == old(self).import_features,
                same_frame(old(self).deep_view(), self.deep_view()),
                fuel > 0,
                i <= stmts@.len(),
                whole == block_stmts(old(self).deep_view(), stmts@, 0, fuel as nat),
                whole is Host || whole == block_stmts(self.deep_view(), stmts@, i as int, fuel as nat),
            decreases stmts@.len() - i,
        {
            match self.exec_stmt(&stmts[i], fuel - 1, host) {
                Ok(_) => {},
                Err(err) => { return Err(err); },
            }
            if self.returned() {
                return Ok(true);
            }
            i = i + 1;
        }
        Ok(false)
    }
}

} // verus!
