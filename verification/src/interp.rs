//! Evaluation of expressions, calls, `if` and `match`.
use vstd::prelude::*;
use std::rc::Rc;
use crate::ast::{BinaryOp, BodyItem, Branch, Expr, ExprKind, FnDef, IfExpr, Literal, MatchArm, MatchBody, UnaryOp};
use crate::error::{NbclError, Span, join_text, opt_string_view};
use crate::format::debug_value;
use crate::host::{Host, HostCall};
use crate::ops::{apply_binary_op, apply_negation, err_at, err_hint_at, step_error, value_out};
use crate::registry::{assoc_get, find_key, get_entry, keys_view, lemma_entries_deep_view, put_entry, share};
use crate::semantics::{
    Callee, invoke, arm_matches, bind_names, body_item, branch_items, call_user, call_value, empty_scope,
    eval_binary, eval_call, eval_else_ifs, eval_expr, eval_exprs, eval_if, eval_literal, eval_match,
    eval_pairs, field_result, first_arm, index_result, lemma_lift_empty, lemma_lift_step, lift,
    nodes_res, opt_value_view, pairs_res, range_result, resolve_callee, run_body, run_branch,
    run_stmts, unit_res, val_res, vals_res, err_res, dec_depth, missing_field_hint, scope_names, signature_hint,
    var_names,
};
use crate::builtins::{host_native_step, lemma_join_push};
use crate::state::{Binding, Evaluator, FlowControl, Out, SBinding, SFlow, SScope, SState, Scope, ScopeKind, err_core, lookup_var};
use crate::text::{concat2, concat3, i64_to_string, push_str, to_owned_string, usize_to_string};
use crate::utils::{find_best_match, names_view, suggestion};
use crate::value::{
    is_truthy_spec, ResolvedNode, SNode, SValue, Value, clone_value, extend_nodes, lemma_view_entries,
    lemma_view_entries_push, lemma_view_nodes, lemma_view_nodes_concat, lemma_view_values,
    lemma_view_values_push, str_eq, view_entries, view_nodes, view_values,
};

use crate::host::grows;
use crate::state::{frame_kept, frame_left, same_frame};

verus! {

/// What is known of any evaluation of `e` with `fuel` steps from state `st` and host log
/// `c0` that ends in state `st1`, log `c1` and result `r`, whatever the host replied: the
/// log only grows, a success keeps the scopes and the call depth, and the outcome is the
/// one the semantics gives where it gives one.
pub open spec fn expr_step(st: SState, c0: Seq<HostCall>, e: Expr, fuel: nat, st1: SState, c1: Seq<HostCall>,
    r: Result<Value, NbclError>) -> bool
{
    &&& grows(c0, c1)
    &&& frame_kept(st, st1, r)
    &&& val_res(eval_expr(st, e, fuel), st1, r)
}

/// What is known of any evaluation of the expressions `es` (from state `st` and host log
/// `c0`, to `st1`, `c1` and `r`), whatever the host replied.
pub open spec fn exprs_step(st: SState, c0: Seq<HostCall>, es: Seq<Expr>, fuel: nat, st1: SState, c1: Seq<HostCall>,
    r: Result<Vec<Value>, NbclError>) -> bool
{
    &&& grows(c0, c1)
    &&& frame_kept(st, st1, r)
    &&& vals_res(eval_exprs(st, es, 0, fuel), st1, r)
}

/// The function that a call of the variable `x` runs in state `s`: the function a lambda
/// bound to `x` names, or else `x` itself.
pub open spec fn called_name(s: SState, x: Seq<char>) -> Seq<char> {
    match lookup_var(s, x) {
        Some(SValue::Lambda(n)) => n,
        _ => x,
    }
}

/// A call of the variable `x` on `args`, made with `fuel` steps per stage from `st` (one
/// call level down) and host log `c0`, to `c1` and result `r`: the arguments are evaluated
/// first; if they all give values and the function called is a host-run native function,
/// the host is asked exactly once, with those values, when their number and types are
/// right (its reply being the result), and not at all otherwise.
pub open spec fn call_through(st: SState, c0: Seq<HostCall>, x: Seq<char>, args: Seq<Expr>, fuel: nat,
    c1: Seq<HostCall>, r: Result<Value, NbclError>) -> bool
{
    exists|s1: SState, cm: Seq<HostCall>, vres: Result<Vec<Value>, NbclError>|
        #[trigger] exprs_step(SState { depth: (st.depth + 1) as usize, ..st }, c0, args, fuel, s1, cm, vres)
        && match vres {
            Err(_) => r is Err && c1 == cm,
            Ok(vs) => match assoc_get(s1.reg.native_functions, called_name(s1, x)) {
                Some(sch) => host_native_step(sch, view_values(vs@), cm, c1, r),
                None => true,
            },
        }
}

/// The value `v` of the left operand decides `l op r` on its own.
pub open spec fn decides(op: BinaryOp, v: SValue) -> bool {
    (op == BinaryOp::Or && is_truthy_spec(v)) || (op == BinaryOp::And && !is_truthy_spec(v))
}

/// `l op r` (with `op` being `||` or `&&`) evaluated with `fuel` steps per operand from
/// `st` and `c0` to `fin`, `c1` and `res` short-circuits: the left operand is evaluated
/// first; an error there is the result; a value that decides is the result and nothing
/// more happens (the right operand is not evaluated); otherwise the result is that of
/// evaluating the right operand from where the left one ended.
pub open spec fn short_circuit(st: SState, c0: Seq<HostCall>, l: Expr, op: BinaryOp, r: Expr, fuel: nat,
    fin: SState, c1: Seq<HostCall>, res: Result<Value, NbclError>) -> bool
{
    exists|s1: SState, cm: Seq<HostCall>, lres: Result<Value, NbclError>|
        #[trigger] expr_step(st, c0, l, fuel, s1, cm, lres) && match lres {
            Err(_) => res == lres && fin == s1 && c1 == cm,
            Ok(lv) => if decides(op, lv@) {
                res == lres && fin == s1 && c1 == cm
            } else {
                expr_step(s1, cm, r, fuel, fin, c1, res)
            },
        }
}


/// `Did you mean "x"?` for the candidate closest to `name`, if one is close enough.
pub fn did_you_mean(name: &str, candidates: &Vec<String>) -> (r: Option<String>)
    ensures
        opt_string_view(r) == suggestion(name@, names_view(candidates@)),
{
    match find_best_match(name, candidates) {
        Some(s) => {
            let mut h = to_owned_string("Did you mean \"");
            push_str(&mut h, s.as_str());
            push_str(&mut h, "\"?");
            proof {
                reveal_strlit("Did you mean \"");
                reveal_strlit("\"?");
                assert(h@ =~= "Did you mean \""@ + s@ + "\"?"@);
            }
            Some(h)
        },
        None => None,
    }
}

/// The keys of an entry list, in order.
pub fn keys_of<T: DeepView>(entries: &Vec<(String, T)>) -> (r: Vec<String>)
    ensures
        names_view(r@) == keys_view(entries.deep_view()),
{
    let mut out: Vec<String> = Vec::new();
    push_keys(&mut out, entries);
    assert(names_view(out@) =~= keys_view(entries.deep_view()));
    out
}

/// Appends the keys of an entry list.
fn push_keys<T: DeepView>(out: &mut Vec<String>, entries: &Vec<(String, T)>)
    ensures
        names_view(final(out)@) == names_view(old(out)@) + keys_view(entries.deep_view()),
{
    let ghost start = names_view(out@);
    let mut k: usize = 0;
    while k < entries.len()
        invariant
            k <= entries@.len(),
            names_view(out@) == start + keys_view(entries.deep_view()).take(k as int),
        decreases entries@.len() - k,
    {
        let ghost before = out@;
        out.push(entries[k].0.clone());
        proof {
            assert(keys_view(entries.deep_view())[k as int] == entries@[k as int].0@);
            assert(keys_view(entries.deep_view()).take(k + 1) =~= keys_view(entries.deep_view()).take(k as int).push(entries@[k as int].0@));
            assert(names_view(out@) =~= names_view(before).push(entries@[k as int].0@));
        }
        k = k + 1;
    }
    assert(keys_view(entries.deep_view()).take(entries@.len() as int) =~= keys_view(entries.deep_view()));
}

/// The hint text "Signature: f(a, b)" for a user function.
fn signature_hint_text(name: &str, params: &Vec<String>) -> (r: String)
    ensures
        r@ == signature_hint(name@, params@),
{
    let ghost ps = names_view(params@);
    let mut hint = concat3("Signature: ", name, "(");
    let mut k: usize = 0;
    while k < params.len()
        invariant
            k <= params@.len(),
            ps == names_view(params@),
            hint@ == "Signature: "@ + name@ + "("@ + join_text(ps.take(k as int), ", "@),
        decreases params@.len() - k,
    {
        proof {
            assert(ps.take(k + 1) =~= ps.take(k as int).push(params@[k as int]@));
            lemma_join_push(ps.take(k as int), ", "@, params@[k as int]@);
        }
        if k > 0 {
            push_str(&mut hint, ", ");
        }
        push_str(&mut hint, params[k].as_str());
        k = k + 1;
    }
    push_str(&mut hint, ")");
    proof {
        reveal_strlit("Signature: ");
        reveal_strlit("(");
        reveal_strlit(")");
        reveal_strlit(", ");
        assert(ps.take(params@.len() as int) =~= ps);
    }
    hint
}

/// What a call's callee resolved to.
pub enum CalleeRes {
    Named(String, Vec<Value>),
    Early(Value),
}

/// An executable callee agrees with a callee outcome.
pub open spec fn callee_res(o: Out<(SState, Callee)>, fin: SState, r: Result<CalleeRes, NbclError>) -> bool {
    match o {
        Out::Done((s, Callee::Named(n, a))) => r matches Ok(CalleeRes::Named(m, b)) && m@ == n && view_values(b@) == a && fin == s,
        Out::Done((s, Callee::Early(v))) => r matches Ok(CalleeRes::Early(x)) && x@ == v && fin == s,
        Out::Fail(e) => err_res(e, r),
        Out::Host => true,
    }
}

/// An executable result agrees with a function-body outcome.
pub open spec fn body_res(o: Out<(SState, Seq<SNode>, Option<SValue>)>, fin: SState,
    r: Result<(Vec<ResolvedNode>, Option<Value>), NbclError>) -> bool
{
    match o {
        Out::Done((s, ns, im)) => r matches Ok((x, y)) && view_nodes(x@) == ns && opt_value_view(y) == im && fin == s,
        Out::Fail(e) => err_res(e, r),
        Out::Host => true,
    }
}

/// Field access on an evaluated value.
fn field_access<H: Host>(v: Value, field: &str, safe: bool, span: &Span, host: &mut H) -> (r: Result<Value, NbclError>)
    ensures
        value_out(field_result(v@, field@, safe, span@), r),
{
    match &v {
        Value::Dict(pairs) => {
            proof { lemma_entries_deep_view(*pairs); }
            match get_entry(pairs, field) {
                Some(x) => {
                    assert(x.deep_view() == x@);
                    Ok(clone_value(x))
                },
                None => {
                    if safe {
                        Ok(Value::Null)
                    } else {
                        let keys = keys_of(pairs);
                        let hint = match did_you_mean(field, &keys) {
                            Some(h) => h,
                            None => concat2("If this field is optional, try using the safe access operator: \"?.\"", field),
                        };
                        assert(hint@ == missing_field_hint(field@, view_entries(pairs@)));
                        Err(err_hint_at(concat2("map has no field: ", field), Some(hint), span))
                    }
                },
            }
        },
        _ => {
            if safe {
                match &v {
                    Value::Null => { return Ok(Value::Null); },
                    _ => {},
                }
            }
            let shown = debug_value(&v, host);
            let mut msg = concat3("cannot access field '", field, "' on non-map type: ");
            push_str(&mut msg, shown.as_str());
            Err(err_at(msg, span))
        },
    }
}

/// Indexing an evaluated value with an evaluated key.
fn index_access(t: Value, k: Value, span: &Span) -> (r: Result<Value, NbclError>)
    ensures
        value_out(index_result(t@, k@, span@), r),
{
    match (&t, &k) {
        (Value::List(l), Value::Int(i)) => {
            proof { lemma_view_values(l@); }
            if *i >= 0 && (*i as u64) < (l.len() as u64) {
                Ok(clone_value(&l[*i as usize]))
            } else {
                Err(err_at(concat3("index ", i64_to_string(*i).as_str(), " out of bounds"), span))
            }
        },
        (Value::Dict(m), Value::Str(s)) => {
            proof { lemma_entries_deep_view(*m); }
            match get_entry(m, s.as_str()) {
                Some(x) => {
                    assert(x.deep_view() == x@);
                    Ok(clone_value(x))
                },
                None => {
                    let keys = keys_of(m);
                    let hint = did_you_mean(s.as_str(), &keys);
                    Err(err_hint_at(concat3("key '", s.as_str(), "' not found in map"), hint, span))
                },
            }
        },
        _ => Err(err_at(to_owned_string("invalid index operation"), span)),
    }
}

/// A range from evaluated bounds.
fn range_value(a: Value, b: Value, inclusive: bool, span: &Span) -> (r: Result<Value, NbclError>)
    ensures
        value_out(range_result(a@, b@, inclusive, span@), r),
{
    match (a, b) {
        (Value::Int(x), Value::Int(y)) => {
            if !inclusive {
                Ok(Value::Range(x, y))
            } else if y == i64::MAX {
                Err(err_at(to_owned_string("integer overflow"), span))
            } else {
                Ok(Value::Range(x, y + 1))
            }
        },
        _ => Err(err_at(to_owned_string("range boundaries must be integers"), span)),
    }
}

/// Whether a match arm's pattern matches a value.
fn pattern_matches(pattern: &str, v: &Value) -> (r: bool)
    ensures
        r == arm_matches(pattern@, v@),
{
    if str_eq(pattern, "_") {
        return true;
    }
    match v {
        Value::Int(i) => str_eq(pattern, i64_to_string(*i).as_str()),
        Value::Bool(b) => if *b { str_eq(pattern, "true") } else { str_eq(pattern, "false") },
        Value::Str(s) => str_eq(pattern, s.as_str()),
        Value::Null => str_eq(pattern, "null"),
        _ => false,
    }
}

impl Evaluator {
    /// The names of all variables in scope and all globals.
    fn variable_names(&self) -> (r: Vec<String>)
        ensures
            names_view(r@) == var_names(self.deep_view()),
    {
        let ghost scopes = self.deep_view().scopes;
        let mut out: Vec<String> = Vec::new();
        let mut k: usize = 0;
        while k < self.scopes.len()
            invariant
                k <= self.scopes@.len(),
                scopes == self.deep_view().scopes,
                scopes.len() == self.scopes@.len(),
                names_view(out@) == scope_names(scopes.take(k as int)),
            decreases self.scopes@.len() - k,
        {
            push_keys(&mut out, &self.scopes[k].variables);
            proof {
                assert(scopes.take(k + 1).drop_last() =~= scopes.take(k as int));
                assert(scopes[k as int].vars == self.scopes@[k as int].variables.deep_view());
            }
            k = k + 1;
        }
        assert(scopes.take(self.scopes@.len() as int) =~= scopes);
        push_keys(&mut out, &self.registry.globals);
        out
    }

    /// Evaluates an expression.
    pub fn eval_expr<H: Host>(&mut self, e: &Expr, fuel: u64, host: &mut H) -> (r: Result<Value, NbclError>)
        ensures
            grows(old(self).host_calls@, final(self).host_calls@),
            final(self).import_features == old(self).import_features,
            frame_kept(old(self).deep_view(), final(self).deep_view(), r),
            val_res(eval_expr(old(self).deep_view(), *e, fuel as nat), final(self).deep_view(), r),
            fuel > 1 ==> match e.kind {
                ExprKind::Binary(l, op, rr) => (op == BinaryOp::Or || op == BinaryOp::And) ==> short_circuit(
                    old(self).deep_view(), old(self).host_calls@, *l, op, *rr, (fuel - 2) as nat,
                    final(self).deep_view(), final(self).host_calls@, r),
                ExprKind::Call(callee, args) => fuel > 2 && old(self).call_stack_depth < old(self).max_depth
                    ==> match callee.kind {
                        ExprKind::Variable(x) => call_through(old(self).deep_view(), old(self).host_calls@, x@, args@,
                            (fuel - 2) as nat, final(self).host_calls@, r),
                        _ => true,
                    },
                _ => true,
            },
        decreases fuel,
    {
        if fuel == 0 {
            return Err(step_error());
        }
        let f = fuel - 1;
        match &e.kind {
            ExprKind::Literal(lit) => self.eval_literal(lit, f, host),
            ExprKind::Variable(name) => match self.lookup(name.as_str()) {
                Some(v) => Ok(v),
                None => {
                    let names = self.variable_names();
                    let hint = did_you_mean(name.as_str(), &names);
                    Err(err_hint_at(concat2("undefined variable: ", name.as_str()), hint, &e.span))
                },
            },
            ExprKind::Binary(l, op, r) => self.eval_binary(l, op, r, &e.span, f, host),
            ExprKind::Unary(op, x) => {
                let v = match self.eval_expr(x, f, host) {
                    Ok(v) => v,
                    Err(err) => { return Err(err); },
                };
                match op {
                    UnaryOp::Not => Ok(Value::Bool(!v.is_truthy())),
                    UnaryOp::Neg => apply_negation(v, &Some(e.span.copy())),
                }
            },
            ExprKind::Field(src, field, safe) => {
                let v = match self.eval_expr(src, f, host) {
                    Ok(v) => v,
                    Err(err) => { return Err(err); },
                };
                field_access(v, field.as_str(), *safe, &e.span, host)
            },
            ExprKind::Index(t, k) => {
                let tv = match self.eval_expr(t, f, host) {
                    Ok(v) => v,
                    Err(err) => { return Err(err); },
                };
                let kv = match self.eval_expr(k, f, host) {
                    Ok(v) => v,
                    Err(err) => { return Err(err); },
                };
                index_access(tv, kv, &e.span)
            },
            ExprKind::Call(callee, args) => self.eval_call(callee, args, &e.span, f, host),
            ExprKind::Lambda(def) => {
                self.registry.register_function(share(def));
                Ok(Value::Lambda(def.name.clone()))
            },
            ExprKind::If(ife) => self.eval_if(ife, f, host),
            ExprKind::Match(subject, arms) => self.eval_match(subject, arms, f, host),
            ExprKind::Range(a, b, inclusive) => {
                let av = match self.eval_expr(a, f, host) {
                    Ok(v) => v,
                    Err(err) => { return Err(err); },
                };
                let bv = match self.eval_expr(b, f, host) {
                    Ok(v) => v,
                    Err(err) => { return Err(err); },
                };
                range_value(av, bv, *inclusive, &e.span)
            },
        }
    }

    /// Evaluates a literal.
    pub fn eval_literal<H: Host>(&mut self, lit: &Literal, fuel: u64, host: &mut H) -> (r: Result<Value, NbclError>)
        ensures
            grows(old(self).host_calls@, final(self).host_calls@),
            final(self).import_features == old(self).import_features,
            frame_kept(old(self).deep_view(), final(self).deep_view(), r),
            val_res(eval_literal(old(self).deep_view(), *lit, fuel as nat), final(self).deep_view(), r),
        decreases fuel,
    {
        if fuel == 0 {
            return Err(step_error());
        }
        match lit {
            Literal::Int(i) => Ok(Value::Int(*i)),
            Literal::Float(b) => Ok(Value::Float(*b)),
            Literal::Bool(b) => Ok(Value::Bool(*b)),
            Literal::Null => Ok(Value::Null),
            Literal::Str(s, ty) => Ok(Value::Str(self.string_value(s.as_str(), ty, host))),
            Literal::List(es) => match self.eval_exprs(es, fuel - 1, host) {
                Ok(vs) => Ok(Value::List(vs)),
                Err(err) => Err(err),
            },
            Literal::Dict(ps) => match self.eval_pairs(ps, fuel - 1, host) {
                Ok(kvs) => Ok(Value::Dict(kvs)),
                Err(err) => Err(err),
            },
        }
    }

    /// Evaluates a list of expressions, in order.
    pub fn eval_exprs<H: Host>(&mut self, es: &Vec<Expr>, fuel: u64, host: &mut H) -> (r: Result<Vec<Value>, NbclError>)
        ensures
            grows(old(self).host_calls@, final(self).host_calls@),
            final(self).import_features == old(self).import_features,
            frame_kept(old(self).deep_view(), final(self).deep_view(), r),
            vals_res(eval_exprs(old(self).deep_view(), es@, 0, fuel as nat), final(self).deep_view(), r),
        decreases fuel,
    {
        let ghost whole = eval_exprs(self.deep_view(), es@, 0, fuel as nat);
        if fuel == 0 {
            return Err(step_error());
        }
        let mut out: Vec<Value> = Vec::new();
        let mut i: usize = 0;
        assert(view_values(out@) =~= Seq::<SValue>::empty());
        assert(lift(Seq::<SValue>::empty(), whole) == whole) by {
            match whole {
                Out::Done((s, vs)) => { assert(Seq::<SValue>::empty() + vs =~= vs); },
                _ => {},
            }
        }
        while i < es.len()
            invariant
                grows(old(self).host_calls@, self.host_calls@),
                self.import_features == old(self).import_features,
                same_frame(old(self).deep_view(), self.deep_view()),
                fuel > 0,
                i <= es@.len(),
                whole == eval_exprs(old(self).deep_view(), es@, 0, fuel as nat),
                whole is Host || whole == lift(view_values(out@), eval_exprs(self.deep_view(), es@, i as int, fuel as nat)),
            decreases es@.len() - i,
        {
            let ghost cur = self.deep_view();
            let v = match self.eval_expr(&es[i], fuel - 1, host) {
                Ok(v) => v,
                Err(err) => { return Err(err); },
            };
            proof {
                lemma_view_values_push(out@, v);
                lemma_lift_step(view_values(out@), v@, eval_exprs(self.deep_view(), es@, i + 1, fuel as nat));
            }
            out.push(v);
            i = i + 1;
        }
        proof { lemma_lift_empty(view_values(out@), self.deep_view()); }
        Ok(out)
    }

    /// Evaluates the values of map entries, in order.
    pub fn eval_pairs<H: Host>(&mut self, ps: &Vec<(String, Expr)>, fuel: u64, host: &mut H) -> (r: Result<Vec<(String, Value)>, NbclError>)
        ensures
            grows(old(self).host_calls@, final(self).host_calls@),
            final(self).import_features == old(self).import_features,
            frame_kept(old(self).deep_view(), final(self).deep_view(), r),
            pairs_res(eval_pairs(old(self).deep_view(), ps@, 0, fuel as nat), final(self).deep_view(), r),
        decreases fuel,
    {
        let ghost whole = eval_pairs(self.deep_view(), ps@, 0, fuel as nat);
        if fuel == 0 {
            return Err(step_error());
        }
        let mut out: Vec<(String, Value)> = Vec::new();
        let mut i: usize = 0;
        assert(view_entries(out@) =~= Seq::<(Seq<char>, SValue)>::empty());
        assert(lift(Seq::<(Seq<char>, SValue)>::empty(), whole) == whole) by {
            match whole {
                Out::Done((s, vs)) => { assert(Seq::<(Seq<char>, SValue)>::empty() + vs =~= vs); },
                _ => {},
            }
        }
        while i < ps.len()
            invariant
                grows(old(self).host_calls@, self.host_calls@),
                self.import_features == old(self).import_features,
                same_frame(old(self).deep_view(), self.deep_view()),
                fuel > 0,
                i <= ps@.len(),
                whole == eval_pairs(old(self).deep_view(), ps@, 0, fuel as nat),
                whole is Host || whole == lift(view_entries(out@), eval_pairs(self.deep_view(), ps@, i as int, fuel as nat)),
            decreases ps@.len() - i,
        {
            let v = match self.eval_expr(&ps[i].1, fuel - 1, host) {
                Ok(v) => v,
                Err(err) => { return Err(err); },
            };
            let entry = (ps[i].0.clone(), v);
            proof {
                lemma_view_entries_push(out@, entry);
                lemma_lift_step(view_entries(out@), (ps@[i as int].0@, v@), eval_pairs(self.deep_view(), ps@, i + 1, fuel as nat));
            }
            out.push(entry);
            i = i + 1;
        }
        proof { lemma_lift_empty(view_entries(out@), self.deep_view()); }
        Ok(out)
    }

    /// Evaluates a binary operation; `||` and `&&` short-circuit.
    pub fn eval_binary<H: Host>(&mut self, l: &Expr, op: &BinaryOp, r: &Expr, span: &Span, fuel: u64, host: &mut H)
        -> (res: Result<Value, NbclError>)
        ensures
            grows(old(self).host_calls@, final(self).host_calls@),
            final(self).import_features == old(self).import_features,
            frame_kept(old(self).deep_view(), final(self).deep_view(), res),
            val_res(eval_binary(old(self).deep_view(), *l, *op, *r, span@, fuel as nat), final(self).deep_view(), res),
            fuel > 0 && (*op == BinaryOp::Or || *op == BinaryOp::And) ==> short_circuit(old(self).deep_view(),
                old(self).host_calls@, *l, *op, *r, (fuel - 1) as nat, final(self).deep_view(), final(self).host_calls@, res),
        decreases fuel,
    {
        if fuel == 0 {
            return Err(step_error());
        }
        let f = fuel - 1;
        let ghost st0 = self.deep_view();
        let ghost c0 = self.host_calls@;
        let lres = self.eval_expr(l, f, host);
        let ghost s1 = self.deep_view();
        let ghost cm = self.host_calls@;
        let ghost glres = lres;
        assert(expr_step(st0, c0, *l, f as nat, s1, cm, glres));
        let lv = match lres {
            Ok(v) => v,
            Err(err) => { return Err(err); },
        };
        match op {
            BinaryOp::Or => if lv.is_truthy() { Ok(lv) } else { self.eval_expr(r, f, host) },
            BinaryOp::And => if !lv.is_truthy() { Ok(lv) } else { self.eval_expr(r, f, host) },
            _ => {
                let rv = match self.eval_expr(r, f, host) {
                    Ok(v) => v,
                    Err(err) => { return Err(err); },
                };
                apply_binary_op(&lv, op, &rv, &Some(span.copy()), host)
            },
        }
    }

    /// Resolves the callee of a call after its arguments were evaluated.
    pub fn resolve_callee<H: Host>(&mut self, callee: &Expr, args: Vec<Value>, fuel: u64, host: &mut H)
        -> (r: Result<CalleeRes, NbclError>)
        ensures
            grows(old(self).host_calls@, final(self).host_calls@),
            final(self).import_features == old(self).import_features,
            r matches Ok(c) ==> if c is Early {
                frame_left(old(self).deep_view(), final(self).deep_view(), r)
            } else {
                same_frame(old(self).deep_view(), final(self).deep_view())
            },
            callee_res(resolve_callee(old(self).deep_view(), *callee, view_values(args@), fuel as nat), final(self).deep_view(), r),
            fuel > 0 ==> match callee.kind {
                ExprKind::Variable(x) => {
                    &&& final(self).host_calls@ == old(self).host_calls@
                    &&& final(self).deep_view() == old(self).deep_view()
                    &&& r matches Ok(CalleeRes::Named(n, vs))
                    &&& n@ == called_name(old(self).deep_view(), x@)
                    &&& vs@ == args@
                },
                _ => true,
            },
        decreases fuel,
    {
        if fuel == 0 {
            return Err(step_error());
        }
        let f = fuel - 1;
        match &callee.kind {
            ExprKind::Variable(name) => match self.lookup(name.as_str()) {
                Some(Value::Lambda(n)) => Ok(CalleeRes::Named(n, args)),
                _ => Ok(CalleeRes::Named(name.clone(), args)),
            },
            ExprKind::Field(src, field, safe) => {
                let recv = match self.eval_expr(src, f, host) {
                    Ok(v) => v,
                    Err(err) => { return Err(err); },
                };
                match &recv {
                    Value::Dict(pairs) => {
                        proof { lemma_entries_deep_view(*pairs); }
                        match get_entry(pairs, field.as_str()) {
                            Some(Value::Lambda(n)) => {
                                return Ok(CalleeRes::Named(n.clone(), args));
                            },
                            Some(other) => {
                                assert(other.deep_view() == other@);
                                let shown = debug_value(other, host);
                                let mut msg = concat3("field '", field.as_str(), "' is not a callable function, got: ");
                                push_str(&mut msg, shown.as_str());
                                return Err(err_at(msg, &callee.span));
                            },
                            None => {
                                if *safe {
                                    if self.call_stack_depth > 0 {
                                        self.call_stack_depth = self.call_stack_depth - 1;
                                    }
                                    return Ok(CalleeRes::Early(Value::Null));
                                }
                                return Err(err_at(concat2("map has no field: ", field.as_str()), &callee.span));
                            },
                        }
                    },
                    _ => {},
                }
                let mut all: Vec<Value> = Vec::new();
                all.push(recv);
                let mut rest = args;
                let ghost a0 = all@;
                let ghost b0 = rest@;
                all.append(&mut rest);
                proof {
                    lemma_view_values(all@);
                    lemma_view_values(b0);
                    assert(view_values(all@) =~= seq![a0[0]@] + view_values(b0));
                }
                Ok(CalleeRes::Named(field.clone(), all))
            },
            _ => {
                let v = match self.eval_expr(callee, f, host) {
                    Ok(v) => v,
                    Err(err) => { return Err(err); },
                };
                match v {
                    Value::Lambda(n) => Ok(CalleeRes::Named(n, args)),
                    _ => Err(err_at(to_owned_string("callee expression is not callable"), &callee.span)),
                }
            },
        }
    }

    /// Evaluates a call.
    #[verifier::rlimit(40)]
    pub fn eval_call<H: Host>(&mut self, callee: &Expr, args: &Vec<Expr>, span: &Span, fuel: u64, host: &mut H)
        -> (r: Result<Value, NbclError>)
        ensures
            grows(old(self).host_calls@, final(self).host_calls@),
            final(self).import_features == old(self).import_features,
            frame_kept(old(self).deep_view(), final(self).deep_view(), r),
            val_res(eval_call(old(self).deep_view(), *callee, args@, span@, fuel as nat), final(self).deep_view(), r),
            fuel > 1 && old(self).call_stack_depth < old(self).max_depth ==> match callee.kind {
                ExprKind::Variable(x) => call_through(old(self).deep_view(), old(self).host_calls@, x@, args@,
                    (fuel - 1) as nat, final(self).host_calls@, r),
                _ => true,
            },
        decreases fuel,
    {
        if fuel == 0 {
            return Err(step_error());
        }
        if self.call_stack_depth >= self.max_depth {
            let msg = concat3("maximum recursion depth of ", usize_to_string(self.max_depth).as_str(), " exceeded");
            return Err(err_hint_at(msg,
                Some(to_owned_string("Check for infinite recursion in your functions or increase the limit.")), &callee.span));
        }
        self.call_stack_depth = self.call_stack_depth + 1;
        let f = fuel - 1;
        let ghost st1 = self.deep_view();
        let ghost c0 = self.host_calls@;
        let vres = self.eval_exprs(args, f, host);
        let ghost s1 = self.deep_view();
        let ghost cm = self.host_calls@;
        let ghost gv = vres;
        assert(exprs_step(st1, c0, args@, f as nat, s1, cm, gv));
        let vals = match vres {
            Ok(v) => v,
            Err(err) => { return Err(err); },
        };
        let res = match self.resolve_callee(callee, vals, f, host) {
            Ok(x) => x,
            Err(err) => { return Err(err); },
        };
        match res {
            CalleeRes::Early(v) => Ok(v),
            CalleeRes::Named(name, vals2) => self.invoke(name.as_str(), vals2, span, &callee.span, f, host),
        }
    }

    /// Runs the function `name`: a native function if one has that name, else a user
    /// function.
    pub fn invoke<H: Host>(&mut self, name: &str, vals: Vec<Value>, span: &Span, callee_span: &Span, fuel: u64, host: &mut H)
        -> (r: Result<Value, NbclError>)
        ensures
            grows(old(self).host_calls@, final(self).host_calls@),
            final(self).import_features == old(self).import_features,
            frame_left(old(self).deep_view(), final(self).deep_view(), r),
            val_res(invoke(old(self).deep_view(), name@, view_values(vals@), span@, callee_span@, fuel as nat), final(self).deep_view(), r),
            fuel > 0 ==> match assoc_get(old(self).deep_view().reg.native_functions, name@) {
                Some(sch) => host_native_step(sch, view_values(vals@), old(self).host_calls@, final(self).host_calls@, r),
                None => true,
            },
        decreases fuel,
    {
        if fuel == 0 {
            return Err(step_error());
        }
        let native = match get_entry(&self.registry.native_functions, name) {
            Some(schema) => Some(schema.copy()),
            None => None,
        };
        match native {
            Some(schema) => self.native_call(name, &schema, vals, span, host),
            None => {
                let user = match get_entry(&self.registry.functions, name) {
                    Some(def) => Some(share(def)),
                    None => None,
                };
                match user {
                    None => {
                        let mut names = keys_of(&self.registry.native_functions);
                        push_keys(&mut names, &self.registry.functions);
                        let hint = did_you_mean(name, &names);
                        Err(err_hint_at(concat2("undefined function: ", name), hint, callee_span))
                    },
                    Some(def) => {
                        proof { lemma_view_values(vals@); }
                        if vals.len() != def.params.len() {
                            let msg = concat3(concat2("expected ", usize_to_string(def.params.len()).as_str()).as_str(),
                                " arguments, got ", usize_to_string(vals.len()).as_str());
                            let hint = signature_hint_text(name, &def.params);
                            Err(err_hint_at(msg, Some(hint), span))
                        } else {
                            self.call_user(&def, vals, fuel - 1, host)
                        }
                    },
                }
            },
        }
    }

    /// Runs a user function on arguments of the right number.
    #[verifier::spinoff_prover]
    #[verifier::rlimit(40)]
    pub(crate) fn call_user<H: Host>(&mut self, def: &Rc<FnDef>, args: Vec<Value>, fuel: u64, host: &mut H) -> (r: Result<Value, NbclError>)
        requires
            args@.len() == def.params@.len(),
        ensures
            grows(old(self).host_calls@, final(self).host_calls@),
            final(self).import_features == old(self).import_features,
            frame_left(old(self).deep_view(), final(self).deep_view(), r),
            val_res(call_user(old(self).deep_view(), **def, view_values(args@), fuel as nat), final(self).deep_view(), r),
        decreases fuel,
    {
        if fuel == 0 {
            return Err(step_error());
        }
        proof { lemma_view_values(args@); }
        let ghost vals = view_values(args@);
        let mut scope = Scope::new(ScopeKind::Function);
        let mut k: usize = 0;
        while k < def.params.len()
            invariant
                grows(old(self).host_calls@, self.host_calls@),
                self.import_features == old(self).import_features,
                same_frame(old(self).deep_view(), self.deep_view()),
                k <= def.params@.len(),
                args@.len() == def.params@.len(),
                vals == view_values(args@),
                vals.len() == args@.len(),
                forall|j: int| 0 <= j < args@.len() ==> #[trigger] vals[j] == args@[j]@,
                scope.kind == ScopeKind::Function,
                scope.variables.deep_view() == bind_names(def.params@, vals, false, k as int),
            decreases def.params@.len() - k,
        {
            let b = Binding { value: clone_value(&args[k]), is_const: false };
            put_entry(&mut scope.variables, def.params[k].clone(), b);
            k = k + 1;
        }
        self.push_scope(scope);
        let (nodes, implicit) = match self.run_body(&def.body, fuel - 1, host) {
            Ok(x) => x,
            Err(err) => { return Err(err); },
        };
        let explicit = match &self.flow {
            FlowControl::Return(v) => Some(clone_value(v)),
            FlowControl::Normal => None,
        };
        self.flow = FlowControl::Normal;
        self.pop_scope();
        if self.call_stack_depth > 0 {
            self.call_stack_depth = self.call_stack_depth - 1;
        }
        match implicit {
            Some(v) => Ok(v),
            None => match explicit {
                Some(v) => Ok(v),
                None => if nodes.len() > 0 {
                    Ok(Value::Node(nodes))
                } else {
                    proof { lemma_view_nodes(nodes@); }
                    Ok(Value::Null)
                },
            },
        }
    }

    /// Runs the items of a function body until one returns.
    pub fn run_body<H: Host>(&mut self, items: &Vec<BodyItem>, fuel: u64, host: &mut H)
        -> (r: Result<(Vec<ResolvedNode>, Option<Value>), NbclError>)
        ensures
            grows(old(self).host_calls@, final(self).host_calls@),
            final(self).import_features == old(self).import_features,
            frame_kept(old(self).deep_view(), final(self).deep_view(), r),
            body_res(run_body(old(self).deep_view(), items@, 0, Seq::empty(), None, fuel as nat), final(self).deep_view(), r),
        decreases fuel,
    {
        let ghost whole = run_body(self.deep_view(), items@, 0, Seq::empty(), None, fuel as nat);
        if fuel == 0 {
            return Err(step_error());
        }
        let mut nodes: Vec<ResolvedNode> = Vec::new();
        let mut implicit: Option<Value> = None;
        let mut i: usize = 0;
        assert(view_nodes(nodes@) =~= Seq::<SNode>::empty());
        while i < items.len()
            invariant
                grows(old(self).host_calls@, self.host_calls@),
                self.import_features == old(self).import_features,
                same_frame(old(self).deep_view(), self.deep_view()),
                fuel > 0,
                i <= items@.len(),
                whole == run_body(old(self).deep_view(), items@, 0, Seq::empty(), None, fuel as nat),
                whole is Host || whole == run_body(self.deep_view(), items@, i as int, view_nodes(nodes@), opt_value_view(implicit), fuel as nat),
            decreases items@.len() - i,
        {
            let last = i + 1 == items.len();
            let (n1, im1) = match self.body_item(&items[i], last, nodes, implicit, fuel - 1, host) {
                Ok(x) => x,
                Err(err) => { return Err(err); },
            };
            nodes = n1;
            implicit = im1;
            i = i + 1;
            match self.flow {
                FlowControl::Return(_) => { return Ok((nodes, implicit)); },
                FlowControl::Normal => {},
            }
        }
        Ok((nodes, implicit))
    }

    /// One item of a function body.
    pub fn body_item<H: Host>(&mut self, item: &BodyItem, last: bool, nodes: Vec<ResolvedNode>, implicit: Option<Value>,
        fuel: u64, host: &mut H) -> (r: Result<(Vec<ResolvedNode>, Option<Value>), NbclError>)
        ensures
            grows(old(self).host_calls@, final(self).host_calls@),
            final(self).import_features == old(self).import_features,
            frame_kept(old(self).deep_view(), final(self).deep_view(), r),
            body_res(body_item(old(self).deep_view(), *item, last, view_nodes(nodes@), opt_value_view(implicit), fuel as nat),
                final(self).deep_view(), r),
        decreases fuel,
    {
        if fuel == 0 {
            return Err(step_error());
        }
        let mut nodes = nodes;
        match item {
            BodyItem::Node(n) => {
                if last {
                    let ns = match self.resolve_node(n, fuel - 1, host) {
                        Ok(x) => x,
                        Err(err) => { return Err(err); },
                    };
                    extend_nodes(&mut nodes, ns);
                }
                Ok((nodes, implicit))
            },
            BodyItem::Stmt(x) => {
                let v = match self.exec_stmt(x, fuel - 1, host) {
                    Ok(v) => v,
                    Err(err) => { return Err(err); },
                };
                if last {
                    match v {
                        Value::Node(ns) => {
                            extend_nodes(&mut nodes, ns);
                            Ok((nodes, implicit))
                        },
                        _ => Ok((nodes, Some(v))),
                    }
                } else {
                    Ok((nodes, implicit))
                }
            },
        }
    }

    /// Evaluates an `if` expression.
    pub fn eval_if<H: Host>(&mut self, ife: &IfExpr, fuel: u64, host: &mut H) -> (r: Result<Value, NbclError>)
        ensures
            grows(old(self).host_calls@, final(self).host_calls@),
            final(self).import_features == old(self).import_features,
            frame_kept(old(self).deep_view(), final(self).deep_view(), r),
            val_res(eval_if(old(self).deep_view(), *ife, fuel as nat), final(self).deep_view(), r),
        decreases fuel,
    {
        if fuel == 0 {
            return Err(step_error());
        }
        let c = match self.eval_expr(&ife.condition, fuel - 1, host) {
            Ok(v) => v,
            Err(err) => { return Err(err); },
        };
        if c.is_truthy() {
            self.run_branch(&ife.then_branch, fuel - 1, host)
        } else {
            self.eval_else_ifs(ife, fuel - 1, host)
        }
    }

    /// The `else if` arms in order, then the `else` branch.
    pub fn eval_else_ifs<H: Host>(&mut self, ife: &IfExpr, fuel: u64, host: &mut H) -> (r: Result<Value, NbclError>)
        ensures
            grows(old(self).host_calls@, final(self).host_calls@),
            final(self).import_features == old(self).import_features,
            frame_kept(old(self).deep_view(), final(self).deep_view(), r),
            val_res(eval_else_ifs(old(self).deep_view(), *ife, 0, fuel as nat), final(self).deep_view(), r),
        decreases fuel,
    {
        let ghost whole = eval_else_ifs(self.deep_view(), *ife, 0, fuel as nat);
        if fuel == 0 {
            return Err(step_error());
        }
        let mut k: usize = 0;
        while k < ife.else_ifs.len()
            invariant
                grows(old(self).host_calls@, self.host_calls@),
                self.import_features == old(self).import_features,
                same_frame(old(self).deep_view(), self.deep_view()),
                fuel > 0,
                k <= ife.else_ifs@.len(),
                whole == eval_else_ifs(old(self).deep_view(), *ife, 0, fuel as nat),
                whole is Host || whole == eval_else_ifs(self.deep_view(), *ife, k as int, fuel as nat),
            decreases ife.else_ifs@.len() - k,
        {
            let c = match self.eval_expr(&ife.else_ifs[k].0, fuel - 1, host) {
                Ok(v) => v,
                Err(err) => { return Err(err); },
            };
            if c.is_truthy() {
                return self.run_branch(&ife.else_ifs[k].1, fuel - 1, host);
            }
            k = k + 1;
        }
        match &ife.else_branch {
            Some(b) => self.run_branch(b, fuel - 1, host),
            None => Ok(Value::Null),
        }
    }

    /// Runs a chosen branch in a block scope.
    pub fn run_branch<H: Host>(&mut self, b: &Branch, fuel: u64, host: &mut H) -> (r: Result<Value, NbclError>)
        ensures
            grows(old(self).host_calls@, final(self).host_calls@),
            final(self).import_features == old(self).import_features,
            frame_kept(old(self).deep_view(), final(self).deep_view(), r),
            val_res(run_branch(old(self).deep_view(), *b, fuel as nat), final(self).deep_view(), r),
        decreases fuel,
    {
        if fuel == 0 {
            return Err(step_error());
        }
        self.push_scope(Scope::new(ScopeKind::Block));
        let nodes = match self.branch_items(&b.body, fuel - 1, host) {
            Ok(x) => x,
            Err(err) => { return Err(err); },
        };
        match &b.result {
            Some(e) => {
                let v = match self.eval_expr(e, fuel - 1, host) {
                    Ok(v) => v,
                    Err(err) => { return Err(err); },
                };
                self.pop_scope();
                Ok(v)
            },
            None => {
                self.pop_scope();
                proof { lemma_view_nodes(nodes@); }
                if nodes.len() > 0 { Ok(Value::Node(nodes)) } else { Ok(Value::Null) }
            },
        }
    }

    /// The items of a branch; nodes they give are collected.
    pub fn branch_items<H: Host>(&mut self, items: &Vec<BodyItem>, fuel: u64, host: &mut H) -> (r: Result<Vec<ResolvedNode>, NbclError>)
        ensures
            grows(old(self).host_calls@, final(self).host_calls@),
            final(self).import_features == old(self).import_features,
            frame_kept(old(self).deep_view(), final(self).deep_view(), r),
            nodes_res(branch_items(old(self).deep_view(), items@, 0, Seq::empty(), fuel as nat), final(self).deep_view(), r),
        decreases fuel,
    {
        let ghost whole = branch_items(self.deep_view(), items@, 0, Seq::empty(), fuel as nat);
        if fuel == 0 {
            return Err(step_error());
        }
        let mut nodes: Vec<ResolvedNode> = Vec::new();
        assert(view_nodes(nodes@) =~= Seq::<SNode>::empty());
        let mut i: usize = 0;
        while i < items.len()
            invariant
                grows(old(self).host_calls@, self.host_calls@),
                self.import_features == old(self).import_features,
                same_frame(old(self).deep_view(), self.deep_view()),
                fuel > 0,
                i <= items@.len(),
                whole == branch_items(old(self).deep_view(), items@, 0, Seq::empty(), fuel as nat),
                whole is Host || whole == branch_items(self.deep_view(), items@, i as int, view_nodes(nodes@), fuel as nat),
            decreases items@.len() - i,
        {
            match &items[i] {
                BodyItem::Stmt(x) => {
                    let v = match self.exec_stmt(x, fuel - 1, host) {
                        Ok(v) => v,
                        Err(err) => { return Err(err); },
                    };
                    match v {
                        Value::Node(ns) => { extend_nodes(&mut nodes, ns); },
                        _ => {},
                    }
                },
                BodyItem::Node(n) => {
                    let ns = match self.resolve_node(n, fuel - 1, host) {
                        Ok(x) => x,
                        Err(err) => { return Err(err); },
                    };
                    extend_nodes(&mut nodes, ns);
                },
            }
            i = i + 1;
        }
        Ok(nodes)
    }

    /// Evaluates a `match` expression.
    pub fn eval_match<H: Host>(&mut self, subject: &Expr, arms: &Vec<MatchArm>, fuel: u64, host: &mut H) -> (r: Result<Value, NbclError>)
        ensures
            grows(old(self).host_calls@, final(self).host_calls@),
            final(self).import_features == old(self).import_features,
            frame_kept(old(self).deep_view(), final(self).deep_view(), r),
            val_res(eval_match(old(self).deep_view(), *subject, arms@, fuel as nat), final(self).deep_view(), r),
        decreases fuel,
    {
        if fuel == 0 {
            return Err(step_error());
        }
        let f = fuel - 1;
        let v = match self.eval_expr(subject, f, host) {
            Ok(v) => v,
            Err(err) => { return Err(err); },
        };
        let mut k: usize = 0;
        while k < arms.len() && !(pattern_matches(arms[k].pattern.as_str(), &v) || arms[k].is_var)
            invariant
                grows(old(self).host_calls@, self.host_calls@),
                self.import_features == old(self).import_features,
                same_frame(old(self).deep_view(), self.deep_view()),
                k <= arms@.len(),
                first_arm(arms@, v@, 0) == first_arm(arms@, v@, k as int),
            decreases arms@.len() - k,
        {
            k = k + 1;
        }
        let mut scope = Scope::new(ScopeKind::Block);
        if k < arms.len() && arms[k].is_var {
            scope.variables.push((arms[k].pattern.clone(), Binding { value: clone_value(&v), is_const: false }));
            assert(scope.variables.deep_view() =~= seq![(arms@[k as int].pattern@, SBinding { value: v@, is_const: false })]);
        }
        self.push_scope(scope);
        if k < arms.len() {
            match &arms[k].body {
                MatchBody::Expr(e) => {
                    let r = match self.eval_expr(e, f, host) {
                        Ok(x) => x,
                        Err(err) => { return Err(err); },
                    };
                    self.pop_scope();
                    Ok(r)
                },
                MatchBody::Block(stmts, fin) => {
                    match self.run_stmts(stmts, f, host) {
                        Ok(()) => {},
                        Err(err) => { return Err(err); },
                    }
                    match fin {
                        Some(e) => {
                            let r = match self.eval_expr(e, f, host) {
                                Ok(x) => x,
                                Err(err) => { return Err(err); },
                            };
                            self.pop_scope();
                            Ok(r)
                        },
                        None => {
                            self.pop_scope();
                            Ok(Value::Null)
                        },
                    }
                },
            }
        } else {
            self.pop_scope();
            Ok(Value::Null)
        }
    }

    /// Runs statements in order, dropping their values.
    pub fn run_stmts<H: Host>(&mut self, stmts: &Vec<crate::ast::Stmt>, fuel: u64, host: &mut H) -> (r: Result<(), NbclError>)
        ensures
            grows(old(self).host_calls@, final(self).host_calls@),
            final(self).import_features == old(self).import_features,
            frame_kept(old(self).deep_view(), final(self).deep_view(), r),
            unit_res(run_stmts(old(self).deep_view(), stmts@, 0, fuel as nat), final(self).deep_view(), r),
        decreases fuel,
    {
        let ghost whole = run_stmts(self.deep_view(), stmts@, 0, fuel as nat);
        if fuel == 0 {
            return Err(step_error());
        }
        let mut i: usize = 0;
        while i < stmts.len()
            invariant
                grows(old(self).host_calls@, self.host_calls@),
                self.import_features == old(self).import_features,
                same_frame(old(self).deep_view(), self.deep_view()),
                fuel > 0,
                i <= stmts@.len(),
                whole == run_stmts(old(self).deep_view(), stmts@, 0, fuel as nat),
                whole is Host || whole == run_stmts(self.deep_view(), stmts@, i as int, fuel as nat),
            decreases stmts@.len() - i,
        {
            match self.exec_stmt(&stmts[i], fuel - 1, host) {
                Ok(_) => {},
                Err(err) => { return Err(err); },
            }
            i = i + 1;
        }
        Ok(())
    }
}

} // verus!
