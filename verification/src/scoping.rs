//! What evaluation keeps: every construct that opens a scope (a call, a branch, a
//! loop, a match arm, a component body) closes it again, every call gives its depth
//! level back, and the setup that the host made (nodes, native functions, components,
//! globals, libraries) is left alone.
use vstd::prelude::*;
use crate::ast::{
    BinaryOp, Block, BodyItem, Branch, ComponentDef, Expr, ExprKind, FnDef, IfExpr, Literal, MatchArm, MatchBody,
    NodeInvocation, NodeItem, ReturnType, Stmt,
};
use crate::error::SSpan;
use crate::registry::{SNativeFn, SRegistry, assoc_get, first_key_index};
use crate::semantics::{
    Callee, assign_field, assign_index, assign_var, bind_list_patterns, bind_range_patterns, block_stmts,
    body_item, branch_items, builtin_result, call_user, check_constraints, component_id, component_vars,
    empty_scope, eval_binary, eval_call, eval_else_ifs, eval_expr, eval_exprs, eval_if, eval_literal,
    eval_match, eval_pairs, exec_assign, exec_block, exec_for, exec_stmt, expand_component, first_arm,
    for_list, for_range, invoke, list_loop, native_call, node_id, node_item, node_items, range_loop, reassign,
    resolve_callee, resolve_node, return_value, run_body, run_branch, run_stmts, while_loop,
};
use crate::state::{Out, SBinding, SScope, SState, ScopeKind, lemma_scope_with, push_scope};
use crate::value::{SNode, SValue, is_truthy_spec};

verus! {

/// What evaluating code leaves as it was: the number of scopes, every part of the
/// registry but the user functions (a lambda adds one), the depth limit, the imported
/// files and the counter of internal names; and the lines already printed (printing
/// only appends).
pub open spec fn preserved(st: SState, s1: SState) -> bool {
    &&& s1.scopes.len() == st.scopes.len()
    &&& s1.reg == SRegistry { functions: s1.reg.functions, ..st.reg }
    &&& s1.max_depth == st.max_depth
    &&& s1.loaded == st.loaded
    &&& s1.anon == st.anon
    &&& st.output.len() <= s1.output.len()
    &&& forall|i: int| 0 <= i < st.output.len() ==> #[trigger] s1.output[i] == st.output[i]
}

/// A successful outcome ends in a state that `preserved` relates to `st`, at the call
/// depth of `st`.
pub open spec fn kept<T>(st: SState, o: Out<(SState, T)>) -> bool {
    o matches Out::Done((s1, _)) ==> preserved(st, s1) && s1.depth == st.depth
}

/// A successful state outcome is a state that `preserved` relates to `st`, at the call
/// depth of `st`.
pub open spec fn kept_state(st: SState, o: Out<SState>) -> bool {
    o matches Out::Done(s1) ==> preserved(st, s1) && s1.depth == st.depth
}

/// A successful three-part outcome ends in a state that `preserved` relates to `st`,
/// at the call depth of `st`.
pub open spec fn kept3<A, B>(st: SState, o: Out<(SState, A, B)>) -> bool {
    o matches Out::Done((s1, _, _)) ==> preserved(st, s1) && s1.depth == st.depth
}

/// The call depth after leaving a call made at depth `d`.
pub open spec fn left(d: usize) -> usize {
    if d > 0 { (d - 1) as usize } else { 0usize }
}

/// A successful outcome of running a function ends in a state that `preserved` relates
/// to `st`, one call level up.
pub open spec fn kept_call<T>(st: SState, o: Out<(SState, T)>) -> bool {
    o matches Out::Done((s1, _)) ==> preserved(st, s1) && s1.depth == left(st.depth)
}

/// Scopes are balanced and the host's setup stays as it was: an expression, a statement
/// or a node invocation that evaluates successfully leaves exactly as many scopes as it
/// found (every call, branch, loop, match arm and component body closes the scope it
/// opens), ends at the call depth it started at (every call gives its level back),
/// changes neither the native nodes, native functions, components, globals and
/// libraries, nor the current file, the depth limit or the imported files, and only
/// appends to the printed output.
pub proof fn law_scopes_and_setup_kept(st: SState, e: Expr, s: Stmt, inv: NodeInvocation, fuel: nat)
    ensures
        kept(st, eval_expr(st, e, fuel)),
        kept(st, exec_stmt(st, s, fuel)),
        kept(st, resolve_node(st, inv, fuel)),
{
    lemma_expr(st, e, fuel);
    lemma_stmt(st, s, fuel);
    lemma_resolve_node(st, inv, fuel);
}

proof fn lemma_expr(st: SState, e: Expr, fuel: nat)
    ensures
        kept(st, eval_expr(st, e, fuel)),
    decreases fuel, 0int,
{
    if fuel > 0 {
        let f = (fuel - 1) as nat;
        let span = e.span@;
        match e.kind {
            ExprKind::Literal(lit) => lemma_literal(st, lit, f),
            ExprKind::Binary(l, op, r) => lemma_binary(st, *l, op, *r, span, f),
            ExprKind::Unary(_, x) => lemma_expr(st, *x, f),
            ExprKind::Field(src, _, _) => lemma_expr(st, *src, f),
            ExprKind::Index(t, k) => {
                let (t, k) = (*t, *k);
                lemma_expr(st, t, f);
                if let Out::Done((s1, _)) = eval_expr(st, t, f) {
                    lemma_expr(s1, k, f);
                }
            },
            ExprKind::Call(callee, args) => lemma_call(st, *callee, args@, span, f),
            ExprKind::If(ife) => lemma_if(st, *ife, f),
            ExprKind::Match(subject, arms) => lemma_match(st, *subject, arms@, f),
            ExprKind::Range(a, b, _) => {
                let (a, b) = (*a, *b);
                lemma_expr(st, a, f);
                if let Out::Done((s1, _)) = eval_expr(st, a, f) {
                    lemma_expr(s1, b, f);
                }
            },
            _ => {},
        }
    }
}

proof fn lemma_literal(st: SState, lit: Literal, fuel: nat)
    ensures
        kept(st, eval_literal(st, lit, fuel)),
    decreases fuel, 0int,
{
    if fuel > 0 {
        let f = (fuel - 1) as nat;
        match lit {
            Literal::List(es) => lemma_exprs(st, es@, 0, f),
            Literal::Dict(ps) => lemma_pairs(st, ps@, 0, f),
            _ => {},
        }
    }
}

proof fn lemma_exprs(st: SState, es: Seq<Expr>, i: int, fuel: nat)
    ensures
        kept(st, eval_exprs(st, es, i, fuel)),
    decreases fuel, es.len() - i,
{
    if fuel > 0 && 0 <= i < es.len() {
        lemma_expr(st, es[i], (fuel - 1) as nat);
        if let Out::Done((s1, _)) = eval_expr(st, es[i], (fuel - 1) as nat) {
            lemma_exprs(s1, es, i + 1, fuel);
        }
    }
}

proof fn lemma_pairs(st: SState, ps: Seq<(String, Expr)>, i: int, fuel: nat)
    ensures
        kept(st, eval_pairs(st, ps, i, fuel)),
    decreases fuel, ps.len() - i,
{
    if fuel > 0 && 0 <= i < ps.len() {
        lemma_expr(st, ps[i].1, (fuel - 1) as nat);
        if let Out::Done((s1, _)) = eval_expr(st, ps[i].1, (fuel - 1) as nat) {
            lemma_pairs(s1, ps, i + 1, fuel);
        }
    }
}

proof fn lemma_binary(st: SState, l: Expr, op: BinaryOp, r: Expr, span: SSpan, fuel: nat)
    ensures
        kept(st, eval_binary(st, l, op, r, span, fuel)),
    decreases fuel, 0int,
{
    if fuel > 0 {
        let f = (fuel - 1) as nat;
        lemma_expr(st, l, f);
        if let Out::Done((s1, _)) = eval_expr(st, l, f) {
            lemma_expr(s1, r, f);
        }
    }
}

proof fn lemma_resolve_callee(st: SState, callee: Expr, args: Seq<SValue>, fuel: nat)
    ensures
        resolve_callee(st, callee, args, fuel) matches Out::Done((s1, c)) ==> preserved(st, s1)
            && s1.depth == if c is Early { left(st.depth) } else { st.depth },
    decreases fuel, 0int,
{
    if fuel > 0 {
        let f = (fuel - 1) as nat;
        match callee.kind {
            ExprKind::Variable(_) => {},
            ExprKind::Field(src, _, _) => lemma_expr(st, *src, f),
            _ => lemma_expr(st, callee, f),
        }
    }
}

proof fn lemma_call(st: SState, callee: Expr, args: Seq<Expr>, span: SSpan, fuel: nat)
    ensures
        kept(st, eval_call(st, callee, args, span, fuel)),
    decreases fuel, 0int,
{
    if fuel > 0 && st.depth < st.max_depth {
        let f = (fuel - 1) as nat;
        let s0 = SState { depth: (st.depth + 1) as usize, ..st };
        lemma_exprs(s0, args, 0, f);
        if let Out::Done((s1, vals)) = eval_exprs(s0, args, 0, f) {
            lemma_resolve_callee(s1, callee, vals, f);
            if let Out::Done((s2, Callee::Named(name, vals2))) = resolve_callee(s1, callee, vals, f) {
                lemma_invoke(s2, name, vals2, span, callee.span@, f);
            }
        }
    }
}

proof fn lemma_native(st: SState, name: Seq<char>, schema: SNativeFn, args: Seq<SValue>, span: SSpan)
    ensures
        kept_call(st, native_call(st, name, schema, args, span)),
{
    reveal(native_call);
    reveal(builtin_result);
}

proof fn lemma_invoke(st: SState, name: Seq<char>, args: Seq<SValue>, span: SSpan, callee_span: SSpan, fuel: nat)
    ensures
        kept_call(st, invoke(st, name, args, span, callee_span, fuel)),
    decreases fuel, 0int,
{
    if fuel > 0 {
        match assoc_get(st.reg.native_functions, name) {
            Some(schema) => lemma_native(st, name, schema, args, span),
            None => match assoc_get(st.reg.functions, name) {
                Some(def) => if args.len() == def.params@.len() {
                    lemma_call_user(st, def, args, (fuel - 1) as nat);
                },
                None => {},
            },
        }
    }
}

proof fn lemma_call_user(st: SState, def: FnDef, args: Seq<SValue>, fuel: nat)
    ensures
        kept_call(st, call_user(st, def, args, fuel)),
    decreases fuel, 0int,
{
    if fuel > 0 {
        let scope = SScope { vars: crate::semantics::bind_names(def.params@, args, false, def.params@.len() as int), kind: ScopeKind::Function };
        lemma_run_body(push_scope(st, scope), def.body@, 0, Seq::empty(), None, (fuel - 1) as nat);
    }
}

proof fn lemma_body_item(st: SState, item: BodyItem, last: bool, nodes: Seq<SNode>, implicit: Option<SValue>, fuel: nat)
    ensures
        kept3(st, body_item(st, item, last, nodes, implicit, fuel)),
    decreases fuel, 0int,
{
    if fuel > 0 {
        let f = (fuel - 1) as nat;
        match item {
            BodyItem::Node(n) => if last { lemma_resolve_node(st, n, f); },
            BodyItem::Stmt(x) => lemma_stmt(st, x, f),
        }
    }
}

proof fn lemma_run_body(st: SState, items: Seq<BodyItem>, i: int, nodes: Seq<SNode>, implicit: Option<SValue>, fuel: nat)
    ensures
        kept3(st, run_body(st, items, i, nodes, implicit, fuel)),
    decreases fuel, items.len() - i,
{
    if fuel > 0 && 0 <= i < items.len() {
        let last = i == items.len() - 1;
        lemma_body_item(st, items[i], last, nodes, implicit, (fuel - 1) as nat);
        if let Out::Done((s1, n1, im1)) = body_item(st, items[i], last, nodes, implicit, (fuel - 1) as nat) {
            lemma_run_body(s1, items, i + 1, n1, im1, fuel);
        }
    }
}

proof fn lemma_if(st: SState, ife: IfExpr, fuel: nat)
    ensures
        kept(st, eval_if(st, ife, fuel)),
    decreases fuel, 0int,
{
    if fuel > 0 {
        let f = (fuel - 1) as nat;
        lemma_expr(st, ife.condition, f);
        if let Out::Done((s1, c)) = eval_expr(st, ife.condition, f) {
            if is_truthy_spec(c) {
                lemma_branch(s1, ife.then_branch, f);
            } else {
                lemma_else_ifs(s1, ife, 0, f);
            }
        }
    }
}

proof fn lemma_else_ifs(st: SState, ife: IfExpr, k: int, fuel: nat)
    ensures
        kept(st, eval_else_ifs(st, ife, k, fuel)),
    decreases fuel, ife.else_ifs@.len() - k,
{
    if fuel > 0 {
        let f = (fuel - 1) as nat;
        if k < 0 || k >= ife.else_ifs@.len() {
            if let Some(b) = ife.else_branch {
                lemma_branch(st, b, f);
            }
        } else {
            lemma_expr(st, ife.else_ifs@[k].0, f);
            if let Out::Done((s1, c)) = eval_expr(st, ife.else_ifs@[k].0, f) {
                if is_truthy_spec(c) {
                    lemma_branch(s1, ife.else_ifs@[k].1, f);
                } else {
                    lemma_else_ifs(s1, ife, k + 1, fuel);
                }
            }
        }
    }
}

proof fn lemma_branch(st: SState, b: Branch, fuel: nat)
    ensures
        kept(st, run_branch(st, b, fuel)),
    decreases fuel, 0int,
{
    if fuel > 0 {
        let f = (fuel - 1) as nat;
        let s0 = push_scope(st, empty_scope(ScopeKind::Block));
        lemma_branch_items(s0, b.body@, 0, Seq::empty(), f);
        if let Out::Done((s1, _)) = branch_items(s0, b.body@, 0, Seq::empty(), f) {
            if let Some(e) = b.result {
                lemma_expr(s1, e, f);
            }
        }
    }
}

proof fn lemma_branch_items(st: SState, items: Seq<BodyItem>, i: int, nodes: Seq<SNode>, fuel: nat)
    ensures
        kept(st, branch_items(st, items, i, nodes, fuel)),
    decreases fuel, items.len() - i,
{
    if fuel > 0 && 0 <= i < items.len() {
        let f = (fuel - 1) as nat;
        match items[i] {
            BodyItem::Stmt(x) => {
                lemma_stmt(st, x, f);
                if let Out::Done((s1, v)) = exec_stmt(st, x, f) {
                    lemma_branch_items(s1, items, i + 1, match v { SValue::Node(ns) => nodes + ns, _ => nodes }, fuel);
                }
            },
            BodyItem::Node(n) => {
                lemma_resolve_node(st, n, f);
                if let Out::Done((s1, ns)) = resolve_node(st, n, f) {
                    lemma_branch_items(s1, items, i + 1, nodes + ns, fuel);
                }
            },
        }
    }
}

proof fn lemma_match(st: SState, subject: Expr, arms: Seq<MatchArm>, fuel: nat)
    ensures
        kept(st, eval_match(st, subject, arms, fuel)),
    decreases fuel, 0int,
{
    if fuel > 0 {
        let f = (fuel - 1) as nat;
        lemma_expr(st, subject, f);
        if let Out::Done((s1, v)) = eval_expr(st, subject, f) {
            let k = first_arm(arms, v, 0);
            let vars = if k < arms.len() && arms[k].is_var {
                seq![(arms[k].pattern@, SBinding { value: v, is_const: false })]
            } else {
                Seq::empty()
            };
            let s2 = push_scope(s1, SScope { vars, kind: ScopeKind::Block });
            if k < arms.len() {
                match arms[k].body {
                    MatchBody::Expr(e) => lemma_expr(s2, e, f),
                    MatchBody::Block(stmts, fin) => {
                        lemma_stmts(s2, stmts@, 0, f);
                        if let Out::Done(s3) = run_stmts(s2, stmts@, 0, f) {
                            if let Some(e) = fin {
                                lemma_expr(s3, e, f);
                            }
                        }
                    },
                }
            }
        }
    }
}

proof fn lemma_stmts(st: SState, stmts: Seq<Stmt>, i: int, fuel: nat)
    ensures
        kept_state(st, run_stmts(st, stmts, i, fuel)),
    decreases fuel, stmts.len() - i,
{
    if fuel > 0 && 0 <= i < stmts.len() {
        lemma_stmt(st, stmts[i], (fuel - 1) as nat);
        if let Out::Done((s1, _)) = exec_stmt(st, stmts[i], (fuel - 1) as nat) {
            lemma_stmts(s1, stmts, i + 1, fuel);
        }
    }
}

proof fn lemma_stmt(st: SState, stmt: Stmt, fuel: nat)
    ensures
        kept(st, exec_stmt(st, stmt, fuel)),
    decreases fuel, 0int,
{
    if fuel > 0 && !(st.flow is Return) {
        let f = (fuel - 1) as nat;
        match stmt {
            Stmt::Expr(e) => lemma_expr(st, e, f),
            Stmt::Return(ret, _) => lemma_return_value(st, ret, f),
            Stmt::Const(_, e) => lemma_expr(st, e, f),
            Stmt::Let(_, e) => lemma_expr(st, e, f),
            Stmt::Assign(lhs, op, rhs, span) => lemma_assign(st, lhs, op, rhs, span@, f),
            Stmt::For(pats, it, body) => lemma_for(st, pats@, it, body, f),
            Stmt::While(cond, body) => lemma_while(push_scope(st, empty_scope(ScopeKind::Block)), cond, body, f),
        }
    }
}

proof fn lemma_return_value(st: SState, ret: Option<ReturnType>, fuel: nat)
    ensures
        kept(st, return_value(st, ret, fuel)),
    decreases fuel, 0int,
{
    if fuel > 0 {
        match ret {
            Some(ReturnType::Expr(e)) => lemma_expr(st, e, (fuel - 1) as nat),
            Some(ReturnType::Node(n)) => lemma_resolve_node(st, n, (fuel - 1) as nat),
            None => {},
        }
    }
}

proof fn lemma_assign(st: SState, lhs: Expr, op: crate::ast::AssignOp, rhs: Expr, span: SSpan, fuel: nat)
    ensures
        kept(st, exec_assign(st, lhs, op, rhs, span, fuel)),
    decreases fuel, 0int,
{
    if fuel > 0 {
        let f = (fuel - 1) as nat;
        lemma_expr(st, rhs, f);
        if let Out::Done((s1, nv)) = eval_expr(st, rhs, f) {
            match lhs.kind {
                ExprKind::Variable(name) => lemma_assign_var(s1, name@, op, nv, span),
                ExprKind::Field(base, field, _) => lemma_assign_field(s1, *base, field@, op, nv, span, f),
                ExprKind::Index(base, idx) => lemma_assign_index(s1, *base, *idx, op, nv, span, f),
                _ => {},
            }
        }
    }
}

proof fn lemma_assign_var(st: SState, name: Seq<char>, op: crate::ast::AssignOp, nv: SValue, span: SSpan)
    ensures
        kept(st, assign_var(st, name, op, nv, span)),
{
    lemma_scope_with(st.scopes, name);
}

proof fn lemma_assign_field(st: SState, base: Expr, field: Seq<char>, op: crate::ast::AssignOp, nv: SValue, span: SSpan, fuel: nat)
    ensures
        kept(st, assign_field(st, base, field, op, nv, span, fuel)),
    decreases fuel, 0int,
{
    if fuel > 0 {
        let f = (fuel - 1) as nat;
        lemma_expr(st, base, f);
        if let Out::Done((s2, tv)) = eval_expr(st, base, f) {
            if let SValue::Dict(entries) = tv {
                match first_key_index(entries, field) {
                    Some(p) => if let Out::Done(u) = crate::ops::assign_result(entries[p].1, op, nv, Some(span)) {
                        lemma_reassign(s2, base, SValue::Dict(entries.update(p, (field, u))), f);
                    },
                    None => {
                        lemma_reassign(s2, base, SValue::Dict(entries.push((field, nv))), f);
                    },
                }
            }
        }
    }
}

proof fn lemma_assign_index(st: SState, base: Expr, idx: Expr, op: crate::ast::AssignOp, nv: SValue, span: SSpan, fuel: nat)
    ensures
        kept(st, assign_index(st, base, idx, op, nv, span, fuel)),
    decreases fuel, 0int,
{
    if fuel > 0 {
        let f = (fuel - 1) as nat;
        lemma_expr(st, base, f);
        if let Out::Done((s2, tv)) = eval_expr(st, base, f) {
            lemma_expr(s2, idx, f);
            if let Out::Done((s3, iv)) = eval_expr(s2, idx, f) {
                if let (SValue::List(items), SValue::Int(k)) = (tv, iv) {
                    if 0 <= k < items.len() {
                        if let Out::Done(u) = crate::ops::assign_result(items[k as int], op, nv, Some(span)) {
                            lemma_reassign(s3, base, SValue::List(items.update(k as int, u)), f);
                        }
                    }
                }
            }
        }
    }
}

proof fn lemma_reassign(st: SState, lhs: Expr, value: SValue, fuel: nat)
    ensures
        kept_state(st, reassign(st, lhs, value, fuel)),
    decreases fuel, 0int,
{
    if fuel > 0 {
        let f = (fuel - 1) as nat;
        match lhs.kind {
            ExprKind::Variable(name) => lemma_scope_with(st.scopes, name@),
            ExprKind::Field(base, field, _) => {
                let base = *base;
                lemma_expr(st, base, f);
                if let Out::Done((s1, p)) = eval_expr(st, base, f) {
                    if let SValue::Dict(es) = p {
                        lemma_reassign(s1, base, SValue::Dict(crate::registry::assoc_put(es, field@, value)), f);
                    }
                }
            },
            ExprKind::Index(base, idx) => {
                let (base, idx) = (*base, *idx);
                lemma_expr(st, base, f);
                if let Out::Done((s1, p)) = eval_expr(st, base, f) {
                    lemma_expr(s1, idx, f);
                    if let Out::Done((s2, iv)) = eval_expr(s1, idx, f) {
                        if let (SValue::List(items), SValue::Int(k)) = (p, iv) {
                            if 0 <= k < items.len() {
                                lemma_reassign(s2, base, SValue::List(items.update(k as int, value)), f);
                            }
                        }
                    }
                }
            },
            _ => {},
        }
    }
}

proof fn lemma_for(st: SState, pats: Seq<String>, it: Expr, body: Block, fuel: nat)
    ensures
        kept(st, exec_for(st, pats, it, body, fuel)),
    decreases fuel, 0int,
{
    if fuel > 0 {
        let f = (fuel - 1) as nat;
        lemma_expr(st, it, f);
        if let Out::Done((s1, iv)) = eval_expr(st, it, f) {
            match iv {
                SValue::Range(a, b) => lemma_for_range(s1, pats, a as int, b as int, body, f),
                SValue::List(items) => lemma_for_list(s1, pats, items, body, f),
                _ => {},
            }
        }
    }
}

proof fn lemma_for_range(st: SState, pats: Seq<String>, a: int, b: int, body: Block, fuel: nat)
    ensures
        kept(st, for_range(st, pats, a, b, body, fuel)),
    decreases fuel, 0int,
{
    if fuel > 0 {
        let s2 = push_scope(st, SScope {
            vars: crate::semantics::bind_names(pats, Seq::new(pats.len(), |i: int| SValue::Null), true, pats.len() as int),
            kind: ScopeKind::Block,
        });
        lemma_range_loop(s2, pats, st.scopes.len() as int, b, a, body, (fuel - 1) as nat);
    }
}

proof fn lemma_for_list(st: SState, pats: Seq<String>, items: Seq<SValue>, body: Block, fuel: nat)
    ensures
        kept(st, for_list(st, pats, items, body, fuel)),
    decreases fuel, 0int,
{
    if fuel > 0 {
        let s2 = push_scope(st, empty_scope(ScopeKind::Block));
        lemma_list_loop(s2, pats, st.scopes.len() as int, items, 0, body, (fuel - 1) as nat);
    }
}

proof fn lemma_range_loop(st: SState, pats: Seq<String>, k: int, end: int, i: int, body: Block, fuel: nat)
    ensures
        kept_state(st, range_loop(st, pats, k, end, i, body, fuel)),
    decreases fuel, end - i,
{
    if fuel > 0 && i < end && !(st.flow is Return) {
        let sb = bind_range_patterns(st, pats, k, i);
        assert(sb.scopes.len() == st.scopes.len());
        lemma_block(sb, body, (fuel - 1) as nat);
        if let Out::Done((s1, _)) = exec_block(sb, body, (fuel - 1) as nat) {
            if !(s1.flow is Return) {
                lemma_range_loop(s1, pats, k, end, i + 1, body, fuel);
            }
        }
    }
}

proof fn lemma_list_loop(st: SState, pats: Seq<String>, k: int, items: Seq<SValue>, j: int, body: Block, fuel: nat)
    ensures
        kept_state(st, list_loop(st, pats, k, items, j, body, fuel)),
    decreases fuel, items.len() - j,
{
    if fuel > 0 && 0 <= j < items.len() && !(st.flow is Return) {
        let sb = bind_list_patterns(st, pats, k, j, items[j]);
        assert(sb.scopes.len() == st.scopes.len());
        lemma_block(sb, body, (fuel - 1) as nat);
        if let Out::Done((s1, _)) = exec_block(sb, body, (fuel - 1) as nat) {
            if !(s1.flow is Return) {
                lemma_list_loop(s1, pats, k, items, j + 1, body, fuel);
            }
        }
    }
}

proof fn lemma_while(st: SState, cond: Expr, body: Block, fuel: nat)
    ensures
        kept_state(st, while_loop(st, cond, body, fuel)),
    decreases fuel, 0int,
{
    if fuel > 0 {
        let f = (fuel - 1) as nat;
        lemma_expr(st, cond, f);
        if let Out::Done((s1, c)) = eval_expr(st, cond, f) {
            if is_truthy_spec(c) && !(s1.flow is Return) {
                lemma_block(s1, body, f);
                if let Out::Done((s2, _)) = exec_block(s1, body, f) {
                    if !(s2.flow is Return) {
                        lemma_while(s2, cond, body, f);
                    }
                }
            }
        }
    }
}

proof fn lemma_block(st: SState, block: Block, fuel: nat)
    ensures
        kept(st, exec_block(st, block, fuel)),
    decreases fuel, 0int,
{
    if fuel > 0 {
        let f = (fuel - 1) as nat;
        lemma_block_stmts(st, block.stmts@, 0, f);
        if let Out::Done((s1, returned)) = block_stmts(st, block.stmts@, 0, f) {
            if !returned {
                if let Some(e) = block.terminator {
                    lemma_expr(s1, e, f);
                }
            }
        }
    }
}

proof fn lemma_block_stmts(st: SState, stmts: Seq<Stmt>, i: int, fuel: nat)
    ensures
        kept(st, block_stmts(st, stmts, i, fuel)),
    decreases fuel, stmts.len() - i,
{
    if fuel > 0 && 0 <= i < stmts.len() {
        lemma_stmt(st, stmts[i], (fuel - 1) as nat);
        if let Out::Done((s1, _)) = exec_stmt(st, stmts[i], (fuel - 1) as nat) {
            if !(s1.flow is Return) {
                lemma_block_stmts(s1, stmts, i + 1, fuel);
            }
        }
    }
}

proof fn lemma_resolve_node(st: SState, inv: NodeInvocation, fuel: nat)
    ensures
        kept(st, resolve_node(st, inv, fuel)),
    decreases fuel, 0int,
{
    if fuel > 0 {
        let f = (fuel - 1) as nat;
        let ty = inv.node_type@;
        match assoc_get(st.reg.components, ty) {
            Some(def) => lemma_expand(st, def, inv, f),
            None => {
                lemma_node_id(st, inv.id, f);
                if let Out::Done((s1, _)) = node_id(st, inv.id, f) {
                    lemma_node_items(s1, inv.body@, 0, Seq::empty(), Seq::empty(), f);
                }
            },
        }
    }
}

proof fn lemma_node_id(st: SState, id: Option<Expr>, fuel: nat)
    ensures
        kept(st, node_id(st, id, fuel)),
    decreases fuel, 0int,
{
    if fuel > 0 {
        if let Some(e) = id {
            lemma_expr(st, e, (fuel - 1) as nat);
        }
    }
}

proof fn lemma_component_id(st: SState, id: Option<Expr>, fuel: nat)
    ensures
        kept(st, component_id(st, id, fuel)),
    decreases fuel, 0int,
{
    if fuel > 0 {
        if let Some(e) = id {
            lemma_expr(st, e, (fuel - 1) as nat);
        }
    }
}

proof fn lemma_node_items(st: SState, items: Seq<NodeItem>, i: int, props: Seq<(Seq<char>, SValue)>, children: Seq<SNode>, fuel: nat)
    ensures
        kept3(st, node_items(st, items, i, props, children, fuel)),
    decreases fuel, items.len() - i,
{
    if fuel > 0 && 0 <= i < items.len() {
        lemma_node_item(st, items[i], props, children, (fuel - 1) as nat);
        if let Out::Done((s1, p1, c1)) = node_item(st, items[i], props, children, (fuel - 1) as nat) {
            lemma_node_items(s1, items, i + 1, p1, c1, fuel);
        }
    }
}

proof fn lemma_node_item(st: SState, item: NodeItem, props: Seq<(Seq<char>, SValue)>, children: Seq<SNode>, fuel: nat)
    ensures
        kept3(st, node_item(st, item, props, children, fuel)),
    decreases fuel, 0int,
{
    if fuel > 0 {
        let f = (fuel - 1) as nat;
        match item {
            NodeItem::Prop(_, e, _) => lemma_expr(st, e, f),
            NodeItem::Child(inv) => lemma_resolve_node(st, inv, f),
            NodeItem::Stmt(x) => lemma_stmt(st, x, f),
        }
    }
}

proof fn lemma_check(st: SState, def: ComponentDef, items: Seq<NodeItem>, i: int, id: SValue, count: int, span: SSpan, fuel: nat)
    ensures
        kept_state(st, check_constraints(st, def, items, i, id, count, span, fuel)),
    decreases fuel, items.len() - i,
{
    if fuel > 0 && 0 <= i < items.len() {
        match items[i] {
            NodeItem::Prop(_, e, _) => {
                lemma_expr(st, e, (fuel - 1) as nat);
                if let Out::Done((s1, _)) = eval_expr(st, e, (fuel - 1) as nat) {
                    lemma_check(s1, def, items, i + 1, id, count, span, fuel);
                }
            },
            _ => lemma_check(st, def, items, i + 1, id, count, span, fuel),
        }
    }
}

proof fn lemma_expand(st: SState, def: ComponentDef, inv: NodeInvocation, fuel: nat)
    ensures
        kept(st, expand_component(st, def, inv, fuel)),
    decreases fuel, 0int,
{
    if fuel > 0 {
        let f = (fuel - 1) as nat;
        let span = inv.span@;
        lemma_component_id(st, inv.id, f);
        if let Out::Done((s1, id)) = component_id(st, inv.id, f) {
            lemma_node_items(s1, inv.body@, 0, Seq::empty(), Seq::empty(), f);
            if let Out::Done((s2, props, children)) = node_items(s1, inv.body@, 0, Seq::empty(), Seq::empty(), f) {
                lemma_check(s2, def, def.body@, 0, id, children.len() as int, span, f);
                if let Out::Done(s3) = check_constraints(s2, def, def.body@, 0, id, children.len() as int, span, f) {
                    if let Ok(vars) = component_vars(def, id, props, children, span) {
                        lemma_node_items(push_scope(s3, SScope { vars, kind: ScopeKind::Component }), def.body@, 0,
                            Seq::empty(), Seq::empty(), f);
                    }
                }
            }
        }
    }
}

} // verus!
