//! Building statements, blocks and node invocations from parse trees.
use vstd::prelude::*;
use crate::ast::{AssignOp, Block, Expr, ExprKind, NodeInvocation, NodeItem, ReturnType, Stmt};
use crate::builder::{
    build_expr, expr_err, expr_ok, kid, malformed, malformed_error, nkids, syntax_err, syntax_error, unknown_op,
    unknown_op_error, ParseNode,
};
use crate::error::{NbclError, Rule, rule_text, rule_to_human};
use crate::semantics::err_res;
use crate::state::SErr;
use crate::text::{concat2, to_owned_string};
use crate::value::str_eq;

verus! {

/// The assignment operator written as `text`.
pub open spec fn assign_of(text: Seq<char>) -> Option<AssignOp> {
    if text == "="@ { Some(AssignOp::Equal) }
    else if text == "+="@ { Some(AssignOp::PlusEqual) }
    else if text == "-="@ { Some(AssignOp::MinEqual) }
    else if text == "*="@ { Some(AssignOp::MultEqual) }
    else if text == "/="@ { Some(AssignOp::DivEqual) }
    else { None }
}

/// Where the value of a `local` or `global` statement stands (after an optional type hint).
pub open spec fn value_pos(t: ParseNode) -> int {
    if kid(t, 1).rule == Rule::type_hint { 2 } else { 1 }
}

/// `names` are the texts of the children of a parse node.
pub open spec fn texts_ok(t: ParseNode, names: Seq<String>) -> bool {
    &&& names.len() == nkids(t)
    &&& forall|i: int| 0 <= i < names.len() ==> #[trigger] names[i]@ == kid(t, i).text@
}

/// The first error in building the statement of a parse node.
pub open spec fn stmt_err(t: ParseNode) -> Option<SErr>
    decreases t, 0int,
{
    let n = nkids(t);
    if t.rule == Rule::stmt || t.rule == Rule::node_stmt {
        if n == 0 { Some(malformed(t)) } else { stmt_err(kid(t, 0)) }
    } else if t.rule == Rule::local_stmt || t.rule == Rule::global_stmt {
        if n < 2 || value_pos(t) >= n { Some(malformed(t)) } else { expr_err(kid(t, value_pos(t))) }
    } else if t.rule == Rule::assign_stmt {
        if n < 2 {
            Some(malformed(t))
        } else if kid(t, 0).rule != Rule::snake_ident && expr_err(kid(t, 0)) is Some {
            expr_err(kid(t, 0))
        } else if kid(t, 1).rule == Rule::assignment_op {
            if assign_of(kid(t, 1).text@) is None {
                Some(unknown_op(kid(t, 1)))
            } else if n < 3 {
                Some(malformed(t))
            } else {
                expr_err(kid(t, 2))
            }
        } else {
            expr_err(kid(t, 1))
        }
    } else if t.rule == Rule::for_stmt {
        if n < 3 {
            Some(malformed(t))
        } else {
            match expr_err(kid(t, 1)) {
                Some(e) => Some(e),
                None => block_err(kid(t, 2), nkids(kid(t, 2))),
            }
        }
    } else if t.rule == Rule::while_stmt {
        if n < 2 {
            Some(malformed(t))
        } else {
            match expr_err(kid(t, 0)) {
                Some(e) => Some(e),
                None => block_err(kid(t, 1), nkids(kid(t, 1))),
            }
        }
    } else if t.rule == Rule::return_stmt {
        if n == 0 {
            None
        } else if kid(t, 0).rule == Rule::node_invocation {
            node_err(kid(t, 0))
        } else {
            expr_err(kid(t, 0))
        }
    } else if t.rule == Rule::expr_stmt {
        if n == 0 { Some(malformed(t)) } else { expr_err(kid(t, 0)) }
    } else {
        Some(syntax_err("unsupported statement: "@ + rule_text(t.rule), t.span@))
    }
}

/// `s` is the statement a parse node builds (when it has no error).
pub open spec fn stmt_ok(t: ParseNode, s: Stmt) -> bool
    decreases t, 0int,
{
    let n = nkids(t);
    if t.rule == Rule::stmt || t.rule == Rule::node_stmt {
        n > 0 && stmt_ok(kid(t, 0), s)
    } else if t.rule == Rule::local_stmt {
        &&& n >= 2
        &&& value_pos(t) < n
        &&& s matches Stmt::Let(name, v)
        &&& name@ == kid(t, 0).text@
        &&& expr_ok(kid(t, value_pos(t)), v)
    } else if t.rule == Rule::global_stmt {
        &&& n >= 2
        &&& value_pos(t) < n
        &&& s matches Stmt::Const(name, v)
        &&& name@ == kid(t, 0).text@
        &&& expr_ok(kid(t, value_pos(t)), v)
    } else if t.rule == Rule::assign_stmt {
        &&& n >= 2
        &&& s matches Stmt::Assign(l, op, v, sp)
        &&& sp@ == t.span@
        &&& if kid(t, 0).rule == Rule::snake_ident {
            &&& l.span@ == kid(t, 0).span@
            &&& l.kind matches ExprKind::Variable(x)
            &&& x@ == kid(t, 0).text@
        } else {
            expr_ok(kid(t, 0), l)
        }
        &&& if kid(t, 1).rule == Rule::assignment_op {
            n >= 3 && Some(op) == assign_of(kid(t, 1).text@) && expr_ok(kid(t, 2), v)
        } else {
            op == AssignOp::Equal && expr_ok(kid(t, 1), v)
        }
    } else if t.rule == Rule::for_stmt {
        &&& n >= 3
        &&& s matches Stmt::For(names, it, body)
        &&& texts_ok(kid(t, 0), names@)
        &&& expr_ok(kid(t, 1), it)
        &&& stmts_ok(kid(t, 2), nkids(kid(t, 2)), body.stmts@)
        &&& term_ok(kid(t, 2), nkids(kid(t, 2)), body.terminator)
    } else if t.rule == Rule::while_stmt {
        &&& n >= 2
        &&& s matches Stmt::While(c, body)
        &&& expr_ok(kid(t, 0), c)
        &&& stmts_ok(kid(t, 1), nkids(kid(t, 1)), body.stmts@)
        &&& term_ok(kid(t, 1), nkids(kid(t, 1)), body.terminator)
    } else if t.rule == Rule::return_stmt {
        &&& s matches Stmt::Return(r, sp)
        &&& sp@ == t.span@
        &&& if n == 0 {
            r is None
        } else if kid(t, 0).rule == Rule::node_invocation {
            r matches Some(ReturnType::Node(nd)) && node_ok(kid(t, 0), nd)
        } else {
            r matches Some(ReturnType::Expr(e)) && expr_ok(kid(t, 0), e)
        }
    } else if t.rule == Rule::expr_stmt {
        &&& n > 0
        &&& s matches Stmt::Expr(e)
        &&& expr_ok(kid(t, 0), e)
    } else {
        false
    }
}

/// The first error among the first `k` children of a block.
pub open spec fn block_err(b: ParseNode, k: int) -> Option<SErr>
    decreases b, k,
{
    if k <= 0 || k > nkids(b) {
        None
    } else {
        match block_err(b, k - 1) {
            Some(e) => Some(e),
            None => {
                let c = kid(b, k - 1);
                if c.rule == Rule::stmt { stmt_err(c) } else if c.rule == Rule::expr { expr_err(c) } else { None }
            },
        }
    }
}

/// `stmts` are the statements among the first `k` children of a block.
pub open spec fn stmts_ok(b: ParseNode, k: int, stmts: Seq<Stmt>) -> bool
    decreases b, k,
{
    if k <= 0 || k > nkids(b) {
        stmts.len() == 0
    } else {
        let c = kid(b, k - 1);
        if c.rule == Rule::stmt {
            stmts.len() > 0 && stmt_ok(c, stmts.last()) && stmts_ok(b, k - 1, stmts.drop_last())
        } else {
            stmts_ok(b, k - 1, stmts)
        }
    }
}

/// `term` is the last expression among the first `k` children of a block.
pub open spec fn term_ok(b: ParseNode, k: int, term: Option<Expr>) -> bool
    decreases b, k,
{
    if k <= 0 || k > nkids(b) {
        term is None
    } else {
        let c = kid(b, k - 1);
        if c.rule == Rule::expr { term matches Some(e) && expr_ok(c, e) } else { term_ok(b, k - 1, term) }
    }
}

/// The first error in building the node invocation of a parse node.
pub open spec fn node_err(t: ParseNode) -> Option<SErr>
    decreases t, 0int,
{
    let n = nkids(t);
    if n == 0 {
        Some(malformed(t))
    } else if n == 1 {
        None
    } else if kid(t, 1).rule == Rule::node_block {
        items_err(kid(t, 1), nkids(kid(t, 1)))
    } else {
        match expr_err(kid(t, 1)) {
            Some(e) => Some(e),
            None => if n >= 3 { items_err(kid(t, 2), nkids(kid(t, 2))) } else { None },
        }
    }
}

/// `nd` is the node invocation a parse node builds (when it has no error).
pub open spec fn node_ok(t: ParseNode, nd: NodeInvocation) -> bool
    decreases t, 0int,
{
    let n = nkids(t);
    &&& n > 0
    &&& nd.node_type@ == kid(t, 0).text@
    &&& nd.span@ == t.span@
    &&& if n == 1 {
        nd.id is None && nd.body@.len() == 0
    } else if kid(t, 1).rule == Rule::node_block {
        nd.id is None && items_ok(kid(t, 1), nkids(kid(t, 1)), nd.body@)
    } else {
        &&& nd.id matches Some(e)
        &&& expr_ok(kid(t, 1), e)
        &&& if n >= 3 { items_ok(kid(t, 2), nkids(kid(t, 2)), nd.body@) } else { nd.body@.len() == 0 }
    }
}

/// The first error among the first `k` items of a node block.
pub open spec fn items_err(b: ParseNode, k: int) -> Option<SErr>
    decreases b, k,
{
    if k <= 0 || k > nkids(b) {
        None
    } else {
        match items_err(b, k - 1) {
            Some(e) => Some(e),
            None => item_err(kid(b, k - 1)),
        }
    }
}

/// `v` are the items of the first `k` children of a node block.
pub open spec fn items_ok(b: ParseNode, k: int, v: Seq<NodeItem>) -> bool
    decreases b, k,
{
    if k <= 0 || k > nkids(b) {
        v.len() == 0
    } else {
        &&& v.len() > 0
        &&& item_ok(kid(b, k - 1), v.last())
        &&& items_ok(b, k - 1, v.drop_last())
    }
}

/// The first error in building a node item.
pub open spec fn item_err(t: ParseNode) -> Option<SErr>
    decreases t, 0int,
{
    if nkids(t) == 0 {
        Some(malformed(t))
    } else {
        let c = kid(t, 0);
        if c.rule == Rule::node_prop {
            if nkids(c) < 2 || nkids(kid(c, 1)) == 0 { Some(malformed(c)) } else { expr_err(kid(kid(c, 1), 0)) }
        } else if c.rule == Rule::node_invocation {
            node_err(c)
        } else if c.rule == Rule::node_stmt {
            if nkids(c) == 0 { Some(malformed(c)) } else { stmt_err(kid(c, 0)) }
        } else {
            expr_err(c)
        }
    }
}

/// `it` is the node item a parse node builds (when it has no error).
pub open spec fn item_ok(t: ParseNode, it: NodeItem) -> bool
    decreases t, 0int,
{
    &&& nkids(t) > 0
    &&& {
        let c = kid(t, 0);
        if c.rule == Rule::node_prop {
            &&& nkids(c) >= 2
            &&& nkids(kid(c, 1)) > 0
            &&& it matches NodeItem::Prop(key, v, sp)
            &&& key@ == kid(c, 0).text@
            &&& expr_ok(kid(kid(c, 1), 0), v)
            &&& sp@ == c.span@
        } else if c.rule == Rule::node_invocation {
            it matches NodeItem::Child(nd) && node_ok(c, nd)
        } else if c.rule == Rule::node_stmt {
            &&& nkids(c) > 0
            &&& it matches NodeItem::Stmt(s)
            &&& stmt_ok(kid(c, 0), s)
        } else {
            it matches NodeItem::Prop(key, v, sp) && key@ == "error"@ && expr_ok(c, v) && sp@ == c.span@
        }
    }
}

/// The assignment operator written as `text`.
fn assign_op(text: &str) -> (r: Option<AssignOp>)
    ensures
        r == assign_of(text@),
{
    proof { reveal_strlit("="); reveal_strlit("+="); reveal_strlit("-="); reveal_strlit("*="); reveal_strlit("/="); }
    if str_eq(text, "=") { Some(AssignOp::Equal) }
    else if str_eq(text, "+=") { Some(AssignOp::PlusEqual) }
    else if str_eq(text, "-=") { Some(AssignOp::MinEqual) }
    else if str_eq(text, "*=") { Some(AssignOp::MultEqual) }
    else if str_eq(text, "/=") { Some(AssignOp::DivEqual) }
    else { None }
}

/// The texts of the children of a parse node.
pub(crate) fn child_texts(t: &ParseNode) -> (r: Vec<String>)
    ensures
        texts_ok(*t, r@),
{
    let mut out: Vec<String> = Vec::new();
    let mut i: usize = 0;
    while i < t.children.len()
        invariant
            i <= t.children@.len(),
            out@.len() == i,
            forall|q: int| 0 <= q < i ==> #[trigger] out@[q]@ == kid(*t, q).text@,
        decreases t.children@.len() - i,
    {
        out.push(t.children[i].text.clone());
        i = i + 1;
    }
    out
}

/// Builds the statement of a parse node.
pub fn build_stmt(t: &ParseNode) -> (r: Result<Stmt, NbclError>)
    ensures
        match stmt_err(*t) {
            Some(e) => err_res(e, r),
            None => r matches Ok(s) && stmt_ok(*t, s),
        },
    decreases t, 0int,
{
    let n = t.children.len();
    let rule = t.rule;
    if rule == Rule::stmt || rule == Rule::node_stmt {
        if n == 0 {
            return Err(malformed_error(t));
        }
        build_stmt(&t.children[0])
    } else if rule == Rule::local_stmt || rule == Rule::global_stmt {
        if n < 2 {
            return Err(malformed_error(t));
        }
        let vi: usize = if t.children[1].rule == Rule::type_hint { 2 } else { 1 };
        if vi >= n {
            return Err(malformed_error(t));
        }
        let v = match build_expr(&t.children[vi]) {
            Ok(x) => x,
            Err(e) => { return Err(e); },
        };
        let name = t.children[0].text.clone();
        if rule == Rule::local_stmt { Ok(Stmt::Let(name, v)) } else { Ok(Stmt::Const(name, v)) }
    } else if rule == Rule::assign_stmt {
        if n < 2 {
            return Err(malformed_error(t));
        }
        let c0 = &t.children[0];
        let lhs = if c0.rule == Rule::snake_ident {
            Expr { kind: ExprKind::Variable(c0.text.clone()), span: c0.span.copy() }
        } else {
            match build_expr(c0) {
                Ok(x) => x,
                Err(e) => { return Err(e); },
            }
        };
        let c1 = &t.children[1];
        let op: AssignOp;
        let v: Expr;
        if c1.rule == Rule::assignment_op {
            op = match assign_op(c1.text.as_str()) {
                Some(o) => o,
                None => { return Err(unknown_op_error(c1)); },
            };
            if n < 3 {
                return Err(malformed_error(t));
            }
            v = match build_expr(&t.children[2]) {
                Ok(x) => x,
                Err(e) => { return Err(e); },
            };
        } else {
            op = AssignOp::Equal;
            v = match build_expr(c1) {
                Ok(x) => x,
                Err(e) => { return Err(e); },
            };
        }
        Ok(Stmt::Assign(lhs, op, v, t.span.copy()))
    } else if rule == Rule::for_stmt {
        if n < 3 {
            return Err(malformed_error(t));
        }
        let names = child_texts(&t.children[0]);
        let it = match build_expr(&t.children[1]) {
            Ok(x) => x,
            Err(e) => { return Err(e); },
        };
        let body = match build_block(&t.children[2]) {
            Ok(b) => b,
            Err(e) => { return Err(e); },
        };
        Ok(Stmt::For(names, it, body))
    } else if rule == Rule::while_stmt {
        if n < 2 {
            return Err(malformed_error(t));
        }
        let c = match build_expr(&t.children[0]) {
            Ok(x) => x,
            Err(e) => { return Err(e); },
        };
        let body = match build_block(&t.children[1]) {
            Ok(b) => b,
            Err(e) => { return Err(e); },
        };
        Ok(Stmt::While(c, body))
    } else if rule == Rule::return_stmt {
        if n == 0 {
            return Ok(Stmt::Return(None, t.span.copy()));
        }
        let c = &t.children[0];
        if c.rule == Rule::node_invocation {
            match build_node_invocation(c) {
                Ok(nd) => Ok(Stmt::Return(Some(ReturnType::Node(nd)), t.span.copy())),
                Err(e) => Err(e),
            }
        } else {
            match build_expr(c) {
                Ok(x) => Ok(Stmt::Return(Some(ReturnType::Expr(x)), t.span.copy())),
                Err(e) => Err(e),
            }
        }
    } else if rule == Rule::expr_stmt {
        if n == 0 {
            return Err(malformed_error(t));
        }
        match build_expr(&t.children[0]) {
            Ok(x) => Ok(Stmt::Expr(x)),
            Err(e) => Err(e),
        }
    } else {
        proof { reveal_strlit("unsupported statement: "); }
        Err(syntax_error(concat2("unsupported statement: ", rule_to_human(rule)), &t.span))
    }
}

/// An error among the first `k` children of a block is the first error of the whole block.
proof fn lemma_block_err_from(b: ParseNode, k: int, m: int)
    requires
        0 < k <= m <= nkids(b),
        block_err(b, k) is Some,
    ensures
        block_err(b, m) == block_err(b, k),
    decreases m - k,
{
    if m > k {
        lemma_block_err_from(b, k, m - 1);
    }
}

/// Builds a block: its statements, and its last expression as the value it ends with.
pub fn build_block(b: &ParseNode) -> (r: Result<Block, NbclError>)
    ensures
        match block_err(*b, nkids(*b)) {
            Some(e) => err_res(e, r),
            None => r matches Ok(blk) && stmts_ok(*b, nkids(*b), blk.stmts@) && term_ok(*b, nkids(*b), blk.terminator),
        },
    decreases b, 0int,
{
    let mut stmts: Vec<Stmt> = Vec::new();
    let mut term: Option<Expr> = None;
    let mut k: usize = 0;
    while k < b.children.len()
        invariant
            k <= b.children@.len(),
            block_err(*b, k as int) is None,
            stmts_ok(*b, k as int, stmts@),
            term_ok(*b, k as int, term),
        decreases b.children@.len() - k,
    {
        let c = &b.children[k];
        if c.rule == Rule::stmt {
            let s = match build_stmt(c) {
                Ok(x) => x,
                Err(e) => {
                    proof { lemma_block_err_from(*b, k as int + 1, nkids(*b)); }
                    return Err(e);
                },
            };
            let ghost before = stmts@;
            stmts.push(s);
            proof { assert(stmts@.drop_last() =~= before); }
        } else if c.rule == Rule::expr {
            let e = match build_expr(c) {
                Ok(x) => x,
                Err(err) => {
                    proof { lemma_block_err_from(*b, k as int + 1, nkids(*b)); }
                    return Err(err);
                },
            };
            term = Some(e);
        }
        k = k + 1;
    }
    Ok(Block { stmts, terminator: term })
}

/// Builds the node invocation of a parse node: its type, its id and its items.
pub fn build_node_invocation(t: &ParseNode) -> (r: Result<NodeInvocation, NbclError>)
    ensures
        match node_err(*t) {
            Some(e) => err_res(e, r),
            None => r matches Ok(nd) && node_ok(*t, nd),
        },
    decreases t, 0int,
{
    let n = t.children.len();
    if n == 0 {
        return Err(malformed_error(t));
    }
    let node_type = t.children[0].text.clone();
    if n == 1 {
        return Ok(NodeInvocation { node_type, id: None, body: Vec::new(), span: t.span.copy() });
    }
    let c1 = &t.children[1];
    if c1.rule == Rule::node_block {
        let body = match build_items(c1) {
            Ok(v) => v,
            Err(e) => { return Err(e); },
        };
        return Ok(NodeInvocation { node_type, id: None, body, span: t.span.copy() });
    }
    let id = match build_expr(c1) {
        Ok(x) => x,
        Err(e) => { return Err(e); },
    };
    let body = if n >= 3 {
        match build_items(&t.children[2]) {
            Ok(v) => v,
            Err(e) => { return Err(e); },
        }
    } else {
        Vec::new()
    };
    Ok(NodeInvocation { node_type, id: Some(id), body, span: t.span.copy() })
}

/// An error among the first `k` items of a block is the first error of all of them.
proof fn lemma_items_err_from(b: ParseNode, k: int, m: int)
    requires
        0 < k <= m <= nkids(b),
        items_err(b, k) is Some,
    ensures
        items_err(b, m) == items_err(b, k),
    decreases m - k,
{
    if m > k {
        lemma_items_err_from(b, k, m - 1);
    }
}

/// Builds the items of a node block (or of a component's body), in order.
pub fn build_items(b: &ParseNode) -> (r: Result<Vec<NodeItem>, NbclError>)
    ensures
        match items_err(*b, nkids(*b)) {
            Some(e) => err_res(e, r),
            None => r matches Ok(v) && items_ok(*b, nkids(*b), v@),
        },
    decreases b, 0int,
{
    let mut out: Vec<NodeItem> = Vec::new();
    let mut k: usize = 0;
    while k < b.children.len()
        invariant
            k <= b.children@.len(),
            items_err(*b, k as int) is None,
            items_ok(*b, k as int, out@),
        decreases b.children@.len() - k,
    {
        let it = match build_node_item(&b.children[k]) {
            Ok(x) => x,
            Err(e) => {
                proof { lemma_items_err_from(*b, k as int + 1, nkids(*b)); }
                return Err(e);
            },
        };
        let ghost before = out@;
        out.push(it);
        proof { assert(out@.drop_last() =~= before); }
        k = k + 1;
    }
    Ok(out)
}

/// Builds a node item: a property, a child node or a statement.
pub fn build_node_item(t: &ParseNode) -> (r: Result<NodeItem, NbclError>)
    ensures
        match item_err(*t) {
            Some(e) => err_res(e, r),
            None => r matches Ok(it) && item_ok(*t, it),
        },
    decreases t, 0int,
{
    if t.children.len() == 0 {
        return Err(malformed_error(t));
    }
    let c = &t.children[0];
    if c.rule == Rule::node_prop {
        if c.children.len() < 2 || c.children[1].children.len() == 0 {
            return Err(malformed_error(c));
        }
        match build_expr(&c.children[1].children[0]) {
            Ok(v) => Ok(NodeItem::Prop(c.children[0].text.clone(), v, c.span.copy())),
            Err(e) => Err(e),
        }
    } else if c.rule == Rule::node_invocation {
        match build_node_invocation(c) {
            Ok(nd) => Ok(NodeItem::Child(nd)),
            Err(e) => Err(e),
        }
    } else if c.rule == Rule::node_stmt {
        if c.children.len() == 0 {
            return Err(malformed_error(c));
        }
        match build_stmt(&c.children[0]) {
            Ok(s) => Ok(NodeItem::Stmt(s)),
            Err(e) => Err(e),
        }
    } else {
        proof { reveal_strlit("error"); }
        match build_expr(c) {
            Ok(v) => Ok(NodeItem::Prop(to_owned_string("error"), v, c.span.copy())),
            Err(e) => Err(e),
        }
    }
}

} // verus!
