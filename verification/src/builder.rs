//! Building syntax trees from parse trees: what the grammar's parser recognised (rule,
//! span, text and children of each node) becomes the `File`, statements and
//! expressions that the evaluator walks.
use vstd::prelude::*;
use crate::ast::{BinaryOp, Expr, ExprKind, Literal, StringType, UnaryOp};
use crate::builtins::parse_i64;
use crate::error::{ErrorKind, NbclError, Rule, SSpan, Span, rule_text, rule_to_human};
use crate::semantics::{err_res, number_value, reads_as_i64, unquote_spec};
use crate::state::SErr;
use crate::strings::unquote;
use crate::text::{concat2, to_owned_string};
use crate::value::str_eq;

verus! {

/// A node of a parse tree: the grammar rule it matched, where, the text it covers and
/// the nodes inside it. For a float literal, `float_bits` holds the bit pattern of its
/// value, read by the embedder (the library does not compute with floats).
#[derive(Debug)]
pub struct ParseNode {
    pub rule: Rule,
    pub span: Span,
    pub text: String,
    pub children: Vec<ParseNode>,
    pub float_bits: Option<u64>,
}

/// Which kinds of import a build accepts.
#[derive(Clone, Copy, Debug)]
pub struct ImportFeatures {
    pub module_imports: bool,
    pub lib_imports: bool,
}

/// Child `i` of a parse node.
pub open spec fn kid(t: ParseNode, i: int) -> ParseNode {
    t.children@[i]
}

/// The number of children of a parse node.
pub open spec fn nkids(t: ParseNode) -> int {
    t.children@.len() as int
}

/// A syntax error with `message` at `span`.
pub open spec fn syntax_err(message: Seq<char>, span: SSpan) -> SErr {
    SErr { kind: ErrorKind::Ast, message, hint: None, span: Some(span) }
}

/// The error for a parse node whose children are not those its rule has.
pub open spec fn malformed(t: ParseNode) -> SErr {
    syntax_err("malformed syntax tree for "@ + rule_text(t.rule), t.span@)
}

/// The error for an operator that does not name one of the language's.
pub open spec fn unknown_op(t: ParseNode) -> SErr {
    syntax_err("unknown operator: "@ + t.text@, t.span@)
}

/// The binary operator written as `text`.
pub open spec fn op_of(text: Seq<char>) -> Option<BinaryOp> {
    if text == "||"@ { Some(BinaryOp::Or) }
    else if text == "&&"@ { Some(BinaryOp::And) }
    else if text == "+"@ { Some(BinaryOp::Add) }
    else if text == "-"@ { Some(BinaryOp::Sub) }
    else if text == "*"@ { Some(BinaryOp::Mul) }
    else if text == "/"@ { Some(BinaryOp::Div) }
    else if text == "%"@ { Some(BinaryOp::Rem) }
    else if text == "=="@ { Some(BinaryOp::Eq) }
    else if text == "!="@ { Some(BinaryOp::Ne) }
    else if text == "<"@ { Some(BinaryOp::Lt) }
    else if text == "<="@ { Some(BinaryOp::Le) }
    else if text == ">"@ { Some(BinaryOp::Gt) }
    else if text == ">="@ { Some(BinaryOp::Ge) }
    else { None }
}

/// The unary operator written as `text`.
pub open spec fn unary_of(text: Seq<char>) -> Option<UnaryOp> {
    if text == "!"@ { Some(UnaryOp::Not) } else if text == "-"@ { Some(UnaryOp::Neg) } else { None }
}

/// The rules whose nodes are a base followed by accessors, indexes and argument lists
/// (an expression, or the target of an assignment).
pub open spec fn is_postfix_rule(r: Rule) -> bool {
    r == Rule::postfix_expr || r == Rule::assignable_lhs
}

/// The rules of left-associative chains of binary operators.
pub open spec fn is_chain_rule(r: Rule) -> bool {
    r == Rule::expr || r == Rule::or_expr || r == Rule::and_expr || r == Rule::add_expr || r == Rule::mul_expr
}

/// The error of a literal node, if it has one.
pub open spec fn literal_err(t: ParseNode) -> Option<SErr> {
    if nkids(t) == 0 {
        Some(malformed(t))
    } else if kid(t, 0).rule == Rule::int_lit && !reads_as_i64(kid(t, 0).text@) {
        Some(syntax_err("invalid integer literal: "@ + kid(t, 0).text@, kid(t, 0).span@))
    } else if kid(t, 0).rule == Rule::float_lit && kid(t, 0).float_bits is None {
        Some(syntax_err("float literal without a value"@, kid(t, 0).span@))
    } else {
        None
    }
}

/// The literal a literal node builds (when it has no error).
pub open spec fn literal_ok(t: ParseNode, lit: Literal) -> bool {
    let c = kid(t, 0);
    if c.rule == Rule::int_lit {
        lit matches Literal::Int(x) && x == number_value(c.text@)
    } else if c.rule == Rule::float_lit {
        lit matches Literal::Float(b) && c.float_bits == Some(b)
    } else if c.rule == Rule::bool_lit {
        lit matches Literal::Bool(b) && b == (c.text@ == "true"@)
    } else if c.rule == Rule::string_lit {
        lit matches Literal::Str(s, ty) && s@ == unquote_spec(c.text@) && ty == StringType::Normal
    } else {
        lit matches Literal::Null
    }
}

/// The first error in building the expression of a parse node.
pub open spec fn expr_err(t: ParseNode) -> Option<SErr>
    decreases t, nkids(t) + 2,
{
    let n = nkids(t);
    if is_chain_rule(t.rule) {
        if n == 0 {
            Some(malformed(t))
        } else if n % 2 == 0 {
            match chain_err(t, (n - 2) / 2) {
                Some(e) => Some(e),
                None => Some(syntax_err("expected operand after operator"@, t.span@)),
            }
        } else {
            chain_err(t, (n - 1) / 2)
        }
    } else if t.rule == Rule::cmp_expr {
        if n == 0 {
            Some(malformed(t))
        } else {
            match expr_err(kid(t, 0)) {
                Some(e) => Some(e),
                None => if n == 1 {
                    None
                } else if op_of(kid(t, 1).text@) is None {
                    Some(unknown_op(kid(t, 1)))
                } else if n < 3 {
                    Some(syntax_err("expected operand after operator"@, t.span@))
                } else {
                    expr_err(kid(t, 2))
                },
            }
        }
    } else if t.rule == Rule::unary_expr {
        if n == 0 {
            Some(malformed(t))
        } else if kid(t, 0).rule == Rule::postfix_expr {
            expr_err(kid(t, 0))
        } else if unary_of(kid(t, 0).text@) is None {
            Some(unknown_op(kid(t, 0)))
        } else if n < 2 {
            Some(malformed(t))
        } else {
            expr_err(kid(t, 1))
        }
    } else if is_postfix_rule(t.rule) {
        if n == 0 {
            Some(malformed(t))
        } else {
            match expr_err(kid(t, 0)) {
                Some(e) => Some(e),
                None => suffix_err(t, 1),
            }
        }
    } else if t.rule == Rule::range_expr {
        if n < 3 {
            Some(malformed(t))
        } else {
            match expr_err(kid(t, 0)) {
                Some(e) => Some(e),
                None => expr_err(kid(t, 2)),
            }
        }
    } else if t.rule == Rule::primary_expr {
        if n == 0 { Some(malformed(t)) } else { expr_err(kid(t, 0)) }
    } else if t.rule == Rule::literal {
        literal_err(t)
    } else if t.rule == Rule::snake_ident {
        None
    } else {
        Some(syntax_err("unknown expression: "@ + rule_text(t.rule), t.span@))
    }
}

/// The first error in the chain of the first `k` operators of a chain node.
pub open spec fn chain_err(t: ParseNode, k: int) -> Option<SErr>
    decreases t, k + 1,
{
    if k <= 0 || 2 * k >= nkids(t) {
        if nkids(t) > 0 { expr_err(kid(t, 0)) } else { None }
    } else {
        match chain_err(t, k - 1) {
            Some(e) => Some(e),
            None => if op_of(kid(t, 2 * k - 1).text@) is None {
                Some(unknown_op(kid(t, 2 * k - 1)))
            } else {
                expr_err(kid(t, 2 * k))
            },
        }
    }
}

/// The first error in the suffixes of a postfix node from child `j` on.
pub open spec fn suffix_err(t: ParseNode, j: int) -> Option<SErr>
    decreases t, nkids(t) - j + 1,
{
    if j < 0 || j >= nkids(t) {
        None
    } else {
        let s = kid(t, j);
        if s.rule == Rule::accessor {
            if j + 1 >= nkids(t) { Some(malformed(t)) } else { suffix_err(t, j + 2) }
        } else if s.rule == Rule::expr {
            match expr_err(s) {
                Some(e) => Some(e),
                None => suffix_err(t, j + 1),
            }
        } else if s.rule == Rule::call_args {
            match args_err(s, nkids(s)) {
                Some(e) => Some(e),
                None => suffix_err(t, j + 1),
            }
        } else {
            suffix_err(t, j + 1)
        }
    }
}

/// The first error among the first `k` children of an argument list.
pub open spec fn args_err(c: ParseNode, k: int) -> Option<SErr>
    decreases c, k,
{
    if k <= 0 || k > nkids(c) {
        None
    } else {
        match args_err(c, k - 1) {
            Some(e) => Some(e),
            None => expr_err(kid(c, k - 1)),
        }
    }
}

/// `e` is the expression a parse node builds (when it has no error).
pub open spec fn expr_ok(t: ParseNode, e: Expr) -> bool
    decreases t, nkids(t) + 2,
{
    let n = nkids(t);
    if is_chain_rule(t.rule) {
        n % 2 == 1 && chain_ok(t, (n - 1) / 2, e)
    } else if t.rule == Rule::cmp_expr {
        if n == 1 {
            expr_ok(kid(t, 0), e)
        } else {
            &&& n >= 3
            &&& e.span@ == t.span@
            &&& e.kind matches ExprKind::Binary(l, op, r)
            &&& expr_ok(kid(t, 0), *l)
            &&& Some(op) == op_of(kid(t, 1).text@)
            &&& expr_ok(kid(t, 2), *r)
        }
    } else if t.rule == Rule::unary_expr {
        if n >= 1 && kid(t, 0).rule == Rule::postfix_expr {
            expr_ok(kid(t, 0), e)
        } else {
            &&& n >= 2
            &&& e.span@ == t.span@
            &&& e.kind matches ExprKind::Unary(op, x)
            &&& Some(op) == unary_of(kid(t, 0).text@)
            &&& expr_ok(kid(t, 1), *x)
        }
    } else if is_postfix_rule(t.rule) {
        n >= 1 && starts(t, 1).len() <= n && post_ok(t, starts(t, 1), e)
    } else if t.rule == Rule::range_expr {
        &&& n >= 3
        &&& e.span@ == t.span@
        &&& e.kind matches ExprKind::Range(a, b, inclusive)
        &&& expr_ok(kid(t, 0), *a)
        &&& expr_ok(kid(t, 2), *b)
        &&& inclusive == (kid(t, 1).text@ == "..="@)
    } else if t.rule == Rule::primary_expr {
        n >= 1 && expr_ok(kid(t, 0), e)
    } else if t.rule == Rule::literal {
        e.span@ == t.span@ && match e.kind { ExprKind::Literal(lit) => literal_ok(t, lit), _ => false }
    } else if t.rule == Rule::snake_ident {
        e.span@ == t.span@ && match e.kind { ExprKind::Variable(v) => v@ == t.text@, _ => false }
    } else {
        false
    }
}

/// `e` is the left-associated chain of the first `k` operators of a chain node.
pub open spec fn chain_ok(t: ParseNode, k: int, e: Expr) -> bool
    decreases t, k + 1,
{
    if k <= 0 || 2 * k >= nkids(t) {
        k == 0 && nkids(t) > 0 && expr_ok(kid(t, 0), e)
    } else {
        &&& e.span@ == t.span@
        &&& e.kind matches ExprKind::Binary(l, op, r)
        &&& chain_ok(t, k - 1, *l)
        &&& Some(op) == op_of(kid(t, 2 * k - 1).text@)
        &&& expr_ok(kid(t, 2 * k), *r)
    }
}

/// The position after the suffix of a postfix node that starts at child `j` (an accessor
/// takes the name after it too).
pub open spec fn next_start(t: ParseNode, j: int) -> int {
    if kid(t, j).rule == Rule::accessor { j + 2 } else { j + 1 }
}

/// The positions of the suffixes of a postfix node from child `j` on, in order.
pub open spec fn starts(t: ParseNode, j: int) -> Seq<int>
    decreases nkids(t) + 1 - j,
{
    if j < 0 || j >= nkids(t) {
        Seq::empty()
    } else {
        seq![j] + starts(t, if kid(t, j).rule == Rule::accessor { j + 2 } else { j + 1 })
    }
}

/// `e` is the base of a postfix node with the suffixes at positions `ps` applied in order;
/// a suffix that is not an accessor, an index or an argument list changes nothing.
pub open spec fn post_ok(t: ParseNode, ps: Seq<int>, e: Expr) -> bool
    decreases t, ps.len(),
{
    if ps.len() == 0 {
        nkids(t) > 0 && expr_ok(kid(t, 0), e)
    } else {
        let p = ps.last();
        let rest = ps.drop_last();
        let s = kid(t, p);
        &&& 0 <= p < nkids(t)
        &&& if s.rule == Rule::accessor {
            &&& p + 1 < nkids(t)
            &&& e.span@ == t.span@
            &&& e.kind matches ExprKind::Field(b, name, safe)
            &&& name@ == kid(t, p + 1).text@
            &&& safe == (s.text@ == "?."@)
            &&& post_ok(t, rest, *b)
        } else if s.rule == Rule::expr {
            &&& e.span@ == t.span@
            &&& e.kind matches ExprKind::Index(b, i)
            &&& expr_ok(s, *i)
            &&& post_ok(t, rest, *b)
        } else if s.rule == Rule::call_args {
            &&& e.span@ == t.span@
            &&& e.kind matches ExprKind::Call(b, v)
            &&& args_ok(s, nkids(s), v@)
            &&& post_ok(t, rest, *b)
        } else {
            post_ok(t, rest, e)
        }
    }
}

/// There are no more suffix positions from `j` on than children.
proof fn lemma_starts_len(t: ParseNode, j: int)
    requires
        j >= 0,
    ensures
        starts(t, j).len() <= if j < nkids(t) { nkids(t) - j } else { 0 },
    decreases nkids(t) + 1 - j,
{
    if j < nkids(t) {
        lemma_starts_len(t, if kid(t, j).rule == Rule::accessor { j + 2 } else { j + 1 });
    }
}

/// `v` are the expressions of the first `k` children of an argument list.
pub open spec fn args_ok(c: ParseNode, k: int, v: Seq<Expr>) -> bool
    decreases c, k,
{
    if k <= 0 || k > nkids(c) {
        v.len() == 0
    } else {
        &&& v.len() == k
        &&& expr_ok(kid(c, k - 1), v.last())
        &&& args_ok(c, k - 1, v.drop_last())
    }
}

/// A build result agrees with an error function and a result relation.
pub open spec fn expr_res(t: ParseNode, r: Result<Expr, NbclError>) -> bool {
    match expr_err(t) {
        Some(e) => err_res(e, r),
        None => r matches Ok(x) && expr_ok(t, x),
    }
}

/// A syntax error at a span.
pub(crate) fn syntax_error(message: String, span: &Span) -> (r: NbclError)
    ensures
        crate::state::err_core(r@) == syntax_err(message@, span@),
{
    NbclError::Ast { message, hint: None, span: Some(span.copy()) }
}

/// The error for a malformed parse node.
pub(crate) fn malformed_error(t: &ParseNode) -> (r: NbclError)
    ensures
        crate::state::err_core(r@) == malformed(*t),
{
    proof { reveal_strlit("malformed syntax tree for "); }
    syntax_error(concat2("malformed syntax tree for ", rule_to_human(t.rule)), &t.span)
}

/// The error for an unknown operator.
pub(crate) fn unknown_op_error(t: &ParseNode) -> (r: NbclError)
    ensures
        crate::state::err_core(r@) == unknown_op(*t),
{
    syntax_error(concat2("unknown operator: ", t.text.as_str()), &t.span)
}

/// The binary operator written as `text`.
fn binary_op(text: &str) -> (r: Option<BinaryOp>)
    ensures
        r == op_of(text@),
{
    proof {
        reveal_strlit("||"); reveal_strlit("&&"); reveal_strlit("+"); reveal_strlit("-"); reveal_strlit("*");
        reveal_strlit("/"); reveal_strlit("%"); reveal_strlit("=="); reveal_strlit("!="); reveal_strlit("<");
        reveal_strlit("<="); reveal_strlit(">"); reveal_strlit(">=");
    }
    if str_eq(text, "||") { Some(BinaryOp::Or) }
    else if str_eq(text, "&&") { Some(BinaryOp::And) }
    else if str_eq(text, "+") { Some(BinaryOp::Add) }
    else if str_eq(text, "-") { Some(BinaryOp::Sub) }
    else if str_eq(text, "*") { Some(BinaryOp::Mul) }
    else if str_eq(text, "/") { Some(BinaryOp::Div) }
    else if str_eq(text, "%") { Some(BinaryOp::Rem) }
    else if str_eq(text, "==") { Some(BinaryOp::Eq) }
    else if str_eq(text, "!=") { Some(BinaryOp::Ne) }
    else if str_eq(text, "<") { Some(BinaryOp::Lt) }
    else if str_eq(text, "<=") { Some(BinaryOp::Le) }
    else if str_eq(text, ">") { Some(BinaryOp::Gt) }
    else if str_eq(text, ">=") { Some(BinaryOp::Ge) }
    else { None }
}

/// The unary operator written as `text`.
fn unary_op(text: &str) -> (r: Option<UnaryOp>)
    ensures
        r == unary_of(text@),
{
    proof { reveal_strlit("!"); reveal_strlit("-"); }
    if str_eq(text, "!") { Some(UnaryOp::Not) } else if str_eq(text, "-") { Some(UnaryOp::Neg) } else { None }
}

/// Builds the literal of a literal node.
fn build_literal(t: &ParseNode) -> (r: Result<Literal, NbclError>)
    ensures
        match literal_err(*t) {
            Some(e) => err_res(e, r),
            None => r matches Ok(lit) && literal_ok(*t, lit),
        },
{
    if t.children.len() == 0 {
        return Err(malformed_error(t));
    }
    let c = &t.children[0];
    if c.rule == Rule::int_lit {
        match parse_i64(c.text.as_str()) {
            Some(v) => Ok(Literal::Int(v)),
            None => Err(syntax_error(concat2("invalid integer literal: ", c.text.as_str()), &c.span)),
        }
    } else if c.rule == Rule::float_lit {
        match c.float_bits {
            Some(b) => Ok(Literal::Float(b)),
            None => Err(syntax_error(to_owned_string("float literal without a value"), &c.span)),
        }
    } else if c.rule == Rule::bool_lit {
        proof { reveal_strlit("true"); }
        Ok(Literal::Bool(str_eq(c.text.as_str(), "true")))
    } else if c.rule == Rule::string_lit {
        Ok(Literal::Str(unquote(c.text.as_str()), StringType::Normal))
    } else {
        Ok(Literal::Null)
    }
}

/// Builds the expression of a parse node.
pub fn build_expr(t: &ParseNode) -> (r: Result<Expr, NbclError>)
    ensures
        expr_res(*t, r),
    decreases t, nkids(*t) + 2,
{
    let n = t.children.len();
    let rule = t.rule;
    if rule == Rule::expr || rule == Rule::or_expr || rule == Rule::and_expr || rule == Rule::add_expr || rule == Rule::mul_expr {
        if n == 0 {
            return Err(malformed_error(t));
        }
        if n % 2 == 0 {
            let r = build_chain(t, (n - 2) / 2);
            return match r {
                Err(e) => Err(e),
                Ok(_) => {
                    proof { reveal_strlit("expected operand after operator"); }
                    Err(syntax_error(to_owned_string("expected operand after operator"), &t.span))
                },
            };
        }
        build_chain(t, (n - 1) / 2)
    } else if rule == Rule::cmp_expr {
        if n == 0 {
            return Err(malformed_error(t));
        }
        let lhs = match build_expr(&t.children[0]) {
            Ok(x) => x,
            Err(e) => { return Err(e); },
        };
        if n == 1 {
            return Ok(lhs);
        }
        let op = match binary_op(t.children[1].text.as_str()) {
            Some(op) => op,
            None => { return Err(unknown_op_error(&t.children[1])); },
        };
        if n < 3 {
            proof { reveal_strlit("expected operand after operator"); }
            return Err(syntax_error(to_owned_string("expected operand after operator"), &t.span));
        }
        let rhs = match build_expr(&t.children[2]) {
            Ok(x) => x,
            Err(e) => { return Err(e); },
        };
        Ok(Expr { kind: ExprKind::Binary(Box::new(lhs), op, Box::new(rhs)), span: t.span.copy() })
    } else if rule == Rule::unary_expr {
        if n == 0 {
            return Err(malformed_error(t));
        }
        if t.children[0].rule == Rule::postfix_expr {
            return build_expr(&t.children[0]);
        }
        let op = match unary_op(t.children[0].text.as_str()) {
            Some(op) => op,
            None => { return Err(unknown_op_error(&t.children[0])); },
        };
        if n < 2 {
            return Err(malformed_error(t));
        }
        let x = match build_expr(&t.children[1]) {
            Ok(x) => x,
            Err(e) => { return Err(e); },
        };
        Ok(Expr { kind: ExprKind::Unary(op, Box::new(x)), span: t.span.copy() })
    } else if rule == Rule::postfix_expr || rule == Rule::assignable_lhs {
        if n == 0 {
            return Err(malformed_error(t));
        }
        let base = match build_expr(&t.children[0]) {
            Ok(x) => x,
            Err(e) => { return Err(e); },
        };
        build_postfix(t, base)
    } else if rule == Rule::range_expr {
        if n < 3 {
            return Err(malformed_error(t));
        }
        let a = match build_expr(&t.children[0]) {
            Ok(x) => x,
            Err(e) => { return Err(e); },
        };
        let b = match build_expr(&t.children[2]) {
            Ok(x) => x,
            Err(e) => { return Err(e); },
        };
        proof { reveal_strlit("..="); }
        let inclusive = str_eq(t.children[1].text.as_str(), "..=");
        Ok(Expr { kind: ExprKind::Range(Box::new(a), Box::new(b), inclusive), span: t.span.copy() })
    } else if rule == Rule::primary_expr {
        if n == 0 {
            return Err(malformed_error(t));
        }
        build_expr(&t.children[0])
    } else if rule == Rule::literal {
        match build_literal(t) {
            Ok(lit) => Ok(Expr { kind: ExprKind::Literal(lit), span: t.span.copy() }),
            Err(e) => Err(e),
        }
    } else if rule == Rule::snake_ident {
        Ok(Expr { kind: ExprKind::Variable(t.text.clone()), span: t.span.copy() })
    } else {
        proof { reveal_strlit("unknown expression: "); }
        Err(syntax_error(concat2("unknown expression: ", rule_to_human(rule)), &t.span))
    }
}

/// Builds the chain of the first `k` operators of a chain node.
fn build_chain(t: &ParseNode, k: usize) -> (r: Result<Expr, NbclError>)
    requires
        nkids(*t) > 0,
        2 * k < nkids(*t),
    ensures
        match chain_err(*t, k as int) {
            Some(e) => err_res(e, r),
            None => r matches Ok(x) && chain_ok(*t, k as int, x),
        },
    decreases t, k + 1,
{
    if k == 0 {
        return build_expr(&t.children[0]);
    }
    let lhs = match build_chain(t, k - 1) {
        Ok(x) => x,
        Err(e) => { return Err(e); },
    };
    let n = t.children.len();
    assert(2 * k < n);
    let i = 2 * k - 1;
    let op = match binary_op(t.children[i].text.as_str()) {
        Some(op) => op,
        None => { return Err(unknown_op_error(&t.children[i])); },
    };
    let rhs = match build_expr(&t.children[i + 1]) {
        Ok(x) => x,
        Err(e) => { return Err(e); },
    };
    Ok(Expr { kind: ExprKind::Binary(Box::new(lhs), op, Box::new(rhs)), span: t.span.copy() })
}

/// Applies the suffixes of a postfix node, in order, to its built base.
fn build_postfix(t: &ParseNode, base: Expr) -> (r: Result<Expr, NbclError>)
    requires
        is_postfix_rule(t.rule),
        nkids(*t) > 0,
        expr_err(kid(*t, 0)) is None,
        expr_ok(kid(*t, 0), base),
    ensures
        expr_res(*t, r),
    decreases t, nkids(*t) + 1,
{
    let n = t.children.len();
    let mut acc = base;
    let mut j: usize = 1;
    let ghost mut pre: Seq<int> = Seq::empty();
    proof { lemma_starts_len(*t, 1); }
    while j < n
        invariant
            n == nkids(*t),
            n > 0,
            1 <= j,
            is_postfix_rule(t.rule),
            expr_err(kid(*t, 0)) is None,
            starts(*t, 1) == pre + starts(*t, j as int),
            starts(*t, 1).len() <= n,
            suffix_err(*t, 1) == suffix_err(*t, j as int),
            post_ok(*t, pre, acc),
            forall|q: int| 0 <= q < pre.len() ==> 0 <= #[trigger] pre[q] < n,
        decreases n - j,
    {
        let s = &t.children[j];
        let ghost gacc = acc;
        let ghost gpre = pre;
        assert(starts(*t, j as int) == seq![j as int] + starts(*t, next_start(*t, j as int)));
        if s.rule == Rule::accessor {
            if j + 1 >= n {
                return Err(malformed_error(t));
            }
            proof { reveal_strlit("?."); }
            let safe = str_eq(s.text.as_str(), "?.");
            acc = Expr {
                kind: ExprKind::Field(Box::new(acc), t.children[j + 1].text.clone(), safe),
                span: t.span.copy(),
            };
            proof {
                pre = gpre.push(j as int);
                assert(pre.drop_last() == gpre);
                assert(suffix_err(*t, j as int) == suffix_err(*t, j + 2));
            }
            j = j + 2;
        } else if s.rule == Rule::expr {
            let i = match build_expr(s) {
                Ok(x) => x,
                Err(e) => { return Err(e); },
            };
            acc = Expr { kind: ExprKind::Index(Box::new(acc), Box::new(i)), span: t.span.copy() };
            proof {
                pre = gpre.push(j as int);
                assert(pre.drop_last() == gpre);
            }
            j = j + 1;
        } else if s.rule == Rule::call_args {
            let args = match build_args(s) {
                Ok(v) => v,
                Err(e) => { return Err(e); },
            };
            acc = Expr { kind: ExprKind::Call(Box::new(acc), args), span: t.span.copy() };
            proof {
                pre = gpre.push(j as int);
                assert(pre.drop_last() == gpre);
            }
            j = j + 1;
        } else {
            proof {
                pre = gpre.push(j as int);
                assert(pre.drop_last() == gpre);
            }
            j = j + 1;
        }
        proof {
            assert(starts(*t, 1) == pre + starts(*t, j as int));
        }
    }
    proof {
        assert(starts(*t, j as int) =~= Seq::<int>::empty());
        assert(pre =~= starts(*t, 1));
    }
    Ok(acc)
}

/// Builds the expressions of an argument list.
fn build_args(c: &ParseNode) -> (r: Result<Vec<Expr>, NbclError>)
    ensures
        match args_err(*c, nkids(*c)) {
            Some(e) => err_res(e, r),
            None => r matches Ok(v) && args_ok(*c, nkids(*c), v@),
        },
    decreases c, 0int,
{
    let mut out: Vec<Expr> = Vec::new();
    let mut k: usize = 0;
    while k < c.children.len()
        invariant
            k <= c.children@.len(),
            args_err(*c, k as int) is None,
            args_ok(*c, k as int, out@),
        decreases c.children@.len() - k,
    {
        let e = match build_expr(&c.children[k]) {
            Ok(x) => x,
            Err(err) => {
                proof { lemma_args_err_from(*c, k as int + 1, nkids(*c)); }
                return Err(err);
            },
        };
        let ghost before = out@;
        out.push(e);
        proof { assert(out@.drop_last() =~= before); }
        k = k + 1;
    }
    Ok(out)
}

/// An error among the first `k` arguments is the first error of the whole list.
proof fn lemma_args_err_from(c: ParseNode, k: int, m: int)
    requires
        0 < k <= m <= nkids(c),
        args_err(c, k) is Some,
    ensures
        args_err(c, m) == args_err(c, k),
    decreases m - k,
{
    if m > k {
        lemma_args_err_from(c, k, m - 1);
    }
}

} // verus!
