use nbcl::ast::{
    AssignOp, BinaryOp, Block, BodyItem, Branch, ComponentDef, ComponentInterface, ComponentSelection, Expr, ExprKind,
    File, FnDef, IfExpr, ImportDef, ImportDefType, Literal, MatchArm, MatchBody, NodeInvocation, NodeItem, Parameter,
    ReturnType, Stmt, StringType, TopLevelItem, UnaryOp,
};
use nbcl::engine::{Context, EvalContext, NbclEngine};
use nbcl::state::FlowControl;
use nbcl::builder::{ImportFeatures, ParseNode};
use nbcl::error::{NbclError, Rule, Span};
use nbcl::file_builder::build_file;
use nbcl::host::{FloatOp, Host};
use nbcl::registry::{Library, LibraryItem, NativeNodeSchema, PropValidation};
use nbcl::value::{ResolvedNode, ResolvedTree, Type, Value};
use std::rc::Rc;

struct TestHost {
    calls: u64,
    printed: Vec<String>,
    module: Option<(String, ParseNode)>,
    native_args: Vec<(u64, Vec<Value>)>,
    requests: Vec<String>,
    known: Option<String>,
}

impl TestHost {
    fn new() -> TestHost {
        TestHost { calls: 0, printed: Vec::new(), module: None, native_args: Vec::new(), requests: Vec::new(), known: None }
    }
}

impl Host for TestHost {
    fn call_native(&mut self, handle: u64, args: Vec<Value>) -> Result<Value, NbclError> {
        self.calls += 1;
        self.native_args.push((handle, args));
        if handle == 7 {
            return Ok(Value::Str("from host".to_string()));
        }
        Ok(Value::Null)
    }
    fn float_display(&mut self, bits: u64) -> String {
        format!("{}", f64::from_bits(bits))
    }
    fn float_debug(&mut self, bits: u64) -> String {
        format!("Float({:?})", f64::from_bits(bits))
    }
    fn float_arith(&mut self, op: FloatOp, a: u64, b: u64) -> u64 {
        let (x, y) = (f64::from_bits(a), f64::from_bits(b));
        let r = match op {
            FloatOp::Add => x + y,
            FloatOp::Sub => x - y,
            FloatOp::Mul => x * y,
            FloatOp::Div => x / y,
        };
        r.to_bits()
    }
    fn float_eq(&mut self, a: u64, b: u64) -> bool {
        f64::from_bits(a) == f64::from_bits(b)
    }
    fn print(&mut self, line: &str) {
        self.printed.push(line.to_string());
    }
    fn resolve_module(&mut self, path: &str) -> Result<String, NbclError> {
        self.requests.push(format!("resolve {}", path));
        if let Some((target, _)) = &self.module {
            self.known = Some(target.clone());
        }
        match self.known.clone() {
            Some(target) => Ok(target),
            None => Err(NbclError::IO { message: "no module".to_string(), hint: None, path: path.to_string() }),
        }
    }
    fn read_module(&mut self, target: &str) -> Result<ParseNode, NbclError> {
        self.requests.push(format!("read {}", target));
        match self.module.take() {
            Some((_, f)) => Ok(f),
            None => Err(NbclError::IO { message: "unreadable".to_string(), hint: None, path: target.to_string() }),
        }
    }
}

fn sp() -> Span {
    Span::dummy()
}

/// A parse-tree node.
fn pn(rule: Rule, text: &str, children: Vec<ParseNode>) -> ParseNode {
    ParseNode { rule, span: sp(), text: text.to_string(), children, float_bits: None }
}

/// The parse tree of a file whose top-level items are `items`.
fn tree_of(items: Vec<ParseNode>) -> ParseNode {
    let mut children: Vec<ParseNode> = items.into_iter().map(|i| pn(Rule::top_level_item, "", vec![i])).collect();
    children.push(pn(Rule::EOI, "", vec![]));
    pn(Rule::file, "", children)
}

/// The parse tree of an `Object` node with the string id `id` and no body.
fn object_tree(id: &str) -> ParseNode {
    let lit = pn(Rule::literal, "", vec![pn(Rule::string_lit, &format!("\"{}\"", id), vec![])]);
    pn(Rule::node_invocation, "", vec![pn(Rule::pascal_ident, "Object", vec![]), lit])
}

fn all_imports() -> ImportFeatures {
    ImportFeatures { module_imports: true, lib_imports: true }
}

fn ex(kind: ExprKind) -> Expr {
    Expr { kind, span: sp() }
}

fn num(i: i64) -> Expr {
    ex(ExprKind::Literal(Literal::Int(i)))
}

fn boolean(b: bool) -> Expr {
    ex(ExprKind::Literal(Literal::Bool(b)))
}

fn null() -> Expr {
    ex(ExprKind::Literal(Literal::Null))
}

fn text(s: &str) -> Expr {
    ex(ExprKind::Literal(Literal::Str(s.to_string(), StringType::Normal)))
}

fn fmt_text(s: &str) -> Expr {
    ex(ExprKind::Literal(Literal::Str(s.to_string(), StringType::Format)))
}

fn var(name: &str) -> Expr {
    ex(ExprKind::Variable(name.to_string()))
}

fn bin(l: Expr, op: BinaryOp, r: Expr) -> Expr {
    ex(ExprKind::Binary(Box::new(l), op, Box::new(r)))
}

fn call(name: &str, args: Vec<Expr>) -> Expr {
    ex(ExprKind::Call(Box::new(var(name)), args))
}

fn field(src: Expr, name: &str, safe: bool) -> Expr {
    ex(ExprKind::Field(Box::new(src), name.to_string(), safe))
}

fn index(t: Expr, k: Expr) -> Expr {
    ex(ExprKind::Index(Box::new(t), Box::new(k)))
}

fn list(items: Vec<Expr>) -> Expr {
    ex(ExprKind::Literal(Literal::List(items)))
}

fn dict(entries: Vec<(&str, Expr)>) -> Expr {
    ex(ExprKind::Literal(Literal::Dict(entries.into_iter().map(|(k, v)| (k.to_string(), v)).collect())))
}

fn let_(name: &str, e: Expr) -> TopLevelItem {
    TopLevelItem::Stmt(Stmt::Let(name.to_string(), e))
}

fn stmt(e: Expr) -> TopLevelItem {
    TopLevelItem::Stmt(Stmt::Expr(e))
}

fn assign(lhs: Expr, op: AssignOp, rhs: Expr) -> Stmt {
    Stmt::Assign(lhs, op, rhs, sp())
}

fn prop(k: &str, e: Expr) -> NodeItem {
    NodeItem::Prop(k.to_string(), e, sp())
}

fn node(ty: &str, id: Option<Expr>, body: Vec<NodeItem>) -> NodeInvocation {
    NodeInvocation { node_type: ty.to_string(), id, body, span: sp() }
}

fn file(items: Vec<TopLevelItem>) -> File {
    File { items, span: sp() }
}

fn function(name: &str, params: Vec<&str>, body: Vec<BodyItem>) -> TopLevelItem {
    TopLevelItem::FnDef(Rc::new(FnDef {
        name: name.to_string(),
        params: params.into_iter().map(|p| p.to_string()).collect(),
        body,
        span: sp(),
    }))
}

fn run(items: Vec<TopLevelItem>) -> (Result<ResolvedTree, NbclError>, TestHost) {
    let engine = NbclEngine::new();
    let mut host = TestHost::new();
    let r = engine.evaluate_ast(file(items), &mut host);
    (r, host)
}

/// Evaluates `e` as the only property of an `Object` node and gives the property.
fn value_of(mut items: Vec<TopLevelItem>, e: Expr) -> Result<Value, NbclError> {
    items.push(TopLevelItem::Node(node("Object", None, vec![prop("v", e)])));
    let (r, _) = run(items);
    r.map(|mut t| t.root_nodes.remove(0).props.remove(0).1)
}

fn message(r: Result<Value, NbclError>) -> String {
    match r {
        Err(NbclError::Runtime { message, .. }) => message,
        Err(NbclError::Ast { message, .. }) => message,
        other => panic!("expected an error, got {:?}", other),
    }
}

fn hint(r: Result<Value, NbclError>) -> Option<String> {
    match r {
        Err(NbclError::Runtime { hint, .. }) => hint,
        Err(NbclError::Ast { hint, .. }) => hint,
        other => panic!("expected an error, got {:?}", other),
    }
}

fn prop_of<'a>(n: &'a ResolvedNode, k: &str) -> &'a Value {
    &n.props.iter().find(|(key, _)| key == k).unwrap().1
}

#[test]
fn test_native_fn_registration() {
    let mut engine = NbclEngine::new();
    engine.register_native_fn("increment", vec![], Type::Null, 1);
    let mut host = TestHost::new();
    let call_tree = || {
        let call = pn(Rule::postfix_expr, "increment()", vec![
            pn(Rule::snake_ident, "increment", vec![]),
            pn(Rule::call_args, "()", vec![]),
        ]);
        pn(Rule::stmt, "", vec![pn(Rule::expr_stmt, "", vec![call])])
    };
    let f = build_file(&tree_of(vec![call_tree(), call_tree()]), all_imports()).unwrap();
    engine.evaluate_ast(f, &mut host).unwrap();
    assert_eq!(host.calls, 2);
}

#[test]
fn test_complex_logic_and_scoping() {
    let mut engine = NbclEngine::new();
    engine.register_node(NativeNodeSchema {
        node_type: "Result".to_string(),
        enforce_id: false,
        validation: PropValidation::Loose,
        child_count: None,
    });
    let leaf = |rule: Rule, text: &str| pn(rule, text, vec![]);
    let int_lit = |t: &str| pn(Rule::literal, "", vec![leaf(Rule::int_lit, t)]);
    let ident = |t: &str| leaf(Rule::snake_ident, t);
    let local = |name: &str, value: ParseNode| {
        pn(Rule::stmt, "", vec![pn(Rule::local_stmt, "", vec![leaf(Rule::snake_ident, name), value])])
    };
    let prop_item = |key: &str, value: ParseNode| {
        pn(Rule::node_item, "", vec![pn(Rule::node_prop, "", vec![
            leaf(Rule::prop_key, key),
            pn(Rule::prop_value, "", vec![value]),
        ])])
    };
    // (base_cpu + 2) * multiplier / 2
    let sum = pn(Rule::primary_expr, "", vec![pn(Rule::add_expr, "", vec![ident("base_cpu"), leaf(Rule::add_op, "+"), int_lit("2")])]);
    let total = pn(Rule::mul_expr, "", vec![sum, leaf(Rule::mul_op, "*"), ident("multiplier"), leaf(Rule::mul_op, "/"), int_lit("2")]);
    // total_cpu == 8 && true
    let eq = pn(Rule::cmp_expr, "", vec![ident("total_cpu"), leaf(Rule::cmp_op, "=="), int_lit("8")]);
    let valid = pn(Rule::and_expr, "", vec![eq, leaf(Rule::and_op, "&&"), pn(Rule::literal, "", vec![leaf(Rule::bool_lit, "true")])]);
    // null || "v1.0"
    let version = pn(Rule::or_expr, "", vec![
        pn(Rule::literal, "", vec![leaf(Rule::null_lit, "null")]),
        leaf(Rule::or_op, "||"),
        pn(Rule::literal, "", vec![leaf(Rule::string_lit, "\"v1.0\"")]),
    ]);
    let result = pn(Rule::node_invocation, "", vec![
        leaf(Rule::pascal_ident, "Result"),
        pn(Rule::literal, "", vec![leaf(Rule::string_lit, "\"check\"")]),
        pn(Rule::node_block, "", vec![
            prop_item("cpu", ident("total_cpu")),
            prop_item("valid", ident("is_valid")),
            prop_item("ver", ident("version")),
        ]),
    ]);
    let tree = tree_of(vec![
        local("base_cpu", int_lit("2")),
        local("multiplier", int_lit("4")),
        local("total_cpu", total),
        local("is_valid", valid),
        local("version", version),
        result,
    ]);
    let parsed = build_file(&tree, all_imports()).unwrap();
    let mut host = TestHost::new();
    let resolved = engine.evaluate_ast(parsed, &mut host).unwrap();
    let node = &resolved.root_nodes[0];
    assert_eq!(prop_of(node, "cpu"), &Value::Int(8));
    assert_eq!(prop_of(node, "valid"), &Value::Bool(true));
    assert_eq!(prop_of(node, "ver"), &Value::Str("v1.0".into()));
}

#[test]
fn test_print_shows_display_text() {
    let (r, host) = run(vec![stmt(call("print", vec![text("Hello, World")]))]);
    assert_eq!(r.unwrap().root_nodes.len(), 0);
    assert_eq!(host.printed, vec!["\"Hello, World\"".to_string()]);
}

#[test]
fn test_object_node_keeps_props_in_order() {
    let (r, _) = run(vec![TopLevelItem::Node(node("Object", Some(text("server")), vec![
        prop("port", num(3000)),
        prop("address", text("nbcl-lang.github.io")),
        prop("port", num(3001)),
    ]))]);
    let tree = r.unwrap();
    let n = &tree.root_nodes[0];
    assert_eq!(n.node_type, "Object");
    assert_eq!(n.id, Some("server".to_string()));
    assert_eq!(n.props, vec![("port".to_string(), Value::Int(3001)), ("address".to_string(), Value::Str("nbcl-lang.github.io".into()))]);
}

#[test]
fn test_arithmetic_formulas() {
    assert_eq!(value_of(vec![], bin(num(7), BinaryOp::Div, num(-2))).unwrap(), Value::Int(-3));
    assert_eq!(value_of(vec![], bin(num(-7), BinaryOp::Rem, num(2))).unwrap(), Value::Int(-1));
    assert_eq!(value_of(vec![], bin(num(6), BinaryOp::Sub, num(10))).unwrap(), Value::Int(-4));
    assert_eq!(value_of(vec![], bin(text("a"), BinaryOp::Add, text("b"))).unwrap(), Value::Str("ab".into()));
    assert_eq!(value_of(vec![], bin(text("apple"), BinaryOp::Lt, text("banana"))).unwrap(), Value::Bool(true));
    assert_eq!(value_of(vec![], ex(ExprKind::Unary(UnaryOp::Neg, Box::new(num(5))))).unwrap(), Value::Int(-5));
    assert_eq!(value_of(vec![], ex(ExprKind::Unary(UnaryOp::Not, Box::new(null())))).unwrap(), Value::Bool(true));
}

#[test]
fn test_arithmetic_errors() {
    assert_eq!(message(value_of(vec![], bin(num(1), BinaryOp::Div, num(0)))), "division by zero");
    assert_eq!(message(value_of(vec![], bin(num(1), BinaryOp::Rem, num(0)))), "modulo by zero");
    assert_eq!(message(value_of(vec![], bin(num(i64::MAX), BinaryOp::Add, num(1)))), "integer overflow");
    assert_eq!(message(value_of(vec![], bin(num(1), BinaryOp::Add, text("x")))),
        "operation '+' not supported between Int(1) and Str(\"x\")");
    assert_eq!(message(value_of(vec![], ex(ExprKind::Unary(UnaryOp::Neg, Box::new(text("x")))))),
        "unary '-' can only be applied to numbers");
}

#[test]
fn test_or_does_not_evaluate_right_side() {
    assert_eq!(value_of(vec![], bin(num(1), BinaryOp::Or, var("missing"))).unwrap(), Value::Int(1));
    assert_eq!(value_of(vec![], bin(boolean(false), BinaryOp::And, var("missing"))).unwrap(), Value::Bool(false));
    assert_eq!(message(value_of(vec![], bin(null(), BinaryOp::Or, var("missing")))), "undefined variable: missing");
}

#[test]
fn test_lookup_after_declare() {
    assert_eq!(value_of(vec![let_("x", num(1)), let_("x", num(2))], var("x")).unwrap(), Value::Int(2));
}

#[test]
fn test_fields_and_indexes() {
    let m = dict(vec![("a", num(1)), ("b", list(vec![num(10), num(20)]))]);
    assert_eq!(value_of(vec![], field(m, "a", false)).unwrap(), Value::Int(1));
    let m = dict(vec![("a", num(1))]);
    assert_eq!(value_of(vec![], field(m, "z", true)).unwrap(), Value::Null);
    let m = dict(vec![("a", num(1))]);
    assert_eq!(message(value_of(vec![], field(m, "z", false))), "map has no field: z");
    assert_eq!(value_of(vec![], index(list(vec![num(10), num(20)]), num(1))).unwrap(), Value::Int(20));
    assert_eq!(message(value_of(vec![], index(list(vec![num(10)]), num(3)))), "index 3 out of bounds");
    assert_eq!(message(value_of(vec![], index(dict(vec![("a", num(1))]), text("b")))), "key 'b' not found in map");
    assert_eq!(message(value_of(vec![], index(num(1), num(0)))), "invalid index operation");
    assert_eq!(message(value_of(vec![], field(num(1), "a", false))), "cannot access field 'a' on non-map type: Int(1)");
}

#[test]
fn test_ranges() {
    let r = ex(ExprKind::Range(Box::new(num(1)), Box::new(num(3)), true));
    assert_eq!(value_of(vec![], r).unwrap(), Value::Range(1, 4));
    let r = ex(ExprKind::Range(Box::new(num(1)), Box::new(text("x")), false));
    assert_eq!(message(value_of(vec![], r)), "range boundaries must be integers");
}

#[test]
fn test_builtins() {
    assert_eq!(value_of(vec![], call("len", vec![text("héllo")])).unwrap(), Value::Int(6));
    assert_eq!(value_of(vec![], call("len", vec![list(vec![num(1), num(2)])])).unwrap(), Value::Int(2));
    assert_eq!(value_of(vec![], call("type_of", vec![dict(vec![])])).unwrap(), Value::Str("Map".into()));
    assert_eq!(value_of(vec![], call("to_string", vec![list(vec![num(1), text("a")])])).unwrap(), Value::Str("[1, \"a\"]".into()));
    assert_eq!(value_of(vec![], call("contains", vec![text("hello"), text("ell")])).unwrap(), Value::Bool(true));
    assert_eq!(value_of(vec![], call("contains", vec![list(vec![num(1), num(2)]), num(2)])).unwrap(), Value::Bool(true));
    assert_eq!(value_of(vec![], call("push", vec![list(vec![num(1)]), num(2)])).unwrap(), Value::List(vec![Value::Int(1), Value::Int(2)]));
    assert_eq!(value_of(vec![], call("pop", vec![list(vec![num(1), num(5)])])).unwrap(), Value::Int(5));
    assert_eq!(value_of(vec![], call("pop", vec![list(vec![])])).unwrap(), Value::Null);
    assert_eq!(value_of(vec![], call("keys", vec![dict(vec![("a", num(1))])])).unwrap(), Value::List(vec![Value::Str("a".into())]));
    assert_eq!(value_of(vec![], call("values", vec![dict(vec![("a", num(1))])])).unwrap(), Value::List(vec![Value::Int(1)]));
    assert_eq!(value_of(vec![], call("as_int", vec![num(4)])).unwrap(), Value::Int(4));
    assert_eq!(message(value_of(vec![], call("as_int", vec![text("4")]))), "as_int() not supported for type String");
    assert_eq!(message(value_of(vec![], call("len", vec![num(4)]))), "len() not supported for type Int");
}

#[test]
fn test_native_checks() {
    assert_eq!(message(value_of(vec![], call("len", vec![]))), "native function 'len' expected 1 args, got 0");
    assert_eq!(message(value_of(vec![], call("push", vec![num(1), num(2)]))), "native function 'push' arg 0 expected List, got Int");
    assert_eq!(message(value_of(vec![], call("nope", vec![]))), "undefined function: nope");
}

#[test]
fn test_user_functions() {
    let add = function("add", vec!["a", "b"], vec![BodyItem::Stmt(Stmt::Expr(bin(var("a"), BinaryOp::Add, var("b"))))]);
    assert_eq!(value_of(vec![add], call("add", vec![num(2), num(3)])).unwrap(), Value::Int(5));
    let early = function("early", vec![], vec![
        BodyItem::Stmt(Stmt::Return(Some(ReturnType::Expr(num(1))), sp())),
        BodyItem::Stmt(Stmt::Expr(num(2))),
    ]);
    assert_eq!(value_of(vec![early], call("early", vec![])).unwrap(), Value::Int(1));
    let add = function("add", vec!["a", "b"], vec![]);
    assert_eq!(message(value_of(vec![add], call("add", vec![num(2)]))), "expected 2 arguments, got 1");
}

#[test]
fn test_recursion_depth_limit() {
    let f = function("f", vec![], vec![BodyItem::Stmt(Stmt::Expr(call("f", vec![])))]);
    assert_eq!(message(value_of(vec![f], call("f", vec![]))), "maximum recursion depth of 5 exceeded");
}

#[test]
fn test_step_limit() {
    let mut engine = NbclEngine::new();
    engine.set_step_limit(3);
    let mut host = TestHost::new();
    let items = vec![TopLevelItem::Node(node("Object", None, vec![prop("v", bin(num(1), BinaryOp::Add, bin(num(1), BinaryOp::Add, num(1))))]))];
    let r = engine.evaluate_ast(file(items), &mut host);
    assert_eq!(message(r.map(|_| Value::Null)), "evaluation step limit reached");
}

#[test]
fn test_return_at_top_level_is_refused() {
    let (r, _) = run(vec![TopLevelItem::Stmt(Stmt::Return(None, sp()))]);
    assert_eq!(message(r.map(|_| Value::Null)), "cannot return from the top level");
}

#[test]
fn test_assignments() {
    let items = vec![
        let_("x", num(1)),
        TopLevelItem::Stmt(assign(var("x"), AssignOp::PlusEqual, num(4))),
        let_("m", dict(vec![("a", num(1))])),
        TopLevelItem::Stmt(assign(field(var("m"), "b", false), AssignOp::Equal, num(2))),
        let_("l", list(vec![num(1), num(2)])),
        TopLevelItem::Stmt(assign(index(var("l"), num(0)), AssignOp::MultEqual, num(10))),
    ];
    assert_eq!(value_of(items, list(vec![var("x"), field(var("m"), "b", false), index(var("l"), num(0))])).unwrap(),
        Value::List(vec![Value::Int(5), Value::Int(2), Value::Int(10)]));
    let items = vec![TopLevelItem::Stmt(Stmt::Const("c".to_string(), num(1))), TopLevelItem::Stmt(assign(var("c"), AssignOp::Equal, num(2)))];
    assert_eq!(message(value_of(items, num(0))), "cannot reassign to constant variable 'c'");
    let items = vec![TopLevelItem::Stmt(assign(var("nope"), AssignOp::Equal, num(2)))];
    assert_eq!(message(value_of(items, num(0))), "variable 'nope' doesn't exist");
    let items = vec![let_("s", text("a")), TopLevelItem::Stmt(assign(var("s"), AssignOp::MinEqual, num(2)))];
    assert_eq!(message(value_of(items, num(0))), "type mismatch in '-=' operation");
    let items = vec![let_("m", dict(vec![])), TopLevelItem::Stmt(assign(field(var("m"), "z", false), AssignOp::PlusEqual, num(2)))];
    assert_eq!(message(value_of(items, num(0))), "cannot update field 'z' that doesn't exist");
}

#[test]
fn test_compound_assignment_matches_operator() {
    let cases = [
        (AssignOp::PlusEqual, BinaryOp::Add, 7, 3),
        (AssignOp::MinEqual, BinaryOp::Sub, 7, 10),
        (AssignOp::MultEqual, BinaryOp::Mul, -7, 3),
        (AssignOp::DivEqual, BinaryOp::Div, -7, 2),
    ];
    for (aop, bop, a, b) in cases {
        let items = vec![let_("x", num(a)), TopLevelItem::Stmt(assign(var("x"), aop, num(b)))];
        let compound = value_of(items, var("x")).unwrap();
        let plain = value_of(vec![], bin(num(a), bop, num(b))).unwrap();
        assert_eq!(compound, plain);
    }
    let items = vec![let_("x", num(5)), TopLevelItem::Stmt(assign(var("x"), AssignOp::DivEqual, num(0)))];
    assert_eq!(message(value_of(items, num(0))), message(value_of(vec![], bin(num(5), BinaryOp::Div, num(0)))));
    let items = vec![let_("x", num(i64::MAX)), TopLevelItem::Stmt(assign(var("x"), AssignOp::PlusEqual, num(1)))];
    assert_eq!(message(value_of(items, num(0))), "integer overflow");
    let items = vec![let_("s", text("ab")), TopLevelItem::Stmt(assign(var("s"), AssignOp::PlusEqual, text("c")))];
    assert_eq!(value_of(items, var("s")).unwrap(), Value::Str("abc".into()));
}

#[test]
fn test_error_hints() {
    let dym = |x: &str| Some(format!("Did you mean \"{}\"?", x));
    assert_eq!(hint(value_of(vec![let_("counter", num(1))], var("countr"))), dym("counter"));
    assert_eq!(hint(value_of(vec![], var("zzzzzzzz"))), None);
    assert_eq!(hint(value_of(vec![], bin(num(1), BinaryOp::Div, num(0)))),
        Some("Try replacing the zero with another number, silly!".to_string()));
    let items = vec![let_("x", num(1)), TopLevelItem::Stmt(assign(var("x"), AssignOp::DivEqual, num(0)))];
    assert_eq!(hint(value_of(items, num(0))), Some("Try replacing the zero with another number, silly!".to_string()));
    let m = || let_("m", dict(vec![("alpha", num(1))]));
    assert_eq!(hint(value_of(vec![m()], field(var("m"), "alpah", false))), dym("alpha"));
    assert_eq!(hint(value_of(vec![m()], field(var("m"), "zzzzzz", false))),
        Some("If this field is optional, try using the safe access operator: \"?.\"zzzzzz".to_string()));
    assert_eq!(hint(value_of(vec![m()], index(var("m"), text("alph")))), dym("alpha"));
    assert_eq!(hint(value_of(vec![], call("prnt", vec![num(1)]))), dym("print"));
    assert_eq!(hint(value_of(vec![], call("contains", vec![num(1)]))), Some("Usage: contains(Any, Any)".to_string()));
    assert_eq!(message(value_of(vec![], call("push", vec![num(1), num(2)]))), "native function 'push' arg 0 expected List, got Int");
    assert_eq!(hint(value_of(vec![], call("push", vec![num(1), num(2)]))), Some("Check the 1st argument. It must be a List.".to_string()));
    assert_eq!(hint(value_of(vec![], call("keys", vec![text("-12")]))),
        Some("This value is a string, but the function needs a number. Try removing the quotes.".to_string()));
    assert_eq!(hint(value_of(vec![], call("keys", vec![text("99999999999999999999")]))),
        Some("Check the 1st argument. It must be a Map.".to_string()));
    let add = function("add", vec!["a", "b"], vec![]);
    assert_eq!(hint(value_of(vec![add], call("add", vec![num(2)]))), Some("Signature: add(a, b)".to_string()));
    let items = vec![TopLevelItem::Stmt(Stmt::Const("limit".to_string(), num(1))), TopLevelItem::Stmt(assign(var("limit"), AssignOp::Equal, num(2)))];
    assert_eq!(hint(value_of(items, num(0))),
        Some("This variable was declared with 'const', or is an immutable loop/property binding.".to_string()));
    let items = vec![let_("total", num(1)), TopLevelItem::Stmt(assign(var("totl"), AssignOp::Equal, num(2)))];
    assert_eq!(hint(value_of(items, num(0))), dym("total"));
    let (r, _) = run(vec![TopLevelItem::Node(node("Objct", None, vec![]))]);
    match r {
        Err(NbclError::Runtime { message, hint, .. }) => {
            assert_eq!(message, "unknown node or component: Objct");
            assert_eq!(hint, dym("Object"));
        }
        other => panic!("expected an error, got {:?}", other),
    }
}

#[test]
fn test_loops() {
    let body = Block {
        stmts: vec![assign(var("sum"), AssignOp::PlusEqual, var("i"))],
        terminator: None,
    };
    let items = vec![
        let_("sum", num(0)),
        TopLevelItem::Stmt(Stmt::For(vec!["i".to_string()], ex(ExprKind::Range(Box::new(num(1)), Box::new(num(4)), false)), body)),
    ];
    assert_eq!(value_of(items, var("sum")).unwrap(), Value::Int(6));
    let body = Block { stmts: vec![assign(var("sum"), AssignOp::PlusEqual, var("x"))], terminator: None };
    let items = vec![
        let_("sum", num(0)),
        TopLevelItem::Stmt(Stmt::For(vec!["x".to_string()], list(vec![num(5), num(7)]), body)),
    ];
    assert_eq!(value_of(items, var("sum")).unwrap(), Value::Int(12));
    let body = Block { stmts: vec![assign(var("n"), AssignOp::MinEqual, num(1))], terminator: None };
    let items = vec![let_("n", num(3)), TopLevelItem::Stmt(Stmt::While(bin(var("n"), BinaryOp::Gt, num(0)), body))];
    assert_eq!(value_of(items, var("n")).unwrap(), Value::Int(0));
}

#[test]
fn test_if_and_match() {
    let ife = IfExpr {
        condition: boolean(false),
        then_branch: Branch { body: vec![], result: Some(num(1)) },
        else_ifs: vec![(boolean(true), Branch { body: vec![], result: Some(num(2)) })],
        else_branch: Some(Branch { body: vec![], result: Some(num(3)) }),
    };
    assert_eq!(value_of(vec![], ex(ExprKind::If(Box::new(ife)))).unwrap(), Value::Int(2));
    let arms = vec![
        MatchArm { pattern: "1".to_string(), body: MatchBody::Expr(text("one")), is_var: false },
        MatchArm { pattern: "other".to_string(), body: MatchBody::Expr(var("other")), is_var: true },
    ];
    assert_eq!(value_of(vec![], ex(ExprKind::Match(Box::new(num(1)), arms))).unwrap(), Value::Str("one".into()));
    let arms = vec![
        MatchArm { pattern: "1".to_string(), body: MatchBody::Expr(text("one")), is_var: false },
        MatchArm { pattern: "other".to_string(), body: MatchBody::Expr(var("other")), is_var: true },
    ];
    assert_eq!(value_of(vec![], ex(ExprKind::Match(Box::new(num(7)), arms))).unwrap(), Value::Int(7));
}

#[test]
fn test_string_interpolation() {
    let items = vec![let_("name", text("World"))];
    assert_eq!(value_of(items, fmt_text("Hello, ${ name }!\\n")).unwrap(), Value::Str("Hello, World!\n".into()));
    assert_eq!(value_of(vec![], text("cost: ${x}")).unwrap(), Value::Str("cost: ${x}".into()));
    assert_eq!(value_of(vec![], fmt_text("[${missing}]")).unwrap(), Value::Str("[]".into()));
}

#[test]
fn test_lambdas() {
    let def = Rc::new(FnDef {
        name: "lambda#1".to_string(),
        params: vec!["x".to_string()],
        body: vec![BodyItem::Stmt(Stmt::Expr(bin(var("x"), BinaryOp::Mul, num(2))))],
        span: sp(),
    });
    let items = vec![let_("double", ex(ExprKind::Lambda(def)))];
    assert_eq!(value_of(items, call("double", vec![num(21)])).unwrap(), Value::Int(42));
}

#[test]
fn test_unknown_node_and_required_id() {
    let (r, _) = run(vec![TopLevelItem::Node(node("Objct", None, vec![]))]);
    assert_eq!(message(r.map(|_| Value::Null)), "unknown node or component: Objct");
    let mut engine = NbclEngine::new();
    engine.register_node(NativeNodeSchema { node_type: "Server".into(), enforce_id: true, validation: PropValidation::Loose, child_count: None });
    let mut host = TestHost::new();
    let r = engine.evaluate_ast(file(vec![TopLevelItem::Node(node("Server", None, vec![]))]), &mut host);
    assert_eq!(message(r.map(|_| Value::Null)), "node 'Server' requires an #id");
}

#[test]
fn test_strict_node_validation() {
    let mut engine = NbclEngine::new();
    engine.register_node(NativeNodeSchema {
        node_type: "Port".into(),
        enforce_id: false,
        validation: PropValidation::Strict(vec![("n".to_string(), Type::Int)]),
        child_count: None,
    });
    let mut host = TestHost::new();
    let r = engine.evaluate_ast(file(vec![TopLevelItem::Node(node("Port", None, vec![prop("x", num(1))]))]), &mut host);
    assert_eq!(message(r.map(|_| Value::Null)), "property 'x' is not allowed on node 'Port'");
    let mut host = TestHost::new();
    let ok = engine.evaluate_ast(file(vec![TopLevelItem::Node(node("Port", None, vec![prop("n", num(1))]))]), &mut host);
    assert_eq!(ok.unwrap().root_nodes[0].props[0].1, Value::Int(1));
    let mut host = TestHost::new();
    let bad = engine.evaluate_ast(file(vec![TopLevelItem::Node(node("Port", None, vec![prop("n", text("one"))]))]), &mut host);
    assert_eq!(message(bad.map(|_| Value::Null)), "type mismatch for 'n' on 'Port': expected Int, found \"String\"");
}

fn component(name: &str, interface: ComponentInterface, body: Vec<NodeItem>) -> TopLevelItem {
    TopLevelItem::ComponentDef(Rc::new(ComponentDef { name: name.to_string(), interface, body, span: sp() }))
}

#[test]
fn test_components() {
    let card = component("Card", ComponentInterface::Strict(vec![
        Parameter { name: "title".into(), type_hint: Some("String".into()), is_optional: false },
        Parameter { name: "size".into(), type_hint: None, is_optional: true },
    ]), vec![NodeItem::Child(node("Object", None, vec![prop("t", var("title")), prop("s", var("size"))]))]);
    let (r, _) = run(vec![card, TopLevelItem::Node(node("Card", None, vec![prop("title", text("hi"))]))]);
    let tree = r.unwrap();
    assert_eq!(tree.root_nodes.len(), 1);
    assert_eq!(tree.root_nodes[0].props, vec![("t".to_string(), Value::Str("hi".into())), ("s".to_string(), Value::Null)]);
    let card = component("Card", ComponentInterface::Strict(vec![
        Parameter { name: "title".into(), type_hint: None, is_optional: false },
    ]), vec![]);
    let (r, _) = run(vec![card, TopLevelItem::Node(node("Card", None, vec![]))]);
    assert_eq!(message(r.map(|_| Value::Null)), "missing required prop 'title' for component 'Card'");
    let card = component("Card", ComponentInterface::Empty, vec![prop("id_required", boolean(true))]);
    let (r, _) = run(vec![card, TopLevelItem::Node(node("Card", None, vec![]))]);
    assert_eq!(message(r.map(|_| Value::Null)), "component 'Card' requires an id");
    let card = component("Card", ComponentInterface::Empty, vec![prop("child_count", num(1))]);
    let (r, _) = run(vec![card, TopLevelItem::Node(node("Card", None, vec![]))]);
    assert_eq!(message(r.map(|_| Value::Null)), "component 'Card' requires exactly 1 child, but got 0");
    let wrap = component("Wrap", ComponentInterface::Loose("props".into()), vec![NodeItem::Child(node("Object", None, vec![prop("all", var("props"))]))]);
    let (r, _) = run(vec![wrap, TopLevelItem::Node(node("Wrap", None, vec![prop("a", num(1))]))]);
    assert_eq!(r.unwrap().root_nodes[0].props[0].1, Value::Dict(vec![("a".to_string(), Value::Int(1))]));
}

#[test]
fn test_definitions_may_follow_their_use() {
    let double = function("double", vec!["x"], vec![BodyItem::Stmt(Stmt::Expr(bin(var("x"), BinaryOp::Mul, num(2))))]);
    assert_eq!(value_of(vec![let_("y", call("double", vec![num(21)])), double], var("y")).unwrap(), Value::Int(42));
    let card = component("Card", ComponentInterface::Empty, vec![NodeItem::Child(node("Object", None, vec![prop("k", num(1))]))]);
    let (r, _) = run(vec![TopLevelItem::Node(node("Card", None, vec![])), card]);
    assert_eq!(r.unwrap().root_nodes[0].props, vec![("k".to_string(), Value::Int(1))]);
    let first = function("f", vec![], vec![BodyItem::Stmt(Stmt::Expr(num(1)))]);
    let second = function("f", vec![], vec![BodyItem::Stmt(Stmt::Expr(num(2)))]);
    assert_eq!(value_of(vec![first, second], call("f", vec![])).unwrap(), Value::Int(2));
}

#[test]
fn test_scopes_close_and_setup_is_kept() {
    let body = Block { stmts: vec![Stmt::Let("t".to_string(), var("i"))], terminator: None };
    let f = function("f", vec![], vec![
        BodyItem::Stmt(Stmt::For(vec!["i".to_string()], ex(ExprKind::Range(Box::new(num(0)), Box::new(num(3)), false)), body)),
        BodyItem::Stmt(Stmt::Expr(num(5))),
    ]);
    let items = || vec![f_clone(&f), let_("a", call("f", vec![])), let_("b", num(1))];
    assert_eq!(value_of(items(), list(vec![var("a"), var("b")])).unwrap(), Value::List(vec![Value::Int(5), Value::Int(1)]));
    assert_eq!(message(value_of(items(), var("t"))), "undefined variable: t");
    assert_eq!(message(value_of(items(), var("i"))), "undefined variable: i");
    let mut engine = NbclEngine::new();
    engine.set_global("limit", Value::Int(3));
    let mut host = TestHost::new();
    let (_, ctx) = engine.evaluate_ast_for_ctx(file(vec![let_("x", call("to_string", vec![var("limit")]))]), &mut host).unwrap();
    assert_eq!(engine.call_function("nothing", vec![], &ctx, &mut host).is_err(), true);
    assert_eq!(ctx.0.globals, vec![("limit".to_string(), Value::Int(3))]);
    assert_eq!(ctx.0.native_functions.len(), engine.registry.native_functions.len());
    let mut engine = NbclEngine::new();
    engine.set_max_depth(1);
    let g = function("g", vec![], vec![BodyItem::Stmt(Stmt::Expr(num(1)))]);
    let items = vec![g, let_("a", call("g", vec![])), let_("b", call("g", vec![])), let_("c", call("g", vec![])),
        TopLevelItem::Node(node("Object", None, vec![prop("sum", bin(bin(var("a"), BinaryOp::Add, var("b")), BinaryOp::Add, var("c")))]))];
    let tree = engine.evaluate_ast(file(items), &mut host).unwrap();
    assert_eq!(tree.root_nodes[0].props[0].1, Value::Int(3));
}

fn f_clone(item: &TopLevelItem) -> TopLevelItem {
    match item {
        TopLevelItem::FnDef(d) => TopLevelItem::FnDef(Rc::clone(d)),
        _ => panic!("expected a function"),
    }
}

#[test]
fn test_library_import() {
    let imp = TopLevelItem::Import(ImportDef { def: ImportDefType::Library("std".into(), "math".into()), span: sp() });
    let abs = ex(ExprKind::Call(Box::new(field(var("math"), "abs", false)), vec![num(-5)]));
    assert_eq!(value_of(vec![imp], abs).unwrap(), Value::Int(5));
    let imp = TopLevelItem::Import(ImportDef { def: ImportDefType::Library("std".into(), "math".into()), span: sp() });
    assert_eq!(value_of(vec![imp], field(var("math"), "PI", false)).unwrap(), Value::Float(std::f64::consts::PI.to_bits()));
    let imp = TopLevelItem::Import(ImportDef { def: ImportDefType::Library("sdt".into(), "math".into()), span: sp() });
    assert_eq!(message(value_of(vec![imp], num(0))), "library not found");
    let imp = TopLevelItem::Import(ImportDef { def: ImportDefType::Library("std".into(), "maths".into()), span: sp() });
    assert_eq!(message(value_of(vec![imp], num(0))), "library item 'maths' not found");
    let imp = TopLevelItem::Import(ImportDef { def: ImportDefType::Library("sdt".into(), "math".into()), span: sp() });
    assert_eq!(hint(value_of(vec![imp], num(0))), Some("Library \"sdt\" doesn't exist. Did you mean \"std\"?".to_string()));
    let imp = TopLevelItem::Import(ImportDef { def: ImportDefType::Library("std".into(), "maths".into()), span: sp() });
    assert_eq!(hint(value_of(vec![imp], num(0))), Some("Library item \"maths\" doesn't exist. Did you mean \"math\"?".to_string()));
    let mut engine = NbclEngine::new();
    let item = LibraryItem::define("colors".to_string()).with_global("RED", Value::Str("#f00".into()));
    engine.register_library(Library::new("ui".to_string(), vec![item]));
    let imp = TopLevelItem::Import(ImportDef { def: ImportDefType::Library("ui".into(), "colors".into()), span: sp() });
    let items = vec![imp, TopLevelItem::Node(node("Object", None, vec![prop("c", field(var("colors"), "RED", false))]))];
    let mut host = TestHost::new();
    let tree = engine.evaluate_ast(file(items), &mut host).unwrap();
    assert_eq!(tree.root_nodes[0].props[0].1, Value::Str("#f00".into()));
}

#[test]
fn test_module_import() {
    let int_lit = pn(Rule::literal, "", vec![pn(Rule::int_lit, "8080", vec![])]);
    let port = pn(Rule::stmt, "", vec![pn(Rule::global_stmt, "", vec![pn(Rule::snake_ident, "port", vec![]), int_lit])]);
    let comp = |name: &str| {
        pn(Rule::component_def, "", vec![pn(Rule::pascal_ident, name, vec![]), pn(Rule::node_block, "", vec![])])
    };
    let module = tree_of(vec![port, comp("Card"), comp("Hidden"), object_tree("from_module")]);
    let engine = NbclEngine::new();
    let mut host = TestHost::new();
    host.module = Some(("/abs/colors.nbl".to_string(), module));
    let imp = TopLevelItem::Import(ImportDef {
        def: ImportDefType::Module("colors.nbl".into(), "colors".into(), Some(ComponentSelection::List(vec!["Card".into()]))),
        span: sp(),
    });
    let items = vec![imp, TopLevelItem::Node(node("Object", None, vec![prop("p", field(var("colors"), "port", false))])), TopLevelItem::Node(node("Card", None, vec![]))];
    let (tree, ctx): (ResolvedTree, Context) = engine.evaluate_ast_for_ctx(file(items), &mut host).unwrap();
    assert_eq!(tree.root_nodes.len(), 2);
    assert_eq!(tree.root_nodes[0].id, Some("from_module".to_string()));
    assert_eq!(tree.root_nodes[1].props[0].1, Value::Int(8080));
    assert!(ctx.0.components.iter().any(|(k, _)| k == "Card"));
    assert!(!ctx.0.components.iter().any(|(k, _)| k == "Hidden"));
    assert_eq!(host.requests, vec!["resolve colors.nbl".to_string(), "read /abs/colors.nbl".to_string()]);
}

#[test]
fn test_module_imported_twice_is_read_once() {
    let module = tree_of(vec![object_tree("m")]);
    let engine = NbclEngine::new();
    let mut host = TestHost::new();
    host.module = Some(("/abs/m.nbl".to_string(), module));
    let imp = || TopLevelItem::Import(ImportDef { def: ImportDefType::Module("m.nbl".into(), "m".into(), None), span: sp() });
    let tree = engine.evaluate_ast(file(vec![imp(), imp()]), &mut host).unwrap();
    assert_eq!(tree.root_nodes.len(), 1);
    assert_eq!(host.requests, vec!["resolve m.nbl".to_string(), "read /abs/m.nbl".to_string(), "resolve m.nbl".to_string()]);
    let mut host = TestHost::new();
    let r = engine.evaluate_ast(file(vec![imp()]), &mut host);
    assert_eq!(r.unwrap_err(), NbclError::IO { message: "no module".to_string(), hint: None, path: "m.nbl".to_string() });
}

#[test]
fn test_native_call_gets_arguments_and_gives_reply() {
    let mut engine = NbclEngine::new();
    engine.register_native_fn("greet", vec![Type::Int, Type::Str], Type::Str, 7);
    let mut host = TestHost::new();
    let items = vec![TopLevelItem::Node(node("Object", None, vec![prop("g", call("greet", vec![num(3), text("x")]))]))];
    let tree = engine.evaluate_ast(file(items), &mut host).unwrap();
    assert_eq!(tree.root_nodes[0].props[0].1, Value::Str("from host".into()));
    assert_eq!(host.native_args, vec![(7, vec![Value::Int(3), Value::Str("x".into())])]);
    let items = vec![TopLevelItem::Node(node("Object", None, vec![prop("g", call("greet", vec![num(3)]))]))];
    let mut host = TestHost::new();
    assert!(engine.evaluate_ast(file(items), &mut host).is_err());
    assert_eq!(host.calls, 0);
}

#[test]
fn test_native_node_child_count() {
    let mut engine = NbclEngine::new();
    engine.register_node(NativeNodeSchema { node_type: "Pair".to_string(), enforce_id: false, validation: PropValidation::Loose, child_count: Some((1, 2)) });
    let mut host = TestHost::new();
    let child = || NodeItem::Child(node("Object", None, vec![]));
    let r = engine.evaluate_ast(file(vec![TopLevelItem::Node(node("Pair", None, vec![]))]), &mut host);
    assert_eq!(message(r.map(|_| Value::Null)), "node 'Pair' requires between 1 and 2 children, but got 0");
    let r = engine.evaluate_ast(file(vec![TopLevelItem::Node(node("Pair", None, vec![child(), child(), child()]))]), &mut host);
    assert_eq!(message(r.map(|_| Value::Null)), "node 'Pair' requires between 1 and 2 children, but got 3");
    let tree = engine.evaluate_ast(file(vec![TopLevelItem::Node(node("Pair", None, vec![child(), child()]))]), &mut host).unwrap();
    assert_eq!(tree.root_nodes[0].children.len(), 2);
}

#[test]
fn test_call_function_from_context() {
    let engine = NbclEngine::new();
    let mut host = TestHost::new();
    let add = function("add", vec!["a", "b"], vec![BodyItem::Stmt(Stmt::Expr(bin(var("a"), BinaryOp::Add, var("b"))))]);
    let (_, ctx) = engine.evaluate_ast_for_ctx(file(vec![add]), &mut host).unwrap();
    assert_eq!(engine.call_function("add", vec![Value::Int(1), Value::Int(2)], &ctx, &mut host).unwrap(), Value::Int(3));
    match engine.call_function("sub", vec![], &ctx, &mut host) {
        Err(NbclError::Ast { message, .. }) => assert_eq!(message, "function or lambda identifier 'sub' could not be resolved"),
        other => panic!("unexpected {:?}", other),
    }
    match engine.call_function("add", vec![], &ctx, &mut host) {
        Err(NbclError::Ast { message, .. }) => assert_eq!(message, "argument count mismatch for function 'add': expected 2, got 0"),
        other => panic!("unexpected {:?}", other),
    }
}

#[test]
fn test_module_with_imports_switched_off() {
    let inner = pn(Rule::import_stmt, "", vec![
        pn(Rule::string_lit, "\"other.nbl\"", vec![]),
        pn(Rule::as_kw, "as", vec![]),
        pn(Rule::snake_ident, "other", vec![]),
    ]);
    let mut engine = NbclEngine::new();
    engine.import_features = ImportFeatures { module_imports: false, lib_imports: true };
    let mut host = TestHost::new();
    host.module = Some(("/abs/m.nbl".to_string(), tree_of(vec![inner])));
    let imp = TopLevelItem::Import(ImportDef { def: ImportDefType::Module("m.nbl".into(), "m".into(), None), span: sp() });
    match engine.evaluate_ast(file(vec![imp]), &mut host) {
        Err(NbclError::Ast { message, hint, .. }) => {
            assert_eq!(message, "module imports are disabled");
            assert_eq!(hint, Some("Module import feature is disabled by the developer.".to_string()));
        },
        other => panic!("unexpected {:?}", other),
    }
    assert_eq!(host.requests, vec!["resolve m.nbl".to_string(), "read /abs/m.nbl".to_string()]);
}

#[test]
fn test_short_circuit_skips_host_native() {
    let mut engine = NbclEngine::new();
    engine.register_native_fn("bump", vec![], Type::Null, 1);
    let items = vec![TopLevelItem::Node(node("Object", None, vec![
        prop("a", bin(boolean(true), BinaryOp::Or, call("bump", vec![]))),
        prop("b", bin(boolean(false), BinaryOp::And, call("bump", vec![]))),
    ]))];
    let mut host = TestHost::new();
    let tree = engine.evaluate_ast(file(items), &mut host).unwrap();
    assert_eq!(tree.root_nodes[0].props[0].1, Value::Bool(true));
    assert_eq!(tree.root_nodes[0].props[1].1, Value::Bool(false));
    assert_eq!(host.calls, 0);
    let items = vec![TopLevelItem::Node(node("Object", None, vec![prop("c", bin(boolean(false), BinaryOp::Or, call("bump", vec![])))]))];
    let mut host = TestHost::new();
    engine.evaluate_ast(file(items), &mut host).unwrap();
    assert_eq!(host.calls, 1);
}

#[test]
fn test_pending_return_is_handed_on() {
    let engine = NbclEngine::new();
    let mut ctx = EvalContext::from(&engine);
    ctx.0.flow = FlowControl::Return(Value::Int(3));
    let mut host = TestHost::new();
    let r = ctx.0.exec_stmt(&Stmt::Expr(call("no_such_function", vec![])), 10, &mut host);
    assert_eq!(r.unwrap(), Value::Int(3));
    assert_eq!(host.calls, 0);
    assert!(matches!(ctx.0.flow, FlowControl::Return(Value::Int(3))));
}

#[test]
fn test_print_reaches_host() {
    let items = vec![stmt(call("print", vec![text("hi")]))];
    let (r, host) = run(items);
    r.unwrap();
    assert_eq!(host.printed, vec!["\"hi\"".to_string()]);
}
