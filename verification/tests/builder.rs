use nbcl::ast::{
    AssignOp, BinaryOp, BodyItem, ComponentInterface, ComponentSelection, ExprKind, ImportDefType, Literal, NodeItem,
    ReturnType, Stmt, TopLevelItem,
};
use nbcl::builder::{build_expr, ImportFeatures, ParseNode};
use nbcl::error::{NbclError, Rule, Span};
use nbcl::file_builder::{build_component_def, build_file, build_fn_def};
use nbcl::stmt_builder::{build_block, build_node_invocation, build_stmt};

fn pn(rule: Rule, text: &str, children: Vec<ParseNode>) -> ParseNode {
    ParseNode { rule, span: Span::dummy(), text: text.to_string(), children, float_bits: None }
}

fn leaf(rule: Rule, text: &str) -> ParseNode {
    pn(rule, text, vec![])
}

fn int_node(text: &str) -> ParseNode {
    pn(Rule::literal, "", vec![leaf(Rule::int_lit, text)])
}

fn ast_message(r: Result<impl std::fmt::Debug, NbclError>) -> (String, Option<String>) {
    match r {
        Err(NbclError::Ast { message, hint, .. }) => (message, hint),
        other => panic!("expected a syntax error, got {:?}", other),
    }
}

fn file_of(items: Vec<ParseNode>) -> ParseNode {
    let mut children: Vec<ParseNode> = items.into_iter().map(|i| pn(Rule::top_level_item, "", vec![i])).collect();
    children.push(leaf(Rule::EOI, ""));
    pn(Rule::file, "", children)
}

fn all_on() -> ImportFeatures {
    ImportFeatures { module_imports: true, lib_imports: true }
}

#[test]
fn test_build_chain_is_left_associative() {
    let t = pn(Rule::add_expr, "1 + 2 - 3", vec![int_node("1"), leaf(Rule::add_op, "+"), int_node("2"), leaf(Rule::add_op, "-"), int_node("3")]);
    let e = build_expr(&t).unwrap();
    match e.kind {
        ExprKind::Binary(l, BinaryOp::Sub, r) => {
            assert!(matches!(r.kind, ExprKind::Literal(Literal::Int(3))));
            match l.kind {
                ExprKind::Binary(a, BinaryOp::Add, b) => {
                    assert!(matches!(a.kind, ExprKind::Literal(Literal::Int(1))));
                    assert!(matches!(b.kind, ExprKind::Literal(Literal::Int(2))));
                },
                other => panic!("unexpected {:?}", other),
            }
        },
        other => panic!("unexpected {:?}", other),
    }
}

#[test]
fn test_build_operator_without_operand() {
    let t = pn(Rule::add_expr, "1 +", vec![int_node("1"), leaf(Rule::add_op, "+")]);
    assert_eq!(ast_message(build_expr(&t)).0, "expected operand after operator");
}

#[test]
fn test_build_unknown_operator() {
    let t = pn(Rule::cmp_expr, "", vec![int_node("1"), leaf(Rule::cmp_op, "<>"), int_node("2")]);
    assert_eq!(ast_message(build_expr(&t)).0, "unknown operator: <>");
}

#[test]
fn test_build_postfix_suffixes_in_order() {
    let t = pn(Rule::postfix_expr, "a?.b(1)[0]", vec![
        leaf(Rule::snake_ident, "a"),
        leaf(Rule::accessor, "?."),
        leaf(Rule::snake_ident, "b"),
        pn(Rule::call_args, "(1)", vec![int_node("1")]),
        pn(Rule::expr, "0", vec![int_node("0")]),
    ]);
    let e = build_expr(&t).unwrap();
    let ExprKind::Index(called, idx) = e.kind else { panic!("expected an index") };
    assert!(matches!(idx.kind, ExprKind::Literal(Literal::Int(0))));
    let ExprKind::Call(callee, args) = called.kind else { panic!("expected a call") };
    assert_eq!(args.len(), 1);
    let ExprKind::Field(base, name, safe) = callee.kind else { panic!("expected a field") };
    assert_eq!(name, "b");
    assert!(safe);
    assert!(matches!(base.kind, ExprKind::Variable(ref v) if v == "a"));
}

#[test]
fn test_build_literals() {
    let e = build_expr(&pn(Rule::literal, "", vec![leaf(Rule::string_lit, "'hi'")])).unwrap();
    assert!(matches!(e.kind, ExprKind::Literal(Literal::Str(ref s, _)) if s == "hi"));
    let e = build_expr(&pn(Rule::literal, "", vec![leaf(Rule::bool_lit, "true")])).unwrap();
    assert!(matches!(e.kind, ExprKind::Literal(Literal::Bool(true))));
    let e = build_expr(&pn(Rule::literal, "", vec![leaf(Rule::null_lit, "null")])).unwrap();
    assert!(matches!(e.kind, ExprKind::Literal(Literal::Null)));
    let e = build_expr(&int_node("-42")).unwrap();
    assert!(matches!(e.kind, ExprKind::Literal(Literal::Int(-42))));
    let (m, _) = ast_message(build_expr(&int_node("99999999999999999999")));
    assert_eq!(m, "invalid integer literal: 99999999999999999999");
}

#[test]
fn test_build_unknown_expression() {
    let (m, _) = ast_message(build_expr(&leaf(Rule::if_expr, "if")));
    assert!(m.starts_with("unknown expression: "));
}

#[test]
fn test_build_augmented_assignment() {
    let t = pn(Rule::stmt, "", vec![pn(Rule::assign_stmt, "x += 1", vec![
        leaf(Rule::snake_ident, "x"),
        leaf(Rule::assignment_op, "+="),
        int_node("1"),
    ])]);
    match build_stmt(&t).unwrap() {
        Stmt::Assign(l, op, v, _) => {
            assert!(matches!(l.kind, ExprKind::Variable(ref x) if x == "x"));
            assert_eq!(op, AssignOp::PlusEqual);
            assert!(matches!(v.kind, ExprKind::Literal(Literal::Int(1))));
        },
        other => panic!("unexpected {:?}", other),
    }
    let plain = pn(Rule::assign_stmt, "x = 2", vec![leaf(Rule::snake_ident, "x"), int_node("2")]);
    assert!(matches!(build_stmt(&plain).unwrap(), Stmt::Assign(_, AssignOp::Equal, _, _)));
    let bad = pn(Rule::assign_stmt, "", vec![leaf(Rule::snake_ident, "x"), leaf(Rule::assignment_op, "%="), int_node("2")]);
    assert_eq!(ast_message(build_stmt(&bad)).0, "unknown operator: %=");
}

#[test]
fn test_build_local_and_global() {
    let t = pn(Rule::local_stmt, "", vec![leaf(Rule::snake_ident, "x"), leaf(Rule::type_hint, "int"), int_node("5")]);
    assert!(matches!(build_stmt(&t).unwrap(), Stmt::Let(ref n, _) if n == "x"));
    let t = pn(Rule::global_stmt, "", vec![leaf(Rule::snake_ident, "y"), int_node("6")]);
    assert!(matches!(build_stmt(&t).unwrap(), Stmt::Const(ref n, _) if n == "y"));
    let t = pn(Rule::local_stmt, "", vec![leaf(Rule::snake_ident, "x"), leaf(Rule::type_hint, "int")]);
    assert!(ast_message(build_stmt(&t)).0.starts_with("malformed syntax tree for "));
}

#[test]
fn test_build_return_and_unsupported() {
    let t = pn(Rule::return_stmt, "return", vec![]);
    assert!(matches!(build_stmt(&t).unwrap(), Stmt::Return(None, _)));
    let t = pn(Rule::return_stmt, "", vec![pn(Rule::node_invocation, "", vec![leaf(Rule::pascal_ident, "Box")])]);
    assert!(matches!(build_stmt(&t).unwrap(), Stmt::Return(Some(ReturnType::Node(ref n)), _) if n.node_type == "Box"));
    assert!(ast_message(build_stmt(&leaf(Rule::match_arm, ""))).0.starts_with("unsupported statement: "));
}

#[test]
fn test_build_block_keeps_last_expression() {
    let t = pn(Rule::block_body, "", vec![
        pn(Rule::stmt, "", vec![pn(Rule::expr_stmt, "", vec![int_node("1")])]),
        pn(Rule::expr, "", vec![int_node("2")]),
        pn(Rule::expr, "", vec![int_node("3")]),
    ]);
    let b = build_block(&t).unwrap();
    assert_eq!(b.stmts.len(), 1);
    assert!(matches!(b.terminator.unwrap().kind, ExprKind::Literal(Literal::Int(3))));
}

#[test]
fn test_build_node_with_id_and_items() {
    let prop = pn(Rule::node_item, "", vec![pn(Rule::node_prop, "", vec![
        leaf(Rule::prop_key, "width"),
        pn(Rule::prop_value, "", vec![int_node("10")]),
    ])]);
    let child = pn(Rule::node_item, "", vec![pn(Rule::node_invocation, "", vec![leaf(Rule::pascal_ident, "Label")])]);
    let t = pn(Rule::node_invocation, "", vec![
        leaf(Rule::pascal_ident, "Window"),
        pn(Rule::literal, "", vec![leaf(Rule::string_lit, "\"main\"")]),
        pn(Rule::node_block, "", vec![prop, child]),
    ]);
    let n = build_node_invocation(&t).unwrap();
    assert_eq!(n.node_type, "Window");
    assert!(matches!(n.id.unwrap().kind, ExprKind::Literal(Literal::Str(ref s, _)) if s == "main"));
    assert_eq!(n.body.len(), 2);
    assert!(matches!(n.body[0], NodeItem::Prop(ref k, _, _) if k == "width"));
    assert!(matches!(n.body[1], NodeItem::Child(ref c) if c.node_type == "Label"));
}

#[test]
fn test_build_component_interfaces() {
    let any = pn(Rule::component_def, "", vec![
        leaf(Rule::pascal_ident, "Card"),
        pn(Rule::component_params, "", vec![pn(Rule::any_params, "", vec![leaf(Rule::keyword, "any"), leaf(Rule::snake_ident, "props")])]),
        pn(Rule::node_block, "", vec![]),
    ]);
    let c = build_component_def(&any).unwrap();
    assert_eq!(c.name, "Card");
    assert!(matches!(c.interface, ComponentInterface::Loose(ref p) if p == "props"));
    let named = pn(Rule::component_def, "", vec![
        leaf(Rule::pascal_ident, "Field"),
        pn(Rule::component_params, "", vec![pn(Rule::named_params, "", vec![
            pn(Rule::param_item, "", vec![leaf(Rule::snake_ident, "label"), leaf(Rule::type_hint, "string")]),
            pn(Rule::param_item, "", vec![leaf(Rule::snake_ident, "size"), leaf(Rule::keyword, "?"), leaf(Rule::type_hint, "int")]),
        ])]),
        pn(Rule::node_block, "", vec![]),
    ]);
    let c = build_component_def(&named).unwrap();
    match c.interface {
        ComponentInterface::Strict(ps) => {
            assert_eq!(ps.len(), 2);
            assert_eq!(ps[0].name, "label");
            assert_eq!(ps[0].type_hint, Some("string".to_string()));
            assert!(!ps[0].is_optional);
            assert!(ps[1].is_optional);
            assert_eq!(ps[1].type_hint, Some("int".to_string()));
        },
        other => panic!("unexpected {:?}", other),
    }
    let plain = pn(Rule::component_def, "", vec![leaf(Rule::pascal_ident, "Empty"), pn(Rule::node_block, "", vec![])]);
    assert!(matches!(build_component_def(&plain).unwrap().interface, ComponentInterface::Empty));
}

#[test]
fn test_build_fn_def_params_and_body() {
    let t = pn(Rule::fn_def, "", vec![
        leaf(Rule::snake_ident, "double"),
        pn(Rule::fn_param, "", vec![leaf(Rule::snake_ident, "a")]),
        pn(Rule::fn_body, "", vec![
            pn(Rule::fn_item, "", vec![pn(Rule::stmt, "", vec![pn(Rule::return_stmt, "", vec![leaf(Rule::snake_ident, "a")])])]),
            pn(Rule::fn_item, "", vec![pn(Rule::node_invocation, "", vec![leaf(Rule::pascal_ident, "Box")])]),
        ]),
    ]);
    let f = build_fn_def(&t).unwrap();
    assert_eq!(f.name, "double");
    assert_eq!(f.params, vec!["a".to_string()]);
    assert_eq!(f.body.len(), 2);
    assert!(matches!(f.body[0], BodyItem::Stmt(Stmt::Return(Some(ReturnType::Expr(_)), _))));
    assert!(matches!(f.body[1], BodyItem::Node(_)));
}

fn module_import() -> ParseNode {
    pn(Rule::import_stmt, "", vec![
        leaf(Rule::string_lit, "\"ui.nbl\""),
        leaf(Rule::as_kw, "as"),
        leaf(Rule::snake_ident, "ui"),
        pn(Rule::node_block, "", vec![pn(Rule::keyword, "", vec![leaf(Rule::pascal_ident, "Card"), leaf(Rule::pascal_ident, "Row")])]),
    ])
}

fn lib_import() -> ParseNode {
    pn(Rule::import_lib_stmt, "", vec![leaf(Rule::snake_ident, "std"), leaf(Rule::keyword, "::"), leaf(Rule::snake_ident, "math")])
}

#[test]
fn test_build_file_imports() {
    let f = build_file(&file_of(vec![module_import(), lib_import()]), all_on()).unwrap();
    assert_eq!(f.items.len(), 2);
    match &f.items[0] {
        TopLevelItem::Import(i) => match &i.def {
            ImportDefType::Module(path, alias, Some(ComponentSelection::List(names))) => {
                assert_eq!(path, "ui.nbl");
                assert_eq!(alias, "ui");
                assert_eq!(names, &vec!["Card".to_string(), "Row".to_string()]);
            },
            other => panic!("unexpected {:?}", other),
        },
        other => panic!("unexpected {:?}", other),
    }
    assert!(matches!(&f.items[1], TopLevelItem::Import(i) if matches!(&i.def, ImportDefType::Library(l, m) if l == "std" && m == "math")));
}

#[test]
fn test_build_file_with_module_imports_off() {
    let off = ImportFeatures { module_imports: false, lib_imports: true };
    let (m, h) = ast_message(build_file(&file_of(vec![module_import()]), off));
    assert_eq!(m, "module imports are disabled");
    assert_eq!(h, Some("Module import feature is disabled by the developer.".to_string()));
    assert!(build_file(&file_of(vec![lib_import()]), off).is_ok());
}

#[test]
fn test_build_file_with_lib_imports_off() {
    let off = ImportFeatures { module_imports: true, lib_imports: false };
    let (m, h) = ast_message(build_file(&file_of(vec![lib_import()]), off));
    assert_eq!(m, "library imports are disabled");
    assert_eq!(h, Some("Library import feature is disabled by the developer.".to_string()));
    assert!(build_file(&file_of(vec![module_import()]), off).is_ok());
}

#[test]
fn test_build_file_stops_at_end_of_input() {
    let node = pn(Rule::node_invocation, "", vec![leaf(Rule::pascal_ident, "Box")]);
    let mut t = file_of(vec![node]);
    t.children.push(pn(Rule::top_level_item, "", vec![pn(Rule::node_invocation, "", vec![])]));
    let f = build_file(&t, all_on()).unwrap();
    assert_eq!(f.items.len(), 1);
    t.children.remove(1);
    assert!(build_file(&t, all_on()).is_err());
}

#[test]
fn test_build_assignment_to_field() {
    let target = pn(Rule::assignable_lhs, "cfg.port", vec![
        leaf(Rule::snake_ident, "cfg"),
        leaf(Rule::accessor, "."),
        leaf(Rule::snake_ident, "port"),
    ]);
    let t = pn(Rule::assign_stmt, "", vec![target, int_node("80")]);
    match build_stmt(&t).unwrap() {
        Stmt::Assign(l, AssignOp::Equal, _, _) => match l.kind {
            ExprKind::Field(base, name, safe) => {
                assert!(matches!(base.kind, ExprKind::Variable(ref v) if v == "cfg"));
                assert_eq!(name, "port");
                assert!(!safe);
            },
            other => panic!("unexpected {:?}", other),
        },
        other => panic!("unexpected {:?}", other),
    }
}
