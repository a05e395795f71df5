//! The source syntax tree that the evaluator walks.
use vstd::prelude::*;
use std::rc::Rc;
use crate::error::Span;

verus! {

/// A whole source file: the root of the syntax tree.
#[derive(Debug)]
pub struct File {
    pub items: Vec<TopLevelItem>,
    pub span: Span,
}

/// Everything that can stand at the top level of a file.
#[derive(Debug)]
pub enum TopLevelItem {
    Import(ImportDef),
    ComponentDef(Rc<ComponentDef>),
    FnDef(Rc<FnDef>),
    Node(NodeInvocation),
    Stmt(Stmt),
}

/// An import, e.g. `import "colors.nbl" as colors`.
#[derive(Debug)]
pub struct ImportDef {
    pub def: ImportDefType,
    pub span: Span,
}

/// A module import (path, alias, selected components) or a library import
/// (library name, item name).
#[derive(Debug)]
pub enum ImportDefType {
    Module(String, String, Option<ComponentSelection>),
    Library(String, String),
}

/// Which components of a module an import brings in.
#[derive(Debug)]
pub enum ComponentSelection {
    Wildcard,
    List(Vec<String>),
}

/// A component definition.
#[derive(Debug)]
pub struct ComponentDef {
    pub name: String,
    pub interface: ComponentInterface,
    pub body: Vec<NodeItem>,
    pub span: Span,
}

/// How a component receives the properties of its invocation.
#[derive(Debug)]
pub enum ComponentInterface {
    /// `(any: props)`: all properties packed in one map.
    Loose(String),
    /// `(a, b?, c: Int)`: named parameters.
    Strict(Vec<Parameter>),
    /// No parameter list.
    Empty,
}

/// A named component parameter.
#[derive(Debug)]
pub struct Parameter {
    pub name: String,
    pub type_hint: Option<String>,
    pub is_optional: bool,
}

/// A function definition (also the body of a lambda).
#[derive(Debug)]
pub struct FnDef {
    pub name: String,
    pub params: Vec<String>,
    pub body: Vec<BodyItem>,
    pub span: Span,
}

/// An item of a function or branch body.
#[derive(Debug)]
pub enum BodyItem {
    Node(NodeInvocation),
    Stmt(Stmt),
}

/// A node invocation, e.g. `Object "id" { ... }`.
#[derive(Debug)]
pub struct NodeInvocation {
    pub node_type: String,
    pub id: Option<Expr>,
    pub body: Vec<NodeItem>,
    pub span: Span,
}

/// An item of a node body.
#[derive(Debug)]
pub enum NodeItem {
    Prop(String, Expr, Span),
    Child(NodeInvocation),
    Stmt(Stmt),
}

/// A block of statements with an optional final expression.
#[derive(Debug)]
pub struct Block {
    pub stmts: Vec<Stmt>,
    pub terminator: Option<Expr>,
}

/// Statements of the language.
#[derive(Debug)]
pub enum Stmt {
    Assign(Expr, AssignOp, Expr, Span),
    Let(String, Expr),
    Const(String, Expr),
    For(Vec<String>, Expr, Block),
    While(Expr, Block),
    Return(Option<ReturnType>, Span),
    Expr(Expr),
}

/// Assignment operators: `=`, `+=`, `-=`, `*=`, `/=`.
#[derive(Debug, PartialEq, Eq, Structural)]
pub enum AssignOp {
    Equal,
    PlusEqual,
    MinEqual,
    MultEqual,
    DivEqual,
}

/// What a `return` gives back.
#[derive(Debug)]
pub enum ReturnType {
    Node(NodeInvocation),
    Expr(Expr),
}

/// An expression with its span.
#[derive(Debug)]
pub struct Expr {
    pub kind: ExprKind,
    pub span: Span,
}

/// Binary operators.
#[derive(Debug, PartialEq, Eq, Structural)]
pub enum BinaryOp {
    Or,
    And,
    Add,
    Sub,
    Mul,
    Div,
    Rem,
    Eq,
    Ne,
    Lt,
    Le,
    Gt,
    Ge,
}

/// Unary operators: `!` and `-`.
#[derive(Debug, PartialEq, Eq, Structural)]
pub enum UnaryOp {
    Not,
    Neg,
}

/// Kinds of expression.
#[derive(Debug)]
pub enum ExprKind {
    Binary(Box<Expr>, BinaryOp, Box<Expr>),
    Unary(UnaryOp, Box<Expr>),
    Literal(Literal),
    Variable(String),
    /// `true` for the safe accessor `?.`.
    Field(Box<Expr>, String, bool),
    Index(Box<Expr>, Box<Expr>),
    Call(Box<Expr>, Vec<Expr>),
    Lambda(Rc<FnDef>),
    If(Box<IfExpr>),
    Match(Box<Expr>, Vec<MatchArm>),
    /// `true` for the inclusive range `..=`.
    Range(Box<Expr>, Box<Expr>, bool),
}

/// A branch: its body and optional final expression.
#[derive(Debug)]
pub struct Branch {
    pub body: Vec<BodyItem>,
    pub result: Option<Expr>,
}

/// An if / else-if / else expression.
#[derive(Debug)]
pub struct IfExpr {
    pub condition: Expr,
    pub then_branch: Branch,
    pub else_ifs: Vec<(Expr, Branch)>,
    pub else_branch: Option<Branch>,
}

/// One arm of a match expression.
#[derive(Debug)]
pub struct MatchArm {
    pub pattern: String,
    pub body: MatchBody,
    /// The arm binds the subject to the pattern's name.
    pub is_var: bool,
}

/// The body of a match arm.
#[derive(Debug)]
pub enum MatchBody {
    Expr(Expr),
    Block(Vec<Stmt>, Option<Expr>),
}

/// How a string literal is read: as written, with escapes, or with escapes and `${name}`
/// interpolation.
#[derive(Debug, PartialEq, Eq, Structural)]
pub enum StringType {
    Normal,
    Raw,
    Format,
}

/// Literals. A float literal holds the bit pattern of its value.
#[derive(Debug)]
pub enum Literal {
    Int(i64),
    Float(u64),
    Bool(bool),
    Str(String, StringType),
    List(Vec<Expr>),
    Dict(Vec<(String, Expr)>),
    Null,
}

/// The text of a binary operator.
pub open spec fn binary_op_text(op: BinaryOp) -> Seq<char> {
    match op {
        BinaryOp::Or => "||"@,
        BinaryOp::And => "&&"@,
        BinaryOp::Add => "+"@,
        BinaryOp::Sub => "-"@,
        BinaryOp::Mul => "*"@,
        BinaryOp::Div => "/"@,
        BinaryOp::Rem => "%"@,
        BinaryOp::Eq => "=="@,
        BinaryOp::Ne => "!="@,
        BinaryOp::Lt => "<"@,
        BinaryOp::Le => "<="@,
        BinaryOp::Gt => ">"@,
        BinaryOp::Ge => ">="@,
    }
}

impl BinaryOp {
    /// The operator as written in source.
    pub fn text(&self) -> (r: &'static str)
        ensures
            r@ == binary_op_text(*self),
    {
        match self {
            BinaryOp::Or => "||",
            BinaryOp::And => "&&",
            BinaryOp::Add => "+",
            BinaryOp::Sub => "-",
            BinaryOp::Mul => "*",
            BinaryOp::Div => "/",
            BinaryOp::Rem => "%",
            BinaryOp::Eq => "==",
            BinaryOp::Ne => "!=",
            BinaryOp::Lt => "<",
            BinaryOp::Le => "<=",
            BinaryOp::Gt => ">",
            BinaryOp::Ge => ">=",
        }
    }
}

} // verus!
