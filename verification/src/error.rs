//! Errors of the engine: spans, the error type, and parse-failure diagnostics.
use vstd::prelude::*;
use crate::text::{chars_of, concat2, dec_nat, push_char, push_str, to_owned_string, usize_to_string};

verus! {

/// Start/end offsets and position of a piece of source, with its text.
#[derive(Debug, Clone, PartialEq)]
pub struct Span {
    pub start: usize,
    pub end: usize,
    pub line: usize,
    pub col: usize,
    pub slice: String,
}

/// Mathematical model of a [`Span`].
pub struct SSpan {
    pub start: usize,
    pub end: usize,
    pub line: usize,
    pub col: usize,
    pub slice: Seq<char>,
}

impl View for Span {
    type V = SSpan;

    open spec fn view(&self) -> SSpan {
        SSpan { start: self.start, end: self.end, line: self.line, col: self.col, slice: self.slice@ }
    }
}

pub open spec fn opt_span_view(s: Option<Span>) -> Option<SSpan> {
    match s {
        Some(sp) => Some(sp@),
        None => None,
    }
}

pub open spec fn opt_string_view(s: Option<String>) -> Option<Seq<char>> {
    match s {
        Some(x) => Some(x@),
        None => None,
    }
}

impl Span {
    /// A span that points nowhere: all zero, empty text.
    pub fn dummy() -> (r: Span)
        ensures
            r@ == (SSpan { start: 0, end: 0, line: 0, col: 0, slice: Seq::empty() }),
    {
        Span { start: 0, end: 0, line: 0, col: 0, slice: String::new() }
    }

    /// A copy of the span.
    pub fn copy(&self) -> (r: Span)
        ensures
            r@ == self@,
    {
        Span { start: self.start, end: self.end, line: self.line, col: self.col, slice: self.slice.clone() }
    }
}

/// A copy of an optional span.
pub fn copy_opt_span(s: &Option<Span>) -> (r: Option<Span>)
    ensures
        opt_span_view(r) == opt_span_view(*s),
{
    match s {
        Some(sp) => Some(sp.copy()),
        None => None,
    }
}

/// The error type used throughout the crate.
///
/// Message style: lower case, no closing punctuation. Hint style: a sentence starting
/// with a capital letter and ending with punctuation.
#[derive(Debug, Clone, PartialEq)]
pub enum NbclError {
    Parse { message: String, hint: Option<String>, span: Option<Span> },
    Ast { message: String, hint: Option<String>, span: Option<Span> },
    IO { message: String, hint: Option<String>, path: String },
    Runtime { message: String, hint: Option<String>, span: Option<Span> },
}

/// The four kinds of error.
pub enum ErrorKind {
    Parse,
    Ast,
    IO,
    Runtime,
}

/// Mathematical model of an [`NbclError`]; `path` is empty except for `IO` errors and
/// `span` is `None` for them.
pub struct SError {
    pub kind: ErrorKind,
    pub message: Seq<char>,
    pub hint: Option<Seq<char>>,
    pub span: Option<SSpan>,
    pub path: Seq<char>,
}

impl View for NbclError {
    type V = SError;

    open spec fn view(&self) -> SError {
        match self {
            NbclError::Parse { message, hint, span } => SError {
                kind: ErrorKind::Parse, message: message@, hint: opt_string_view(*hint),
                span: opt_span_view(*span), path: Seq::empty(),
            },
            NbclError::Ast { message, hint, span } => SError {
                kind: ErrorKind::Ast, message: message@, hint: opt_string_view(*hint),
                span: opt_span_view(*span), path: Seq::empty(),
            },
            NbclError::IO { message, hint, path } => SError {
                kind: ErrorKind::IO, message: message@, hint: opt_string_view(*hint),
                span: None, path: path@,
            },
            NbclError::Runtime { message, hint, span } => SError {
                kind: ErrorKind::Runtime, message: message@, hint: opt_string_view(*hint),
                span: opt_span_view(*span), path: Seq::empty(),
            },
        }
    }
}

impl NbclError {
    /// The span the error points at; `IO` errors have none.
    pub fn span(&self) -> (r: Option<Span>)
        ensures
            opt_span_view(r) == self@.span,
    {
        match self {
            NbclError::Parse { span, .. } => copy_opt_span(span),
            NbclError::Ast { span, .. } => copy_opt_span(span),
            NbclError::IO { .. } => None,
            NbclError::Runtime { span, .. } => copy_opt_span(span),
        }
    }

    /// The error rendered as plain text: a `[Label] at line:col: message` line (or
    /// `[Label] message` without a span), then `  Hint: ...` when there is a hint.
    /// `IO` errors render as `[IO Error] message`, `  Path: ...`, then the hint.
    pub fn to_display_string(&self) -> (r: String)
        ensures
            r@ == display_error(self@),
    {
        match self {
            NbclError::Parse { message, hint, span } => format_diagnostic("Parse Error", message, hint, span),
            NbclError::Ast { message, hint, span } => format_diagnostic("Syntax Error", message, hint, span),
            NbclError::Runtime { message, hint, span } => format_diagnostic("Runtime Error", message, hint, span),
            NbclError::IO { message, hint, path } => {
                let mut s = to_owned_string("[IO Error] ");
                push_str(&mut s, message.as_str());
                push_char(&mut s, '\n');
                push_str(&mut s, "  Path: ");
                push_str(&mut s, path.as_str());
                push_char(&mut s, '\n');
                match hint {
                    Some(h) => {
                        push_str(&mut s, "  Hint: ");
                        push_str(&mut s, h.as_str());
                    },
                    None => {},
                }
                proof {
                    reveal_strlit("[IO Error] ");
                    reveal_strlit("  Path: ");
                    reveal_strlit("\n");
                    reveal_strlit("  Hint: ");
                    assert(s@ =~= display_error(self@));
                }
                s
            },
        }
    }
}

/// Text of a diagnostic: header line, then the hint when present.
pub open spec fn diagnostic_text(label: Seq<char>, message: Seq<char>, hint: Option<Seq<char>>, span: Option<SSpan>) -> Seq<char> {
    let header = match span {
        Some(s) => "["@ + label + "] at "@ + dec_nat(s.line as nat) + ":"@ + dec_nat(s.col as nat) + ": "@ + message + "\n"@,
        None => "["@ + label + "] "@ + message + "\n"@,
    };
    match hint {
        Some(h) => header + "  Hint: "@ + h,
        None => header,
    }
}

/// The plain-text rendering of an error.
pub open spec fn display_error(e: SError) -> Seq<char> {
    match e.kind {
        ErrorKind::Parse => diagnostic_text("Parse Error"@, e.message, e.hint, e.span),
        ErrorKind::Ast => diagnostic_text("Syntax Error"@, e.message, e.hint, e.span),
        ErrorKind::Runtime => diagnostic_text("Runtime Error"@, e.message, e.hint, e.span),
        ErrorKind::IO => {
            let base = "[IO Error] "@ + e.message + "\n"@ + "  Path: "@ + e.path + "\n"@;
            match e.hint {
                Some(h) => base + "  Hint: "@ + h,
                None => base,
            }
        },
    }
}

/// Renders one diagnostic (shared by parse, syntax and runtime errors).
pub fn format_diagnostic(label: &str, message: &String, hint: &Option<String>, span: &Option<Span>) -> (r: String)
    ensures
        r@ == diagnostic_text(label@, message@, opt_string_view(*hint), opt_span_view(*span)),
{
    let mut s = to_owned_string("[");
    push_str(&mut s, label);
    match span {
        Some(sp) => {
            push_str(&mut s, "] at ");
            push_str(&mut s, usize_to_string(sp.line).as_str());
            push_char(&mut s, ':');
            push_str(&mut s, usize_to_string(sp.col).as_str());
            push_str(&mut s, ": ");
        },
        None => {
            push_str(&mut s, "] ");
        },
    }
    push_str(&mut s, message.as_str());
    push_char(&mut s, '\n');
    match hint {
        Some(h) => {
            push_str(&mut s, "  Hint: ");
            push_str(&mut s, h.as_str());
        },
        None => {},
    }
    proof {
        reveal_strlit("[");
        reveal_strlit("] at ");
        reveal_strlit("] ");
        reveal_strlit(":");
        reveal_strlit(": ");
        reveal_strlit("\n");
        reveal_strlit("  Hint: ");
        let sv = opt_span_view(*span);
        assert(s@ =~= diagnostic_text(label@, message@, opt_string_view(*hint), sv));
    }
    s
}

/// The rules of the language's grammar, as parse errors name them.
#[allow(non_camel_case_types)]
#[derive(Clone, Copy, Debug, PartialEq, Eq, Structural, Hash, PartialOrd, Ord)]
pub enum Rule {
    or_op,
    and_op,
    add_op,
    mul_op,
    cmp_op,
    range_op,
    dot,
    safe_dot,
    accessor,
    call_args,
    snake_ident,
    pascal_ident,
    prop_key,
    keyword,
    literal,
    int_lit,
    float_lit,
    bool_lit,
    null_lit,
    string_lit,
    double_quoted_inner,
    single_quoted_inner,
    escape_seq,
    list_lit,
    map_lit,
    map_entry,
    expr,
    or_expr,
    and_expr,
    cmp_expr,
    add_expr,
    mul_expr,
    unary_expr,
    not_expr,
    neg_expr,
    postfix_expr,
    primary_expr,
    range_expr,
    if_expr,
    else_if_branch,
    else_branch,
    match_expr,
    lambda_expr,
    lambda_param,
    lambda_body,
    block_body,
    type_hint,
    stmt,
    node_stmt,
    equal,
    plus_equal,
    min_equal,
    mult_equal,
    div_equal,
    assignable_lhs,
    assignment_op,
    assign_stmt,
    local_stmt,
    global_stmt,
    for_stmt,
    for_pattern,
    while_stmt,
    return_stmt,
    expr_stmt,
    match_arm,
    match_pattern,
    match_underscore,
    fn_def,
    fn_param,
    fn_body,
    fn_item,
    component_def,
    component_params,
    any_params,
    named_params,
    param_item,
    node_invocation,
    id_expression,
    node_block,
    node_item,
    node_prop,
    prop_value,
    import_stmt,
    import_lib_stmt,
    file,
    top_level_item,
    EOI,
    WHITESPACE,
    COMMENT,
    line_comment,
    block_comment,
    in_kw,
    as_kw,
}

/// The human description of a grammar rule used in parse error messages.
pub open spec fn rule_text(rule: Rule) -> Seq<char> {
    match rule {
        Rule::or_op => "'||' (or)"@,
        Rule::and_op => "'&&' (and)"@,
        Rule::add_op => "'+' or '-'"@,
        Rule::mul_op => "'*', '/' or '%'"@,
        Rule::cmp_op => "a comparison operator ('==', '!=', '<=', '>=', '<', '>')"@,
        Rule::range_op => "a range operator ('..' or '..=')"@,
        Rule::dot => "'.'"@,
        Rule::safe_dot => "'?.'"@,
        Rule::accessor => "a field accessor ('.' or '?.')"@,
        Rule::call_args => "function call arguments '(...)'"@,
        Rule::snake_ident => "an identifier (snake_case)"@,
        Rule::pascal_ident => "a type or component name (PascalCase)"@,
        Rule::prop_key => "a property key"@,
        Rule::keyword => "a keyword"@,
        Rule::literal => "a literal value"@,
        Rule::int_lit => "an integer literal"@,
        Rule::float_lit => "a float literal"@,
        Rule::bool_lit => "'true' or 'false'"@,
        Rule::null_lit => "'null'"@,
        Rule::string_lit => "a string literal"@,
        Rule::double_quoted_inner => "string content"@,
        Rule::single_quoted_inner => "string content"@,
        Rule::escape_seq => "an escape sequence"@,
        Rule::list_lit => "a list literal '[...]'"@,
        Rule::map_lit => "a map literal '{...}'"@,
        Rule::map_entry => "a map entry (key = value)"@,
        Rule::expr => "an expression"@,
        Rule::or_expr => "an expression"@,
        Rule::and_expr => "an expression"@,
        Rule::cmp_expr => "an expression"@,
        Rule::add_expr => "an expression"@,
        Rule::mul_expr => "an expression"@,
        Rule::unary_expr => "an expression"@,
        Rule::not_expr => "an expression"@,
        Rule::neg_expr => "an expression"@,
        Rule::postfix_expr => "an expression"@,
        Rule::primary_expr => "a value, identifier, or '('"@,
        Rule::range_expr => "a range expression (start..end)"@,
        Rule::if_expr => "an 'if' expression"@,
        Rule::else_if_branch => "'else if' branch"@,
        Rule::else_branch => "'else' branch"@,
        Rule::match_expr => "a 'match' expression"@,
        Rule::lambda_expr => "a lambda expression '|params| body'"@,
        Rule::lambda_param => "a lambda parameter"@,
        Rule::lambda_body => "a lambda body"@,
        Rule::block_body => "a block '{...}'"@,
        Rule::type_hint => "a type hint (String, Int, Float, Bool, List, Map, Any)"@,
        Rule::stmt => "a statement"@,
        Rule::node_stmt => "a statement"@,
        Rule::equal => "'=' statement"@,
        Rule::plus_equal => "'+=' statement"@,
        Rule::min_equal => "'-=' statement"@,
        Rule::mult_equal => "'*=' statement"@,
        Rule::div_equal => "'/=' statement"@,
        Rule::assignable_lhs => "a 'set' assignment variable"@,
        Rule::assignment_op => "a 'set' assignment operator"@,
        Rule::assign_stmt => "a 'set' assignment"@,
        Rule::local_stmt => "a 'local' declaration"@,
        Rule::global_stmt => "a 'global' declaration"@,
        Rule::for_stmt => "a 'for' loop"@,
        Rule::for_pattern => "a loop variable or destructure pattern '(k, v)'"@,
        Rule::while_stmt => "a 'while' loop"@,
        Rule::return_stmt => "a 'return' statement"@,
        Rule::expr_stmt => "an expression statement"@,
        Rule::match_arm => "a match arm (pattern => body)"@,
        Rule::match_pattern => "a match pattern (literal, identifier, or '_')"@,
        Rule::match_underscore => "a match arm underscore ('_') wildcard"@,
        Rule::fn_def => "a function definition ('fn name(...) { ... }')"@,
        Rule::fn_param => "a function parameter"@,
        Rule::fn_body => "a function body '{...}'"@,
        Rule::fn_item => "a statement or node inside a function"@,
        Rule::component_def => "a component definition"@,
        Rule::component_params => "component parameters '(...)'"@,
        Rule::any_params => "an 'any' parameter capture '(any: props)'"@,
        Rule::named_params => "named parameters"@,
        Rule::param_item => "a parameter name"@,
        Rule::node_invocation => "a node invocation (e.g. 'Window { ... }')"@,
        Rule::id_expression => "a node ID (string or identifier)"@,
        Rule::node_block => "a node block '{...}'"@,
        Rule::node_item => "a node property, child node, or statement"@,
        Rule::node_prop => "a property assignment (key = value)"@,
        Rule::prop_value => "a property value"@,
        Rule::import_stmt => "an import statement"@,
        Rule::import_lib_stmt => "a library import statement"@,
        Rule::file => "a source file"@,
        Rule::top_level_item => "a top-level definition or statement"@,
        Rule::EOI => "end of file"@,
        Rule::WHITESPACE => "whitespace"@,
        Rule::COMMENT => "a comment"@,
        Rule::line_comment => "a line comment ('#')"@,
        Rule::block_comment => "a block comment ('#- ... -#')"@,
        Rule::in_kw => "'in' keyword"@,
        Rule::as_kw => "'as' keyword"@,
    }
}

/// Describes a grammar rule for a human reader.
pub fn rule_to_human(rule: Rule) -> (r: &'static str)
    ensures
        r@ == rule_text(rule),
{
    match rule {
        Rule::or_op => "'||' (or)",
        Rule::and_op => "'&&' (and)",
        Rule::add_op => "'+' or '-'",
        Rule::mul_op => "'*', '/' or '%'",
        Rule::cmp_op => "a comparison operator ('==', '!=', '<=', '>=', '<', '>')",
        Rule::range_op => "a range operator ('..' or '..=')",
        Rule::dot => "'.'",
        Rule::safe_dot => "'?.'",
        Rule::accessor => "a field accessor ('.' or '?.')",
        Rule::call_args => "function call arguments '(...)'",
        Rule::snake_ident => "an identifier (snake_case)",
        Rule::pascal_ident => "a type or component name (PascalCase)",
        Rule::prop_key => "a property key",
        Rule::keyword => "a keyword",
        Rule::literal => "a literal value",
        Rule::int_lit => "an integer literal",
        Rule::float_lit => "a float literal",
        Rule::bool_lit => "'true' or 'false'",
        Rule::null_lit => "'null'",
        Rule::string_lit => "a string literal",
        Rule::double_quoted_inner => "string content",
        Rule::single_quoted_inner => "string content",
        Rule::escape_seq => "an escape sequence",
        Rule::list_lit => "a list literal '[...]'",
        Rule::map_lit => "a map literal '{...}'",
        Rule::map_entry => "a map entry (key = value)",
        Rule::expr => "an expression",
        Rule::or_expr => "an expression",
        Rule::and_expr => "an expression",
        Rule::cmp_expr => "an expression",
        Rule::add_expr => "an expression",
        Rule::mul_expr => "an expression",
        Rule::unary_expr => "an expression",
        Rule::not_expr => "an expression",
        Rule::neg_expr => "an expression",
        Rule::postfix_expr => "an expression",
        Rule::primary_expr => "a value, identifier, or '('",
        Rule::range_expr => "a range expression (start..end)",
        Rule::if_expr => "an 'if' expression",
        Rule::else_if_branch => "'else if' branch",
        Rule::else_branch => "'else' branch",
        Rule::match_expr => "a 'match' expression",
        Rule::lambda_expr => "a lambda expression '|params| body'",
        Rule::lambda_param => "a lambda parameter",
        Rule::lambda_body => "a lambda body",
        Rule::block_body => "a block '{...}'",
        Rule::type_hint => "a type hint (String, Int, Float, Bool, List, Map, Any)",
        Rule::stmt => "a statement",
        Rule::node_stmt => "a statement",
        Rule::equal => "'=' statement",
        Rule::plus_equal => "'+=' statement",
        Rule::min_equal => "'-=' statement",
        Rule::mult_equal => "'*=' statement",
        Rule::div_equal => "'/=' statement",
        Rule::assignable_lhs => "a 'set' assignment variable",
        Rule::assignment_op => "a 'set' assignment operator",
        Rule::assign_stmt => "a 'set' assignment",
        Rule::local_stmt => "a 'local' declaration",
        Rule::global_stmt => "a 'global' declaration",
        Rule::for_stmt => "a 'for' loop",
        Rule::for_pattern => "a loop variable or destructure pattern '(k, v)'",
        Rule::while_stmt => "a 'while' loop",
        Rule::return_stmt => "a 'return' statement",
        Rule::expr_stmt => "an expression statement",
        Rule::match_arm => "a match arm (pattern => body)",
        Rule::match_pattern => "a match pattern (literal, identifier, or '_')",
        Rule::match_underscore => "a match arm underscore ('_') wildcard",
        Rule::fn_def => "a function definition ('fn name(...) { ... }')",
        Rule::fn_param => "a function parameter",
        Rule::fn_body => "a function body '{...}'",
        Rule::fn_item => "a statement or node inside a function",
        Rule::component_def => "a component definition",
        Rule::component_params => "component parameters '(...)'",
        Rule::any_params => "an 'any' parameter capture '(any: props)'",
        Rule::named_params => "named parameters",
        Rule::param_item => "a parameter name",
        Rule::node_invocation => "a node invocation (e.g. 'Window { ... }')",
        Rule::id_expression => "a node ID (string or identifier)",
        Rule::node_block => "a node block '{...}'",
        Rule::node_item => "a node property, child node, or statement",
        Rule::node_prop => "a property assignment (key = value)",
        Rule::prop_value => "a property value",
        Rule::import_stmt => "an import statement",
        Rule::import_lib_stmt => "a library import statement",
        Rule::file => "a source file",
        Rule::top_level_item => "a top-level definition or statement",
        Rule::EOI => "end of file",
        Rule::WHITESPACE => "whitespace",
        Rule::COMMENT => "a comment",
        Rule::line_comment => "a line comment ('#')",
        Rule::block_comment => "a block comment ('#- ... -#')",
        Rule::in_kw => "'in' keyword",
        Rule::as_kw => "'as' keyword",
    }
}


/// Whether `rule` occurs in `rules`.
pub fn rule_in(rules: &Vec<Rule>, rule: Rule) -> (r: bool)
    ensures
        r == rules@.contains(rule),
{
    let mut i: usize = 0;
    while i < rules.len()
        invariant
            i <= rules@.len(),
            forall|k: int| 0 <= k < i ==> rules@[k] != rule,
        decreases rules@.len() - i,
    {
        if rules[i] == rule {
            assert(rules@[i as int] == rule);
            return true;
        }
        i = i + 1;
    }
    false
}

/// Whether the expected rules include a binary operator.
pub open spec fn expects_binary_op(positives: Seq<Rule>) -> bool {
    positives.contains(Rule::or_op) || positives.contains(Rule::and_op) || positives.contains(Rule::add_op)
        || positives.contains(Rule::mul_op) || positives.contains(Rule::cmp_op)
}

/// Whether the expected rules include a postfix continuation (field access or call).
pub open spec fn expects_postfix(positives: Seq<Rule>) -> bool {
    positives.contains(Rule::accessor) || positives.contains(Rule::call_args)
}

/// What was expected, and the hint, for a set of expected rules.
pub open spec fn expectation_text(positives: Seq<Rule>) -> (Seq<char>, Seq<char>) {
    if expects_binary_op(positives) && expects_postfix(positives) {
        ("an operator or continuation of expression"@,
         "You likely have an incomplete expression. An operand is missing a right-hand side, or a statement is not terminated."@)
    } else if expects_binary_op(positives) {
        ("a binary operator"@, "Expected an operator to continue the expression ('and', 'or', '+', etc)."@)
    } else if expects_postfix(positives) {
        ("a field access or call"@, "Expected '.' for field access or '(' for a function call."@)
    } else {
        ("an unexpected token"@, "Check your syntax, something here was not expected."@)
    }
}

/// Classifies a set of expected rules into what was expected and a hint.
pub fn classify_expectation(positives: &Vec<Rule>) -> (r: (&'static str, &'static str))
    ensures
        (r.0@, r.1@) == expectation_text(positives@),
{
    let is_binary_op = rule_in(positives, Rule::or_op) || rule_in(positives, Rule::and_op)
        || rule_in(positives, Rule::add_op) || rule_in(positives, Rule::mul_op)
        || rule_in(positives, Rule::cmp_op);
    let is_postfix = rule_in(positives, Rule::accessor) || rule_in(positives, Rule::call_args);
    if is_binary_op && is_postfix {
        ("an operator or continuation of expression",
         "You likely have an incomplete expression. An operand is missing a right-hand side, or a statement is not terminated.")
    } else if is_binary_op {
        ("a binary operator", "Expected an operator to continue the expression ('and', 'or', '+', etc).")
    } else if is_postfix {
        ("a field access or call", "Expected '.' for field access or '(' for a function call.")
    } else {
        ("an unexpected token", "Check your syntax, something here was not expected.")
    }
}

/// Where a parse failure happened: a position or a span of offsets.
pub enum ParseLocation {
    Pos(usize),
    Span(usize, usize),
}

/// Line/column of a parse failure: one position, or the two ends of a span.
pub enum ParseLineCol {
    Pos(usize, usize),
    Span((usize, usize), (usize, usize)),
}

/// What went wrong in a parse: the rules that were expected and those that were
/// rejected, or a custom message.
pub enum ParseFailureKind {
    ParsingError { positives: Vec<Rule>, negatives: Vec<Rule> },
    CustomError { message: String },
}

/// A failure reported by the grammar's parser, as plain data.
pub struct ParseFailure {
    pub variant: ParseFailureKind,
    pub location: ParseLocation,
    pub line_col: ParseLineCol,
}

/// Joins pieces of text with a separator.
pub open spec fn join_text(parts: Seq<Seq<char>>, sep: Seq<char>) -> Seq<char>
    decreases parts.len(),
{
    if parts.len() == 0 {
        Seq::empty()
    } else if parts.len() == 1 {
        parts[0]
    } else {
        join_text(parts.drop_last(), sep) + sep + parts.last()
    }
}

/// Whether a rule is noise in a list of expected rules (end of input, whitespace, comments).
pub open spec fn is_noise_rule(r: Rule) -> bool {
    r == Rule::EOI || r == Rule::WHITESPACE || r == Rule::COMMENT
}

/// The expected rules without the noise rules, in order.
pub open spec fn clean_positives(p: Seq<Rule>) -> Seq<Rule> {
    p.filter(|r: Rule| !is_noise_rule(r))
}

/// The span of a parse failure: its offsets and the starting line/column, no text.
pub open spec fn parse_failure_span(f: ParseFailure) -> SSpan {
    let (line, col) = match f.line_col {
        ParseLineCol::Pos(l, c) => (l, c),
        ParseLineCol::Span((l, c), _) => (l, c),
    };
    let (start, end) = match f.location {
        ParseLocation::Pos(p) => (p, p),
        ParseLocation::Span(s, e) => (s, e),
    };
    SSpan { start, end, line, col, slice: Seq::empty() }
}

/// Message and hint of the parse error built from a parse failure.
pub open spec fn parse_failure_text(f: ParseFailure) -> (Seq<char>, Seq<char>) {
    match f.variant {
        ParseFailureKind::ParsingError { positives, negatives } => {
            let clean = clean_positives(positives@);
            if clean.len() == 0 && negatives@.len() == 0 {
                ("unexpected token"@, "Nothing was expected here."@)
            } else if clean.len() > 0 {
                let msg = if clean.len() == 1 {
                    "expected "@ + rule_text(clean[0])
                } else {
                    "expected "@ + expectation_text(clean).0
                };
                (msg, expectation_text(clean).1)
            } else {
                (join_text(negatives@.map_values(|r: Rule| rule_text(r)), ", "@) + " is not valid here"@,
                 "This construct is not allowed in this position."@)
            }
        },
        ParseFailureKind::CustomError { message } => (message@, "Check your syntax against the language grammar."@),
    }
}

impl NbclError {
    /// The parse error for a failure of the grammar's parser. It always carries a hint
    /// and a span without text.
    pub fn from_parse_failure(err: &ParseFailure) -> (r: NbclError)
        ensures
            r@.kind == ErrorKind::Parse,
            r@.message == parse_failure_text(*err).0,
            r@.hint == Some(parse_failure_text(*err).1),
            r@.span == Some(parse_failure_span(*err)),
    {
        let (line, col) = match &err.line_col {
            ParseLineCol::Pos(l, c) => (*l, *c),
            ParseLineCol::Span((l, c), _) => (*l, *c),
        };
        let (start, end) = match &err.location {
            ParseLocation::Pos(p) => (*p, *p),
            ParseLocation::Span(s, e) => (*s, *e),
        };
        let span = Span { start, end, line, col, slice: String::new() };
        proof {
            reveal_strlit("unexpected token");
            reveal_strlit("Nothing was expected here.");
            reveal_strlit("expected ");
            reveal_strlit(" is not valid here");
            reveal_strlit(", ");
        }
        match &err.variant {
            ParseFailureKind::ParsingError { positives, negatives } => {
                let mut clean: Vec<Rule> = Vec::new();
                let mut i: usize = 0;
                while i < positives.len()
                    invariant
                        i <= positives@.len(),
                        clean@ == clean_positives(positives@.take(i as int)),
                    decreases positives@.len() - i,
                {
                    let r = positives[i];
                    proof {
                        let t = positives@.take(i as int);
                        assert(positives@.take(i + 1) =~= t.push(r));
                        t.lemma_filter_push(r, |r: Rule| !is_noise_rule(r));
                    }
                    if !(r == Rule::EOI || r == Rule::WHITESPACE || r == Rule::COMMENT) {
                        clean.push(r);
                    }
                    i = i + 1;
                }
                assert(positives@.take(positives@.len() as int) =~= positives@);
                if clean.len() == 0 && negatives.len() == 0 {
                    return NbclError::Parse {
                        message: to_owned_string("unexpected token"),
                        hint: Some(to_owned_string("Nothing was expected here.")),
                        span: Some(span),
                    };
                }
                if clean.len() > 0 {
                    let (ctx, hint) = classify_expectation(&clean);
                    let msg = if clean.len() == 1 {
                        concat2("expected ", rule_to_human(clean[0]))
                    } else {
                        concat2("expected ", ctx)
                    };
                    NbclError::Parse { message: msg, hint: Some(to_owned_string(hint)), span: Some(span) }
                } else {
                    let mut msg = String::new();
                    let mut k: usize = 0;
                    let ghost texts = negatives@.map_values(|r: Rule| rule_text(r));
                    while k < negatives.len()
                        invariant
                            k <= negatives@.len(),
                            texts == negatives@.map_values(|r: Rule| rule_text(r)),
                            msg@ == join_text(texts.take(k as int), ", "@),
                        decreases negatives@.len() - k,
                    {
                        proof {
                            assert(texts.take(k + 1).drop_last() =~= texts.take(k as int));
                        }
                        if k > 0 {
                            push_str(&mut msg, ", ");
                        } else {
                            assert(texts.take(0) =~= Seq::<Seq<char>>::empty());
                        }
                        push_str(&mut msg, rule_to_human(negatives[k]));
                        proof {
                            if k == 0 {
                                assert(msg@ =~= texts.take(1)[0]);
                            }
                        }
                        k = k + 1;
                    }
                    assert(texts.take(negatives@.len() as int) =~= texts);
                    push_str(&mut msg, " is not valid here");
                    NbclError::Parse {
                        message: msg,
                        hint: Some(to_owned_string("This construct is not allowed in this position.")),
                        span: Some(span),
                    }
                }
            },
            ParseFailureKind::CustomError { message } => {
                NbclError::Parse {
                    message: message.clone(),
                    hint: Some(to_owned_string("Check your syntax against the language grammar.")),
                    span: Some(span),
                }
            },
        }
    }
}

} // verus!
