//! The meaning of evaluation, as spec functions over the evaluator's model.
//!
//! Every function takes a step budget (`fuel`): a call into another part of the
//! evaluator costs one step, so evaluation always ends; running out of steps is an
//! error. Outcomes are [`Out`] values: a result with the new state, an error, or
//! `Host` where the embedding program was consulted (floats, native functions run by
//! the host, modules read from disk), after which nothing more is stated.
use vstd::prelude::*;
use crate::ast::{
    BinaryOp, Block, BodyItem, Branch, ComponentDef, ComponentInterface, Expr, ExprKind, FnDef,
    IfExpr, Literal, MatchArm, MatchBody, NodeInvocation, NodeItem, Parameter, ReturnType, Stmt,
    StringType, UnaryOp, AssignOp, TopLevelItem, ImportDef, ImportDefType, ComponentSelection,
};
use crate::error::{ErrorKind, SSpan};
use crate::format::{debug_str, debug_text, debug_type, display_float, display_text, has_float};
use crate::ops::{assign_result, binary_result, negation_result, overflow_message};
use crate::registry::{
    Builtin, NativeHandler, SNativeFn, SPropValidation, SRegistry, assoc_get, assoc_put, first_key_index,
    first_named, item_names, keys_view, library_names,
};
use crate::state::{
    Out, SBinding, SErr, SFlow, SScope, SState, ScopeKind, declare, err_core, lookup_var, pop_scope,
    push_scope, rt, rth, scope_with, set_var,
};
use crate::text::{dec_int, dec_nat};
use crate::utils::{best_match, names_view, suggestion};
use crate::value::{ResolvedNode, SNode, SType, SValue, Value, is_truthy_spec, kind_name_spec, type_from_name, type_matches, view_entries, view_nodes, view_values};
use crate::error::NbclError;

verus! {

pub open spec fn step_limit_message() -> Seq<char> {
    "evaluation step limit reached"@
}

/// The outcome when the step budget is exhausted.
pub open spec fn out_of_steps<T>() -> Out<T> {
    Out::Fail(rt(step_limit_message(), None))
}

/// Carries an error (or a host outcome) over to another outcome type.
pub open spec fn pass<A, B>(o: Out<A>) -> Out<B> {
    match o {
        Out::Fail(e) => Out::Fail(e),
        _ => Out::Host,
    }
}

/// Pairs a value outcome with a state.
pub open spec fn with_state(s: SState, o: Out<SValue>) -> Out<(SState, SValue)> {
    match o {
        Out::Done(v) => Out::Done((s, v)),
        Out::Fail(e) => Out::Fail(e),
        Out::Host => Out::Host,
    }
}

/// A state outcome with `null` as its value.
pub open spec fn with_null(o: Out<SState>) -> Out<(SState, SValue)> {
    match o {
        Out::Done(s) => Out::Done((s, SValue::Null)),
        Out::Fail(e) => Out::Fail(e),
        Out::Host => Out::Host,
    }
}

/// Puts `t` in front of a text outcome.
pub open spec fn prepend(t: Seq<char>, o: Out<Seq<char>>) -> Out<Seq<char>> {
    match o {
        Out::Done(r) => Out::Done(t + r),
        Out::Fail(e) => Out::Fail(e),
        Out::Host => Out::Host,
    }
}

/// The state with the call depth lowered by one (not below zero).
pub open spec fn dec_depth(s: SState) -> SState {
    SState { depth: if s.depth > 0 { (s.depth - 1) as usize } else { 0usize }, ..s }
}

// ---------------------------------------------------------------- results

/// An error result whose kind, message and span are those of `e`.
pub open spec fn err_res<T>(e: SErr, r: Result<T, NbclError>) -> bool {
    r matches Err(x) && err_core(x@) == e
}

/// An executable result agrees with a value outcome (and the final state with its state).
pub open spec fn val_res(o: Out<(SState, SValue)>, fin: SState, r: Result<Value, NbclError>) -> bool {
    match o {
        Out::Done((s, v)) => r matches Ok(x) && x@ == v && fin == s,
        Out::Fail(e) => err_res(e, r),
        Out::Host => true,
    }
}

/// An executable result agrees with an outcome that is a list of values.
pub open spec fn vals_res(o: Out<(SState, Seq<SValue>)>, fin: SState, r: Result<Vec<Value>, NbclError>) -> bool {
    match o {
        Out::Done((s, v)) => r matches Ok(x) && view_values(x@) == v && fin == s,
        Out::Fail(e) => err_res(e, r),
        Out::Host => true,
    }
}

/// An executable result agrees with an outcome that is a list of map entries.
pub open spec fn pairs_res(o: Out<(SState, Seq<(Seq<char>, SValue)>)>, fin: SState, r: Result<Vec<(String, Value)>, NbclError>) -> bool {
    match o {
        Out::Done((s, v)) => r matches Ok(x) && view_entries(x@) == v && fin == s,
        Out::Fail(e) => err_res(e, r),
        Out::Host => true,
    }
}

/// An executable result agrees with an outcome that is a list of nodes.
pub open spec fn nodes_res(o: Out<(SState, Seq<SNode>)>, fin: SState, r: Result<Vec<ResolvedNode>, NbclError>) -> bool {
    match o {
        Out::Done((s, v)) => r matches Ok(x) && view_nodes(x@) == v && fin == s,
        Out::Fail(e) => err_res(e, r),
        Out::Host => true,
    }
}

/// An executable result agrees with an outcome that is a state.
pub open spec fn unit_res(o: Out<SState>, fin: SState, r: Result<(), NbclError>) -> bool {
    match o {
        Out::Done(s) => r is Ok && fin == s,
        Out::Fail(e) => err_res(e, r),
        Out::Host => true,
    }
}

/// The model of an optional value.
pub open spec fn opt_value_view(o: Option<Value>) -> Option<SValue> {
    match o {
        Some(v) => Some(v@),
        None => None,
    }
}

/// `acc` in front of the list of an outcome.
pub open spec fn lift<T>(acc: Seq<T>, o: Out<(SState, Seq<T>)>) -> Out<(SState, Seq<T>)> {
    match o {
        Out::Done((s, vs)) => Out::Done((s, acc + vs)),
        Out::Fail(e) => Out::Fail(e),
        Out::Host => Out::Host,
    }
}

pub proof fn lemma_lift_step<T>(acc: Seq<T>, v: T, o: Out<(SState, Seq<T>)>)
    ensures
        lift(acc, match o { Out::Done((s, vs)) => Out::Done((s, seq![v] + vs)), o2 => o2 }) == lift(acc.push(v), o),
{
    match o {
        Out::Done((s, vs)) => { assert(acc + (seq![v] + vs) =~= acc.push(v) + vs); },
        _ => {},
    }
}

pub proof fn lemma_lift_empty<T>(acc: Seq<T>, s: SState)
    ensures
        lift(acc, Out::Done((s, Seq::<T>::empty()))) == Out::Done((s, acc)),
{
    assert(acc + Seq::<T>::empty() =~= acc);
}

// ---------------------------------------------------------------- text helpers

/// Unicode white space, as `char::is_whitespace` defines it.
pub open spec fn is_white(c: char) -> bool {
    c == ' ' || ('\t' <= c && c <= '\r') || c == '\u{85}' || c == '\u{a0}' || c == '\u{1680}'
        || ('\u{2000}' <= c && c <= '\u{200a}') || c == '\u{2028}' || c == '\u{2029}'
        || c == '\u{202f}' || c == '\u{205f}' || c == '\u{3000}'
}

pub open spec fn is_quote(c: char) -> bool {
    c == '"' || c == '\''
}

/// The characters that trimming removes: quotes, or else white space.
pub open spec fn strippable(c: char, quotes: bool) -> bool {
    if quotes { is_quote(c) } else { is_white(c) }
}

/// `s` without its leading strippable characters.
pub open spec fn strip_start(s: Seq<char>, quotes: bool) -> Seq<char>
    decreases s.len(),
{
    if s.len() > 0 && strippable(s[0], quotes) { strip_start(s.drop_first(), quotes) } else { s }
}

/// `s` without its trailing strippable characters.
pub open spec fn strip_end(s: Seq<char>, quotes: bool) -> Seq<char>
    decreases s.len(),
{
    if s.len() > 0 && strippable(s.last(), quotes) { strip_end(s.drop_last(), quotes) } else { s }
}

/// `s` without leading and trailing white space (as `str::trim`).
pub open spec fn trim(s: Seq<char>) -> Seq<char> {
    strip_end(strip_start(s, false), false)
}

/// `s` without the single and double quotes at either end.
pub open spec fn unquote_spec(s: Seq<char>) -> Seq<char> {
    strip_end(strip_start(s, true), true)
}

/// The character an escape `\c` stands for, if `c` starts an escape.
pub open spec fn escape_target(c: char) -> Option<char> {
    if c == '$' { Some('$') }
    else if c == '\\' { Some('\\') }
    else if c == 'n' { Some('\n') }
    else if c == 't' { Some('\t') }
    else if c == 'r' { Some('\r') }
    else if c == '"' { Some('"') }
    else if c == '\'' { Some('\'') }
    else if c == '0' { Some('\0') }
    else { None }
}

/// The text that `${name}` stands for: the variable's displayed value without quotes,
/// or nothing for an unknown variable.
pub open spec fn substitution(st: SState, name: Seq<char>) -> Out<Seq<char>> {
    match lookup_var(st, trim(name)) {
        Some(v) => if display_float(v) { Out::Host } else { Out::Done(unquote_spec(display_text(v))) },
        None => Out::Done(Seq::empty()),
    }
}

/// The processed text of a string literal from position `i` on: escapes are replaced
/// and, in format strings, `${name}` is substituted.
pub open spec fn interp(st: SState, s: Seq<char>, fmt: bool, i: int) -> Out<Seq<char>>
    decreases s.len() - i, 1int,
{
    if i < 0 || i >= s.len() {
        Out::Done(Seq::empty())
    } else if s[i] == '\\' && i + 1 < s.len() && escape_target(s[i + 1]) is Some {
        prepend(seq![escape_target(s[i + 1]).unwrap()], interp(st, s, fmt, i + 2))
    } else if s[i] == '$' && fmt && i + 1 < s.len() && s[i + 1] == '{' {
        interp_name(st, s, fmt, i + 2, i + 2)
    } else {
        prepend(seq![s[i]], interp(st, s, fmt, i + 1))
    }
}

/// Reading the name of a `${name}` that starts at `start`; `j` is the next position.
pub open spec fn interp_name(st: SState, s: Seq<char>, fmt: bool, start: int, j: int) -> Out<Seq<char>>
    decreases s.len() - j, 0int,
{
    if j < 0 || j >= s.len() {
        substitution(st, s.subrange(start, s.len() as int))
    } else if s[j] == '}' {
        match substitution(st, s.subrange(start, j)) {
            Out::Done(t) => prepend(t, interp(st, s, fmt, j + 1)),
            o => o,
        }
    } else {
        interp_name(st, s, fmt, start, j + 1)
    }
}

/// The value of a string literal.
pub open spec fn string_literal(st: SState, s: Seq<char>, ty: StringType) -> Out<Seq<char>> {
    match ty {
        StringType::Raw => Out::Done(s),
        StringType::Normal => interp(st, s, false, 0),
        StringType::Format => interp(st, s, true, 0),
    }
}

// ---------------------------------------------------------------- pure operations

/// Field access on an evaluated value (`src.field` or `src?.field`).
pub open spec fn field_result(v: SValue, field: Seq<char>, safe: bool, span: SSpan) -> Out<SValue> {
    match v {
        SValue::Dict(pairs) => match assoc_get(pairs, field) {
            Some(x) => Out::Done(x),
            None => if safe { Out::Done(SValue::Null) } else {
                Out::Fail(rth("map has no field: "@ + field, Some(missing_field_hint(field, pairs)), Some(span)))
            },
        },
        SValue::Null => if safe { Out::Done(SValue::Null) } else {
            Out::Fail(rt("cannot access field '"@ + field + "' on non-map type: "@ + debug_text(v), Some(span)))
        },
        _ => if has_float(v) { Out::Host } else {
            Out::Fail(rt("cannot access field '"@ + field + "' on non-map type: "@ + debug_text(v), Some(span)))
        },
    }
}

/// The hint for a missing map field: the closest key, or the safe accessor.
pub open spec fn missing_field_hint(field: Seq<char>, pairs: Seq<(Seq<char>, SValue)>) -> Seq<char> {
    match suggestion(field, keys_view(pairs)) {
        Some(h) => h,
        None => "If this field is optional, try using the safe access operator: \"?.\""@ + field,
    }
}

/// The names of the variables of a list of scopes, innermost last.
pub open spec fn scope_names(scopes: Seq<SScope>) -> Seq<Seq<char>>
    decreases scopes.len(),
{
    if scopes.len() == 0 { Seq::empty() } else { scope_names(scopes.drop_last()) + keys_view(scopes.last().vars) }
}

/// The names of all variables in scope, then of all globals.
pub open spec fn var_names(st: SState) -> Seq<Seq<char>> {
    scope_names(st.scopes) + keys_view(st.reg.globals)
}

/// The hint "Signature: f(a, b)" for a user function.
pub open spec fn signature_hint(name: Seq<char>, params: Seq<String>) -> Seq<char> {
    "Signature: "@ + name + "("@ + crate::error::join_text(names_view(params), ", "@) + ")"@
}

/// Indexing an evaluated value with an evaluated key.
pub open spec fn index_result(t: SValue, k: SValue, span: SSpan) -> Out<SValue> {
    match (t, k) {
        (SValue::List(l), SValue::Int(i)) => if 0 <= i < l.len() { Out::Done(l[i as int]) } else {
            Out::Fail(rt("index "@ + dec_int(i as int) + " out of bounds"@, Some(span)))
        },
        (SValue::Dict(m), SValue::Str(s)) => match assoc_get(m, s) {
            Some(x) => Out::Done(x),
            None => Out::Fail(rth("key '"@ + s + "' not found in map"@, suggestion(s, keys_view(m)), Some(span))),
        },
        _ => Out::Fail(rt("invalid index operation"@, Some(span))),
    }
}

/// A range from evaluated bounds; `..=` includes the end.
pub open spec fn range_result(a: SValue, b: SValue, inclusive: bool, span: SSpan) -> Out<SValue> {
    match (a, b) {
        (SValue::Int(x), SValue::Int(y)) => if !inclusive {
            Out::Done(SValue::Range(x, y))
        } else if y == i64::MAX {
            Out::Fail(rt(overflow_message(), Some(span)))
        } else {
            Out::Done(SValue::Range(x, (y + 1) as i64))
        },
        _ => Out::Fail(rt("range boundaries must be integers"@, Some(span))),
    }
}

/// Whether a match arm's pattern matches a value (`_` matches everything).
pub open spec fn arm_matches(pattern: Seq<char>, v: SValue) -> bool {
    pattern == "_"@ || match v {
        SValue::Int(i) => pattern == dec_int(i as int),
        SValue::Bool(b) => pattern == (if b { "true"@ } else { "false"@ }),
        SValue::Str(s) => pattern == s,
        SValue::Null => pattern == "null"@,
        _ => false,
    }
}

/// The index of the arm chosen for `v` (the first that matches or binds), or the
/// number of arms when none is.
pub open spec fn first_arm(arms: Seq<MatchArm>, v: SValue, k: int) -> int
    decreases arms.len() - k,
{
    if k < 0 || k >= arms.len() {
        arms.len() as int
    } else if arm_matches(arms[k].pattern@, v) || arms[k].is_var {
        k
    } else {
        first_arm(arms, v, k + 1)
    }
}

/// The bindings of the first `k` names, each to the matching value.
pub open spec fn bind_names(names: Seq<String>, vals: Seq<SValue>, is_const: bool, k: int) -> Seq<(Seq<char>, SBinding)>
    decreases k,
{
    if k <= 0 {
        Seq::empty()
    } else {
        assoc_put(bind_names(names, vals, is_const, k - 1), names[k - 1]@, SBinding { value: vals[k - 1], is_const })
    }
}

/// The first argument that does not have its parameter's type.
pub open spec fn first_mismatch(params: Seq<SType>, vals: Seq<SValue>, k: int) -> Option<int>
    decreases params.len() - k,
{
    if k < 0 || k >= params.len() || k >= vals.len() {
        None
    } else if !type_matches(params[k], vals[k]) {
        Some(k)
    } else {
        first_mismatch(params, vals, k + 1)
    }
}

/// The number of bytes of the UTF-8 encoding of a character.
pub open spec fn utf8_width(c: char) -> nat {
    if (c as u32) < 0x80 { 1 } else if (c as u32) < 0x800 { 2 } else if (c as u32) < 0x10000 { 3 } else { 4 }
}

/// The number of bytes of the UTF-8 encoding of a text.
pub open spec fn utf8_len(s: Seq<char>) -> nat
    decreases s.len(),
{
    if s.len() == 0 { 0 } else { utf8_len(s.drop_last()) + utf8_width(s.last()) }
}

/// Whether `sub` occurs in `s`.
pub open spec fn has_substring(s: Seq<char>, sub: Seq<char>) -> bool {
    exists|i: int| 0 <= i && i + sub.len() <= s.len() && #[trigger] s.subrange(i, i + sub.len()) == sub
}

/// The error message for a value of the wrong type given to a built-in.
pub open spec fn unsupported_message(what: Seq<char>, v: SValue) -> Seq<char> {
    what + " not supported for type "@ + kind_name_spec(v)
}

/// What a built-in native function does with its arguments (already checked against
/// its parameter types).
#[verifier::opaque]
pub open spec fn builtin_result(s: SState, b: Builtin, args: Seq<SValue>) -> Out<(SState, SValue)> {
    let v = args[0];
    if args.len() < builtin_arity(b) {
        Out::Fail(rt("missing argument for a built-in function"@, None))
    } else {
    match b {
        Builtin::Print => if display_float(v) { Out::Host } else {
            Out::Done((SState { output: s.output.push(display_text(v)), ..s }, SValue::Null))
        },
        Builtin::ToString => if display_float(v) { Out::Host } else { Out::Done((s, SValue::Str(display_text(v)))) },
        Builtin::AsInt => match v {
            SValue::Int(i) => Out::Done((s, SValue::Int(i))),
            _ => Out::Fail(rt(unsupported_message("as_int()"@, v), None)),
        },
        Builtin::AsFloat => match v {
            SValue::Float(f) => Out::Done((s, SValue::Float(f))),
            _ => Out::Fail(rt(unsupported_message("as_float()"@, v), None)),
        },
        Builtin::TypeOf => Out::Done((s, SValue::Str(kind_name_spec(v)))),
        Builtin::Len => match v {
            SValue::Str(t) => if utf8_len(t) <= i64::MAX { Out::Done((s, SValue::Int(utf8_len(t) as i64))) }
                else { Out::Fail(rt(overflow_message(), None)) },
            SValue::List(l) => Out::Done((s, SValue::Int(l.len() as i64))),
            SValue::Dict(m) => Out::Done((s, SValue::Int(m.len() as i64))),
            _ => Out::Fail(rt(unsupported_message("len()"@, v), None)),
        },
        Builtin::Contains => match v {
            SValue::List(l) => if has_float(v) || has_float(args[1]) { Out::Host } else {
                Out::Done((s, SValue::Bool(l.contains(args[1]))))
            },
            SValue::Str(t) => match args[1] {
                SValue::Str(sub) => Out::Done((s, SValue::Bool(has_substring(t, sub)))),
                _ => Out::Done((s, SValue::Bool(false))),
            },
            _ => Out::Fail(rt(unsupported_message("contains()"@, v), None)),
        },
        Builtin::Push => match v {
            SValue::List(l) => Out::Done((s, SValue::List(l.push(args[1])))),
            _ => Out::Done((s, v)),
        },
        Builtin::Pop => match v {
            SValue::List(l) => Out::Done((s, if l.len() > 0 { l.last() } else { SValue::Null })),
            _ => Out::Done((s, v)),
        },
        Builtin::Keys => match v {
            SValue::Dict(m) => Out::Done((s, SValue::List(m.map_values(|e: (Seq<char>, SValue)| SValue::Str(e.0))))),
            _ => Out::Done((s, v)),
        },
        Builtin::Values => match v {
            SValue::Dict(m) => Out::Done((s, SValue::List(m.map_values(|e: (Seq<char>, SValue)| e.1)))),
            _ => Out::Done((s, v)),
        },
        Builtin::Abs => match v {
            SValue::Int(i) => if i == i64::MIN { Out::Fail(rt(overflow_message(), None)) }
                else { Out::Done((s, SValue::Int(if i < 0 { (-i) as i64 } else { i }))) },
            _ => Out::Done((s, v)),
        },
    }
    }
}

/// The number of arguments a built-in reads.
pub open spec fn builtin_arity(b: Builtin) -> nat {
    match b {
        Builtin::Contains | Builtin::Push => 2,
        _ => 1,
    }
}

/// Whether a character is an ASCII decimal digit.
pub open spec fn is_digit(c: char) -> bool {
    '0' <= c && c <= '9'
}

/// The number that a sequence of decimal digits writes.
pub open spec fn digits_value(s: Seq<char>) -> int
    decreases s.len(),
{
    if s.len() == 0 { 0 } else { digits_value(s.drop_last()) * 10 + (s.last() as int - '0' as int) }
}

/// Whether a text reads as an `i64`: an optional `+` or `-`, then one or more decimal
/// digits, whose value fits in an `i64`.
pub open spec fn reads_as_i64(s: Seq<char>) -> bool {
    &&& number_body(s).len() > 0
    &&& forall|j: int| 0 <= j < number_body(s).len() ==> is_digit(#[trigger] number_body(s)[j])
    &&& if is_signed(s) && s[0] == '-' {
            digits_value(number_body(s)) <= 0x8000_0000_0000_0000
        } else {
            digits_value(number_body(s)) <= 0x7fff_ffff_ffff_ffff
        }
}

/// The number a text that reads as an `i64` writes.
pub open spec fn number_value(s: Seq<char>) -> int {
    if is_signed(s) && s[0] == '-' { -digits_value(number_body(s)) } else { digits_value(number_body(s)) }
}

/// Whether a text starts with a sign.
pub open spec fn is_signed(s: Seq<char>) -> bool {
    s.len() > 0 && (s[0] == '+' || s[0] == '-')
}

/// A text without its leading sign, if it has one.
pub open spec fn number_body(s: Seq<char>) -> Seq<char> {
    if is_signed(s) { s.drop_first() } else { s }
}

/// The hint of a native call with the wrong number of arguments: how to call it.
pub open spec fn usage_hint(name: Seq<char>, params: Seq<SType>) -> Seq<char> {
    "Usage: "@ + name + "("@ + crate::error::join_text(params.map_values(|t: SType| debug_type(t)), ", "@) + ")"@
}

/// The hint of a native call whose argument at index `i` has the wrong type.
pub open spec fn arg_type_hint(t: SType, v: SValue, i: nat) -> Seq<char> {
    if v matches SValue::Str(text) && reads_as_i64(text) {
        "This value is a string, but the function needs a number. Try removing the quotes."@
    } else {
        "Check the "@ + dec_nat(i + 1) + crate::utils::ordinal_suffix(i + 1) + " argument. It must be a "@ + debug_type(t) + "."@
    }
}

/// Calling a native function by `name` with evaluated arguments: the arity and the
/// argument types are checked, then the built-in runs or the host is called.
#[verifier::opaque]
pub open spec fn native_call(s: SState, name: Seq<char>, schema: SNativeFn, args: Seq<SValue>, span: SSpan) -> Out<(SState, SValue)> {
    if args.len() != schema.params.len() {
        Out::Fail(rth("native function '"@ + name + "' expected "@ + dec_nat(schema.params.len()) + " args, got "@
            + dec_nat(args.len()), Some(usage_hint(name, schema.params)), Some(span)))
    } else {
        match first_mismatch(schema.params, args, 0) {
            Some(i) => Out::Fail(rth("native function '"@ + name + "' arg "@ + dec_nat(i as nat) + " expected "@
                + debug_type(schema.params[i]) + ", got "@ + kind_name_spec(args[i]),
                Some(arg_type_hint(schema.params[i], args[i], i as nat)), Some(span))),
            None => match schema.handler {
                NativeHandler::Builtin(b) => builtin_result(dec_depth(s), b, args),
                NativeHandler::Host(_) => Out::Host,
            },
        }
    }
}

// ---------------------------------------------------------------- scopes

/// Whether `return` is refused: at the top level, or in a block right under it.
pub open spec fn at_root(scopes: Seq<SScope>) -> bool {
    (scopes.len() == 1 && scopes[0].kind == ScopeKind::TopLevel)
        || (scopes.len() == 2 && scopes[0].kind == ScopeKind::TopLevel && scopes[1].kind == ScopeKind::Block)
}

/// An empty scope of the given kind.
pub open spec fn empty_scope(kind: ScopeKind) -> SScope {
    SScope { vars: Seq::empty(), kind }
}

/// Sets loop variable `name` in scope `k` if it is bound there.
pub open spec fn set_loop_var(s: SState, k: int, name: Seq<char>, v: SValue) -> SState {
    if 0 <= k < s.scopes.len() && first_key_index(s.scopes[k].vars, name) is Some {
        set_var(s, k, name, v)
    } else {
        s
    }
}

/// Binds `name` as a constant in scope `k`.
pub open spec fn insert_loop_var(s: SState, k: int, name: Seq<char>, v: SValue) -> SState {
    if 0 <= k < s.scopes.len() {
        let sc = s.scopes[k];
        SState {
            scopes: s.scopes.update(k, SScope { vars: assoc_put(sc.vars, name, SBinding { value: v, is_const: true }), kind: sc.kind }),
            ..s
        }
    } else {
        s
    }
}

/// Binds the loop patterns for iteration `i` of a range loop.
pub open spec fn bind_range_patterns(s: SState, pats: Seq<String>, k: int, i: int) -> SState {
    if pats.len() == 1 {
        set_loop_var(s, k, pats[0]@, SValue::Int(i as i64))
    } else if pats.len() == 2 {
        set_loop_var(set_loop_var(s, k, pats[0]@, SValue::Int(i as i64)), k, pats[1]@, SValue::Int(i as i64))
    } else {
        s
    }
}

/// Binds the loop patterns for item `j` of a list loop (`x` or `i, x`).
pub open spec fn bind_list_patterns(s: SState, pats: Seq<String>, k: int, j: int, item: SValue) -> SState {
    if pats.len() == 1 {
        insert_loop_var(s, k, pats[0]@, item)
    } else if pats.len() == 2 {
        insert_loop_var(insert_loop_var(s, k, pats[0]@, SValue::Int(j as i64)), k, pats[1]@, item)
    } else {
        s
    }
}

/// The items of a node's property map that `Strict` validation refuses, first one first.
pub open spec fn strict_error(allowed: Seq<(Seq<char>, SType)>, props: Seq<(Seq<char>, SValue)>, ty: Seq<char>, span: SSpan, k: int) -> Option<SErr>
    decreases props.len() - k,
{
    if k < 0 || k >= props.len() {
        None
    } else {
        let key = props[k].0;
        let value = props[k].1;
        match assoc_get(allowed, key) {
            Some(t) => if !type_matches(t, value) {
                Some(rt("type mismatch for '"@ + key + "' on '"@ + ty + "': expected "@ + debug_type(t) + ", found "@
                    + debug_str(kind_name_spec(value)), Some(span)))
            } else {
                strict_error(allowed, props, ty, span, k + 1)
            },
            None => Some(rth("property '"@ + key + "' is not allowed on node '"@ + ty + "'"@,
                suggestion(key, keys_view(allowed)), Some(span))),
        }
    }
}

/// The entries of `props` without the first one keyed `k`.
pub open spec fn remove_key(props: Seq<(Seq<char>, SValue)>, k: Seq<char>) -> Seq<(Seq<char>, SValue)> {
    match first_key_index(props, k) {
        Some(i) => props.remove(i),
        None => props,
    }
}

/// Binds a component's strict parameters from the caller's properties, from parameter
/// `k` on; gives the bindings or the error.
/// The names of a component's parameters.
pub open spec fn param_names(params: Seq<Parameter>) -> Seq<Seq<char>> {
    params.map_values(|p: Parameter| p.name@)
}

/// The hint for a missing required property: the given property closest to its name.
pub open spec fn missing_prop_hint(name: Seq<char>, props: Seq<(Seq<char>, SValue)>) -> Option<Seq<char>> {
    match best_match(name, keys_view(props)) {
        Some(x) => Some("You provided \""@ + x + "\", which is not a parameter. Did you mean \""@ + name + "\"?"@),
        None => None,
    }
}

pub open spec fn bind_strict(def: ComponentDef, params: Seq<Parameter>, props: Seq<(Seq<char>, SValue)>,
    vars: Seq<(Seq<char>, SBinding)>, span: SSpan, k: int) -> Result<Seq<(Seq<char>, SBinding)>, SErr>
    decreases params.len() - k,
{
    if k < 0 || k >= params.len() {
        if props.len() > 0 {
            Err(rth("unexpected property '"@ + props[0].0 + "' for component '"@ + def.name@ + "'"@,
                suggestion(props[0].0, param_names(params)), Some(span)))
        } else {
            Ok(vars)
        }
    } else {
        let p = params[k];
        match assoc_get(props, p.name@) {
            Some(v) => {
                let bad = match p.type_hint {
                    Some(h) => match type_from_name(h@) {
                        Some(t) => !type_matches(t, v),
                        None => false,
                    },
                    None => false,
                };
                if bad {
                    Err(rt("component '"@ + def.name@ + "' expected "@ + p.type_hint.unwrap()@ + " for prop '"@ + p.name@
                        + "', got "@ + kind_name_spec(v), Some(span)))
                } else {
                    bind_strict(def, params, remove_key(props, p.name@),
                        assoc_put(vars, p.name@, SBinding { value: v, is_const: false }), span, k + 1)
                }
            },
            None => if !p.is_optional {
                Err(rth("missing required prop '"@ + p.name@ + "' for component '"@ + def.name@ + "'"@,
                    missing_prop_hint(p.name@, props), Some(span)))
            } else {
                bind_strict(def, params, props, assoc_put(vars, p.name@, SBinding { value: SValue::Null, is_const: false }), span, k + 1)
            },
        }
    }
}

/// The variables of a component's scope: `self` and the interface's bindings.
pub open spec fn component_vars(def: ComponentDef, id: SValue, props: Seq<(Seq<char>, SValue)>, children: Seq<SNode>, span: SSpan)
    -> Result<Seq<(Seq<char>, SBinding)>, SErr>
{
    let meta = SValue::Dict(seq![("id"@, id), ("children"@, SValue::Node(children))]);
    let vars = seq![("self"@, SBinding { value: meta, is_const: false })];
    match def.interface {
        ComponentInterface::Loose(name) => Ok(assoc_put(vars, name@, SBinding { value: SValue::Dict(props), is_const: false })),
        ComponentInterface::Strict(params) => bind_strict(def, params@, props, vars, span, 0),
        ComponentInterface::Empty => Ok(vars),
    }
}

/// The internal name given to the `n`-th imported function.
pub open spec fn fresh_name(n: u64) -> Seq<char> {
    "anon#"@ + dec_nat(n as nat)
}

/// The counter after taking a fresh name.
pub open spec fn next_anon(n: u64) -> u64 {
    if n < u64::MAX { (n + 1) as u64 } else { n }
}

// ---------------------------------------------------------------- expressions

/// Evaluating an expression.
pub open spec fn eval_expr(st: SState, e: Expr, fuel: nat) -> Out<(SState, SValue)>
    decreases fuel, 0int,
{
    if fuel == 0 {
        out_of_steps()
    } else {
        let f = (fuel - 1) as nat;
        let span = e.span@;
        match e.kind {
            ExprKind::Literal(lit) => eval_literal(st, lit, f),
            ExprKind::Variable(name) => match lookup_var(st, name@) {
                Some(v) => Out::Done((st, v)),
                None => Out::Fail(rth("undefined variable: "@ + name@, suggestion(name@, var_names(st)), Some(span))),
            },
            ExprKind::Binary(l, op, r) => eval_binary(st, *l, op, *r, span, f),
            ExprKind::Unary(op, x) => match eval_expr(st, *x, f) {
                Out::Done((s1, v)) => match op {
                    UnaryOp::Not => Out::Done((s1, SValue::Bool(!is_truthy_spec(v)))),
                    UnaryOp::Neg => with_state(s1, negation_result(v, Some(span))),
                },
                o => o,
            },
            ExprKind::Field(src, field, safe) => match eval_expr(st, *src, f) {
                Out::Done((s1, v)) => with_state(s1, field_result(v, field@, safe, span)),
                o => o,
            },
            ExprKind::Index(t, k) => match eval_expr(st, *t, f) {
                Out::Done((s1, tv)) => match eval_expr(s1, *k, f) {
                    Out::Done((s2, kv)) => with_state(s2, index_result(tv, kv, span)),
                    o => o,
                },
                o => o,
            },
            ExprKind::Call(callee, args) => eval_call(st, *callee, args@, span, f),
            ExprKind::Lambda(def) => Out::Done((
                SState { reg: crate::registry::SRegistry { functions: assoc_put(st.reg.functions, def.name@, *def), ..st.reg }, ..st },
                SValue::Lambda(def.name@),
            )),
            ExprKind::If(ife) => eval_if(st, *ife, f),
            ExprKind::Match(subject, arms) => eval_match(st, *subject, arms@, f),
            ExprKind::Range(a, b, inclusive) => match eval_expr(st, *a, f) {
                Out::Done((s1, av)) => match eval_expr(s1, *b, f) {
                    Out::Done((s2, bv)) => with_state(s2, range_result(av, bv, inclusive, span)),
                    o => o,
                },
                o => o,
            },
        }
    }
}

/// Evaluating a literal.
pub open spec fn eval_literal(st: SState, lit: Literal, fuel: nat) -> Out<(SState, SValue)>
    decreases fuel, 0int,
{
    if fuel == 0 {
        out_of_steps()
    } else {
        let f = (fuel - 1) as nat;
        match lit {
            Literal::Int(i) => Out::Done((st, SValue::Int(i))),
            Literal::Float(b) => Out::Done((st, SValue::Float(b))),
            Literal::Bool(b) => Out::Done((st, SValue::Bool(b))),
            Literal::Null => Out::Done((st, SValue::Null)),
            Literal::Str(s, ty) => match string_literal(st, s@, ty) {
                Out::Done(t) => Out::Done((st, SValue::Str(t))),
                o => pass(o),
            },
            Literal::List(es) => match eval_exprs(st, es@, 0, f) {
                Out::Done((s1, vs)) => Out::Done((s1, SValue::List(vs))),
                o => pass(o),
            },
            Literal::Dict(ps) => match eval_pairs(st, ps@, 0, f) {
                Out::Done((s1, kvs)) => Out::Done((s1, SValue::Dict(kvs))),
                o => pass(o),
            },
        }
    }
}

/// Evaluating expressions `i..` of a list, in order.
pub open spec fn eval_exprs(st: SState, es: Seq<Expr>, i: int, fuel: nat) -> Out<(SState, Seq<SValue>)>
    decreases fuel, es.len() - i,
{
    if fuel == 0 {
        out_of_steps()
    } else if i < 0 || i >= es.len() {
        Out::Done((st, Seq::empty()))
    } else {
        match eval_expr(st, es[i], (fuel - 1) as nat) {
            Out::Done((s1, v)) => match eval_exprs(s1, es, i + 1, fuel) {
                Out::Done((s2, vs)) => Out::Done((s2, seq![v] + vs)),
                o => o,
            },
            o => pass(o),
        }
    }
}

/// Evaluating the values of map entries `i..`, in order.
pub open spec fn eval_pairs(st: SState, ps: Seq<(String, Expr)>, i: int, fuel: nat) -> Out<(SState, Seq<(Seq<char>, SValue)>)>
    decreases fuel, ps.len() - i,
{
    if fuel == 0 {
        out_of_steps()
    } else if i < 0 || i >= ps.len() {
        Out::Done((st, Seq::empty()))
    } else {
        match eval_expr(st, ps[i].1, (fuel - 1) as nat) {
            Out::Done((s1, v)) => match eval_pairs(s1, ps, i + 1, fuel) {
                Out::Done((s2, vs)) => Out::Done((s2, seq![(ps[i].0@, v)] + vs)),
                o => o,
            },
            o => pass(o),
        }
    }
}

/// A binary operation; `||` and `&&` short-circuit and give one of their operands.
pub open spec fn eval_binary(st: SState, l: Expr, op: BinaryOp, r: Expr, span: SSpan, fuel: nat) -> Out<(SState, SValue)>
    decreases fuel, 0int,
{
    if fuel == 0 {
        out_of_steps()
    } else {
        let f = (fuel - 1) as nat;
        match eval_expr(st, l, f) {
            Out::Done((s1, lv)) => if op == BinaryOp::Or {
                if is_truthy_spec(lv) { Out::Done((s1, lv)) } else { eval_expr(s1, r, f) }
            } else if op == BinaryOp::And {
                if !is_truthy_spec(lv) { Out::Done((s1, lv)) } else { eval_expr(s1, r, f) }
            } else {
                match eval_expr(s1, r, f) {
                    Out::Done((s2, rv)) => with_state(s2, binary_result(lv, op, rv, Some(span))),
                    o => o,
                }
            },
            o => o,
        }
    }
}

/// What a call's callee resolves to.
pub enum Callee {
    /// A function to run by name, with the final arguments.
    Named(Seq<char>, Seq<SValue>),
    /// The call's value, without running anything (`m?.f()` on a map without `f`).
    Early(SValue),
}

/// Resolving the callee of a call, after its arguments were evaluated.
pub open spec fn resolve_callee(st: SState, callee: Expr, args: Seq<SValue>, fuel: nat) -> Out<(SState, Callee)>
    decreases fuel, 0int,
{
    if fuel == 0 {
        out_of_steps()
    } else {
        let f = (fuel - 1) as nat;
        let cspan = callee.span@;
        match callee.kind {
            ExprKind::Variable(name) => match lookup_var(st, name@) {
                Some(SValue::Lambda(n)) => Out::Done((st, Callee::Named(n, args))),
                _ => Out::Done((st, Callee::Named(name@, args))),
            },
            ExprKind::Field(src, field, safe) => match eval_expr(st, *src, f) {
                Out::Done((s1, recv)) => match recv {
                    SValue::Dict(pairs) => match assoc_get(pairs, field@) {
                        Some(SValue::Lambda(n)) => Out::Done((s1, Callee::Named(n, args))),
                        Some(other) => if has_float(other) { Out::Host } else {
                            Out::Fail(rt("field '"@ + field@ + "' is not a callable function, got: "@ + debug_text(other), Some(cspan)))
                        },
                        None => if safe { Out::Done((dec_depth(s1), Callee::Early(SValue::Null))) } else {
                            Out::Fail(rt("map has no field: "@ + field@, Some(cspan)))
                        },
                    },
                    _ => Out::Done((s1, Callee::Named(field@, seq![recv] + args))),
                },
                o => pass(o),
            },
            _ => match eval_expr(st, callee, f) {
                Out::Done((s1, v)) => match v {
                    SValue::Lambda(n) => Out::Done((s1, Callee::Named(n, args))),
                    _ => Out::Fail(rt("callee expression is not callable"@, Some(cspan))),
                },
                o => pass(o),
            },
        }
    }
}

/// A call: the depth limit is checked, the arguments evaluated, the callee resolved,
/// then a native or a user function runs.
pub open spec fn eval_call(st: SState, callee: Expr, args: Seq<Expr>, span: SSpan, fuel: nat) -> Out<(SState, SValue)>
    decreases fuel, 0int,
{
    if fuel == 0 {
        out_of_steps()
    } else if st.depth >= st.max_depth {
        Out::Fail(rth("maximum recursion depth of "@ + dec_nat(st.max_depth as nat) + " exceeded"@,
            Some("Check for infinite recursion in your functions or increase the limit."@), Some(callee.span@)))
    } else {
        let f = (fuel - 1) as nat;
        let s0 = SState { depth: (st.depth + 1) as usize, ..st };
        match eval_exprs(s0, args, 0, f) {
            Out::Done((s1, vals)) => match resolve_callee(s1, callee, vals, f) {
                Out::Done((s2, Callee::Early(v))) => Out::Done((s2, v)),
                Out::Done((s2, Callee::Named(name, vals2))) => invoke(s2, name, vals2, span, callee.span@, f),
                o => pass(o),
            },
            o => pass(o),
        }
    }
}

/// Running the function `name` on evaluated arguments: a native function if one has
/// that name, else a user function.
pub open spec fn invoke(st: SState, name: Seq<char>, args: Seq<SValue>, span: SSpan, callee_span: SSpan, fuel: nat) -> Out<(SState, SValue)>
    decreases fuel, 0int,
{
    if fuel == 0 {
        out_of_steps()
    } else {
        match assoc_get(st.reg.native_functions, name) {
            Some(schema) => native_call(st, name, schema, args, span),
            None => match assoc_get(st.reg.functions, name) {
                None => Out::Fail(rth("undefined function: "@ + name,
                    suggestion(name, keys_view(st.reg.native_functions) + keys_view(st.reg.functions)), Some(callee_span))),
                Some(def) => if args.len() != def.params@.len() {
                    Out::Fail(rth("expected "@ + dec_nat(def.params@.len()) + " arguments, got "@ + dec_nat(args.len()),
                        Some(signature_hint(name, def.params@)), Some(span)))
                } else {
                    call_user(st, def, args, (fuel - 1) as nat)
                },
            },
        }
    }
}

/// What a function body gives back: the explicit implicit-return value if any, else
/// the `return` value, else the nodes of its last item, else `null`.
pub open spec fn call_value(implicit: Option<SValue>, flow: SFlow, nodes: Seq<SNode>) -> SValue {
    match implicit {
        Some(v) => v,
        None => match flow {
            SFlow::Return(v) => v,
            SFlow::Normal => if nodes.len() > 0 { SValue::Node(nodes) } else { SValue::Null },
        },
    }
}

/// Running a user function on arguments of the right number.
pub open spec fn call_user(st: SState, def: FnDef, args: Seq<SValue>, fuel: nat) -> Out<(SState, SValue)>
    decreases fuel, 0int,
{
    if fuel == 0 {
        out_of_steps()
    } else {
        let scope = SScope { vars: bind_names(def.params@, args, false, def.params@.len() as int), kind: ScopeKind::Function };
        match run_body(push_scope(st, scope), def.body@, 0, Seq::empty(), None, (fuel - 1) as nat) {
            Out::Done((s1, nodes, implicit)) => Out::Done((
                dec_depth(pop_scope(SState { flow: SFlow::Normal, ..s1 })),
                call_value(implicit, s1.flow, nodes),
            )),
            o => pass(o),
        }
    }
}

/// One item of a function body: a node counts only as the last item; a statement runs,
/// and as the last item gives the nodes or the implicit return value.
pub open spec fn body_item(st: SState, item: BodyItem, last: bool, nodes: Seq<SNode>, implicit: Option<SValue>, fuel: nat)
    -> Out<(SState, Seq<SNode>, Option<SValue>)>
    decreases fuel, 0int,
{
    if fuel == 0 {
        out_of_steps()
    } else {
        let f = (fuel - 1) as nat;
        match item {
            BodyItem::Node(n) => if last {
                match resolve_node(st, n, f) {
                    Out::Done((s1, ns)) => Out::Done((s1, nodes + ns, implicit)),
                    o => pass(o),
                }
            } else {
                Out::Done((st, nodes, implicit))
            },
            BodyItem::Stmt(x) => match exec_stmt(st, x, f) {
                Out::Done((s1, v)) => if last {
                    match v {
                        SValue::Node(ns) => Out::Done((s1, nodes + ns, implicit)),
                        _ => Out::Done((s1, nodes, Some(v))),
                    }
                } else {
                    Out::Done((s1, nodes, implicit))
                },
                o => pass(o),
            },
        }
    }
}

/// Running items `i..` of a function body until one returns.
pub open spec fn run_body(st: SState, items: Seq<BodyItem>, i: int, nodes: Seq<SNode>, implicit: Option<SValue>, fuel: nat)
    -> Out<(SState, Seq<SNode>, Option<SValue>)>
    decreases fuel, items.len() - i,
{
    if fuel == 0 {
        out_of_steps()
    } else if i < 0 || i >= items.len() {
        Out::Done((st, nodes, implicit))
    } else {
        match body_item(st, items[i], i == items.len() - 1, nodes, implicit, (fuel - 1) as nat) {
            Out::Done((s1, n1, im1)) => if s1.flow is Return {
                Out::Done((s1, n1, im1))
            } else {
                run_body(s1, items, i + 1, n1, im1, fuel)
            },
            o => o,
        }
    }
}

/// An `if` expression.
pub open spec fn eval_if(st: SState, ife: IfExpr, fuel: nat) -> Out<(SState, SValue)>
    decreases fuel, 0int,
{
    if fuel == 0 {
        out_of_steps()
    } else {
        let f = (fuel - 1) as nat;
        match eval_expr(st, ife.condition, f) {
            Out::Done((s1, c)) => if is_truthy_spec(c) {
                run_branch(s1, ife.then_branch, f)
            } else {
                eval_else_ifs(s1, ife, 0, f)
            },
            o => o,
        }
    }
}

/// The `else if` arms from `k` on, then the `else` branch.
pub open spec fn eval_else_ifs(st: SState, ife: IfExpr, k: int, fuel: nat) -> Out<(SState, SValue)>
    decreases fuel, ife.else_ifs@.len() - k,
{
    if fuel == 0 {
        out_of_steps()
    } else if k < 0 || k >= ife.else_ifs@.len() {
        match ife.else_branch {
            Some(b) => run_branch(st, b, (fuel - 1) as nat),
            None => Out::Done((st, SValue::Null)),
        }
    } else {
        match eval_expr(st, ife.else_ifs@[k].0, (fuel - 1) as nat) {
            Out::Done((s1, c)) => if is_truthy_spec(c) {
                run_branch(s1, ife.else_ifs@[k].1, (fuel - 1) as nat)
            } else {
                eval_else_ifs(s1, ife, k + 1, fuel)
            },
            o => o,
        }
    }
}

/// A chosen branch, in a block scope: its items, then its result expression or the
/// nodes its items gave.
pub open spec fn run_branch(st: SState, b: Branch, fuel: nat) -> Out<(SState, SValue)>
    decreases fuel, 0int,
{
    if fuel == 0 {
        out_of_steps()
    } else {
        let f = (fuel - 1) as nat;
        match branch_items(push_scope(st, empty_scope(ScopeKind::Block)), b.body@, 0, Seq::empty(), f) {
            Out::Done((s1, nodes)) => match b.result {
                Some(e) => match eval_expr(s1, e, f) {
                    Out::Done((s2, v)) => Out::Done((pop_scope(s2), v)),
                    o => o,
                },
                None => Out::Done((pop_scope(s1), if nodes.len() > 0 { SValue::Node(nodes) } else { SValue::Null })),
            },
            o => pass(o),
        }
    }
}

/// Items `i..` of a branch; statements that give nodes and node items add to `nodes`.
pub open spec fn branch_items(st: SState, items: Seq<BodyItem>, i: int, nodes: Seq<SNode>, fuel: nat) -> Out<(SState, Seq<SNode>)>
    decreases fuel, items.len() - i,
{
    if fuel == 0 {
        out_of_steps()
    } else if i < 0 || i >= items.len() {
        Out::Done((st, nodes))
    } else {
        let f = (fuel - 1) as nat;
        match items[i] {
            BodyItem::Stmt(x) => match exec_stmt(st, x, f) {
                Out::Done((s1, v)) => branch_items(s1, items, i + 1, match v { SValue::Node(ns) => nodes + ns, _ => nodes }, fuel),
                o => pass(o),
            },
            BodyItem::Node(n) => match resolve_node(st, n, f) {
                Out::Done((s1, ns)) => branch_items(s1, items, i + 1, nodes + ns, fuel),
                o => pass(o),
            },
        }
    }
}

/// A `match` expression: the first arm that matches (or binds) runs in a block scope.
pub open spec fn eval_match(st: SState, subject: Expr, arms: Seq<MatchArm>, fuel: nat) -> Out<(SState, SValue)>
    decreases fuel, 0int,
{
    if fuel == 0 {
        out_of_steps()
    } else {
        let f = (fuel - 1) as nat;
        match eval_expr(st, subject, f) {
            Out::Done((s1, v)) => {
                let k = first_arm(arms, v, 0);
                let vars = if k < arms.len() && arms[k].is_var {
                    seq![(arms[k].pattern@, SBinding { value: v, is_const: false })]
                } else {
                    Seq::empty()
                };
                let s2 = push_scope(s1, SScope { vars, kind: ScopeKind::Block });
                if k < arms.len() {
                    match arms[k].body {
                        MatchBody::Expr(e) => match eval_expr(s2, e, f) {
                            Out::Done((s3, r)) => Out::Done((pop_scope(s3), r)),
                            o => o,
                        },
                        MatchBody::Block(stmts, fin) => match run_stmts(s2, stmts@, 0, f) {
                            Out::Done(s3) => match fin {
                                Some(e) => match eval_expr(s3, e, f) {
                                    Out::Done((s4, r)) => Out::Done((pop_scope(s4), r)),
                                    o => o,
                                },
                                None => Out::Done((pop_scope(s3), SValue::Null)),
                            },
                            o => pass(o),
                        },
                    }
                } else {
                    Out::Done((pop_scope(s2), SValue::Null))
                }
            },
            o => o,
        }
    }
}

/// Statements `i..`, in order, their values dropped.
pub open spec fn run_stmts(st: SState, stmts: Seq<Stmt>, i: int, fuel: nat) -> Out<SState>
    decreases fuel, stmts.len() - i,
{
    if fuel == 0 {
        out_of_steps()
    } else if i < 0 || i >= stmts.len() {
        Out::Done(st)
    } else {
        match exec_stmt(st, stmts[i], (fuel - 1) as nat) {
            Out::Done((s1, _)) => run_stmts(s1, stmts, i + 1, fuel),
            o => pass(o),
        }
    }
}

// ---------------------------------------------------------------- statements

/// Executing a statement; after a `return` every statement gives the returned value.
pub open spec fn exec_stmt(st: SState, stmt: Stmt, fuel: nat) -> Out<(SState, SValue)>
    decreases fuel, 0int,
{
    if fuel == 0 {
        out_of_steps()
    } else if st.flow is Return {
        Out::Done((st, st.flow->Return_0))
    } else {
        let f = (fuel - 1) as nat;
        match stmt {
            Stmt::Expr(e) => eval_expr(st, e, f),
            Stmt::Return(ret, span) => if at_root(st.scopes) {
                Out::Fail(rth("cannot return from the top level"@, Some(top_return_hint()), Some(span@)))
            } else {
                match return_value(st, ret, f) {
                    Out::Done((s1, v)) => Out::Done((SState { flow: SFlow::Return(v), ..s1 }, v)),
                    o => o,
                }
            },
            Stmt::Const(name, e) => match eval_expr(st, e, f) {
                Out::Done((s1, v)) => Out::Done((declare(s1, name@, v, true), SValue::Null)),
                o => o,
            },
            Stmt::Let(name, e) => match eval_expr(st, e, f) {
                Out::Done((s1, v)) => Out::Done((declare(s1, name@, v, false), SValue::Null)),
                o => o,
            },
            Stmt::Assign(lhs, op, rhs, span) => exec_assign(st, lhs, op, rhs, span@, f),
            Stmt::For(pats, it, body) => exec_for(st, pats@, it, body, f),
            Stmt::While(cond, body) => match while_loop(push_scope(st, empty_scope(ScopeKind::Block)), cond, body, f) {
                Out::Done(s1) => Out::Done((pop_scope(s1), SValue::Null)),
                o => pass(o),
            },
        }
    }
}

/// The hint of a `return` at the top level.
pub open spec fn top_return_hint() -> Seq<char> {
    "Move this logic into a function or component if you need early returns."@
}

/// The value a `return` gives back.
pub open spec fn return_value(st: SState, ret: Option<ReturnType>, fuel: nat) -> Out<(SState, SValue)>
    decreases fuel, 0int,
{
    if fuel == 0 {
        out_of_steps()
    } else {
        match ret {
            None => Out::Done((st, SValue::Null)),
            Some(ReturnType::Expr(e)) => eval_expr(st, e, (fuel - 1) as nat),
            Some(ReturnType::Node(n)) => match resolve_node(st, n, (fuel - 1) as nat) {
                Out::Done((s1, ns)) => Out::Done((s1, SValue::Node(ns))),
                o => pass(o),
            },
        }
    }
}

/// An assignment: to a variable of a scope, a map field, or a list element; a
/// changed container is written back to where it came from.
pub open spec fn exec_assign(st: SState, lhs: Expr, op: AssignOp, rhs: Expr, span: SSpan, fuel: nat) -> Out<(SState, SValue)>
    decreases fuel, 0int,
{
    if fuel == 0 {
        out_of_steps()
    } else {
        let f = (fuel - 1) as nat;
        match eval_expr(st, rhs, f) {
            Out::Done((s1, nv)) => match lhs.kind {
                ExprKind::Variable(name) => assign_var(s1, name@, op, nv, span),
                ExprKind::Field(base, field, _) => assign_field(s1, *base, field@, op, nv, span, f),
                ExprKind::Index(base, idx) => assign_index(s1, *base, *idx, op, nv, span, f),
                _ => Out::Fail(rt("invalid assignment target"@, Some(span))),
            },
            o => o,
        }
    }
}

/// Assigning to a variable of a scope (globals cannot be assigned).
pub open spec fn assign_var(st: SState, name: Seq<char>, op: AssignOp, nv: SValue, span: SSpan) -> Out<(SState, SValue)> {
    match scope_with(st.scopes, name) {
        None => Out::Fail(rth("variable '"@ + name + "' doesn't exist"@, suggestion(name, scope_names(st.scopes)), Some(span))),
        Some(i) => {
            let b = assoc_get(st.scopes[i].vars, name).unwrap();
            if b.is_const {
                Out::Fail(rth("cannot reassign to constant variable '"@ + name + "'"@,
                    Some("This variable was declared with 'const', or is an immutable loop/property binding."@), Some(span)))
            } else {
                match assign_result(b.value, op, nv, Some(span)) {
                    Out::Done(u) => Out::Done((set_var(st, i, name, u), SValue::Null)),
                    o => pass(o),
                }
            }
        },
    }
}

/// Assigning to a field of the map that `base` gives.
pub open spec fn assign_field(st: SState, base: Expr, field: Seq<char>, op: AssignOp, nv: SValue, span: SSpan, fuel: nat) -> Out<(SState, SValue)>
    decreases fuel, 0int,
{
    if fuel == 0 {
        out_of_steps()
    } else {
        let f = (fuel - 1) as nat;
        match eval_expr(st, base, f) {
            Out::Done((s2, tv)) => match tv {
                SValue::Dict(entries) => match first_key_index(entries, field) {
                    Some(p) => match assign_result(entries[p].1, op, nv, Some(span)) {
                        Out::Done(u) => with_null(reassign(s2, base, SValue::Dict(entries.update(p, (field, u))), f)),
                        o => pass(o),
                    },
                    None => if op == AssignOp::Equal {
                        with_null(reassign(s2, base, SValue::Dict(entries.push((field, nv))), f))
                    } else {
                        Out::Fail(rt("cannot update field '"@ + field + "' that doesn't exist"@, Some(span)))
                    },
                },
                _ => Out::Fail(rt("cannot set field on non-map"@, Some(span))),
            },
            o => o,
        }
    }
}

/// Assigning to an element of the list that `base` gives.
pub open spec fn assign_index(st: SState, base: Expr, idx: Expr, op: AssignOp, nv: SValue, span: SSpan, fuel: nat) -> Out<(SState, SValue)>
    decreases fuel, 0int,
{
    if fuel == 0 {
        out_of_steps()
    } else {
        let f = (fuel - 1) as nat;
        match eval_expr(st, base, f) {
            Out::Done((s2, tv)) => match eval_expr(s2, idx, f) {
                Out::Done((s3, iv)) => match (tv, iv) {
                    (SValue::List(items), SValue::Int(k)) => if 0 <= k < items.len() {
                        match assign_result(items[k as int], op, nv, Some(span)) {
                            Out::Done(u) => with_null(reassign(s3, base, SValue::List(items.update(k as int, u)), f)),
                            o => pass(o),
                        }
                    } else {
                        Out::Fail(rt("index "@ + dec_int(k as int) + " out of bounds"@, Some(span)))
                    },
                    _ => Out::Fail(rt("invalid index operation"@, Some(span))),
                },
                o => o,
            },
            o => o,
        }
    }
}

/// Writes `value` back to the place that `lhs` names.
pub open spec fn reassign(st: SState, lhs: Expr, value: SValue, fuel: nat) -> Out<SState>
    decreases fuel, 0int,
{
    if fuel == 0 {
        out_of_steps()
    } else {
        let f = (fuel - 1) as nat;
        match lhs.kind {
            ExprKind::Variable(name) => match scope_with(st.scopes, name@) {
                Some(i) => Out::Done(set_var(st, i, name@, value)),
                None => Out::Fail(rt("variable lost during assignment"@, None)),
            },
            ExprKind::Field(base, field, _) => match eval_expr(st, *base, f) {
                Out::Done((s1, p)) => match p {
                    SValue::Dict(es) => reassign(s1, *base, SValue::Dict(assoc_put(es, field@, value)), f),
                    _ => Out::Done(s1),
                },
                o => pass(o),
            },
            ExprKind::Index(base, idx) => match eval_expr(st, *base, f) {
                Out::Done((s1, p)) => match eval_expr(s1, *idx, f) {
                    Out::Done((s2, iv)) => match (p, iv) {
                        (SValue::List(items), SValue::Int(k)) => if 0 <= k < items.len() {
                            reassign(s2, *base, SValue::List(items.update(k as int, value)), f)
                        } else {
                            Out::Done(s2)
                        },
                        _ => Out::Done(s2),
                    },
                    o => pass(o),
                },
                o => pass(o),
            },
            _ => Out::Done(st),
        }
    }
}

/// A `for` loop over a range or a list, in a block scope of its own.
pub open spec fn exec_for(st: SState, pats: Seq<String>, it: Expr, body: Block, fuel: nat) -> Out<(SState, SValue)>
    decreases fuel, 0int,
{
    if fuel == 0 {
        out_of_steps()
    } else {
        let f = (fuel - 1) as nat;
        match eval_expr(st, it, f) {
            Out::Done((s1, iv)) => match iv {
                SValue::Range(a, b) => for_range(s1, pats, a as int, b as int, body, f),
                SValue::List(items) => for_list(s1, pats, items, body, f),
                _ => Out::Done((s1, SValue::Null)),
            },
            o => o,
        }
    }
}

/// A `for` loop over `a..b`: its patterns are bound as constants in a new scope.
pub open spec fn for_range(st: SState, pats: Seq<String>, a: int, b: int, body: Block, fuel: nat) -> Out<(SState, SValue)>
    decreases fuel, 0int,
{
    if fuel == 0 {
        out_of_steps()
    } else {
        let s2 = push_scope(st, SScope {
            vars: bind_names(pats, Seq::new(pats.len(), |i: int| SValue::Null), true, pats.len() as int),
            kind: ScopeKind::Block,
        });
        match range_loop(s2, pats, st.scopes.len() as int, b, a, body, (fuel - 1) as nat) {
            Out::Done(s3) => Out::Done((pop_scope(s3), SValue::Null)),
            o => pass(o),
        }
    }
}

/// A `for` loop over the items of a list, in a new scope.
pub open spec fn for_list(st: SState, pats: Seq<String>, items: Seq<SValue>, body: Block, fuel: nat) -> Out<(SState, SValue)>
    decreases fuel, 0int,
{
    if fuel == 0 {
        out_of_steps()
    } else {
        let s2 = push_scope(st, empty_scope(ScopeKind::Block));
        match list_loop(s2, pats, st.scopes.len() as int, items, 0, body, (fuel - 1) as nat) {
            Out::Done(s3) => Out::Done((pop_scope(s3), SValue::Null)),
            o => pass(o),
        }
    }
}

/// Iterations `i..end` of a range loop; `k` is the loop's scope.
pub open spec fn range_loop(st: SState, pats: Seq<String>, k: int, end: int, i: int, body: Block, fuel: nat) -> Out<SState>
    decreases fuel, end - i,
{
    if fuel == 0 {
        out_of_steps()
    } else if i >= end || st.flow is Return {
        Out::Done(st)
    } else {
        match exec_block(bind_range_patterns(st, pats, k, i), body, (fuel - 1) as nat) {
            Out::Done((s1, _)) => if s1.flow is Return { Out::Done(s1) } else { range_loop(s1, pats, k, end, i + 1, body, fuel) },
            o => pass(o),
        }
    }
}

/// Iterations `j..` of a list loop; `k` is the loop's scope.
pub open spec fn list_loop(st: SState, pats: Seq<String>, k: int, items: Seq<SValue>, j: int, body: Block, fuel: nat) -> Out<SState>
    decreases fuel, items.len() - j,
{
    if fuel == 0 {
        out_of_steps()
    } else if j < 0 || j >= items.len() || st.flow is Return {
        Out::Done(st)
    } else {
        match exec_block(bind_list_patterns(st, pats, k, j, items[j]), body, (fuel - 1) as nat) {
            Out::Done((s1, _)) => if s1.flow is Return { Out::Done(s1) } else { list_loop(s1, pats, k, items, j + 1, body, fuel) },
            o => pass(o),
        }
    }
}

/// Iterations of a `while` loop; each one costs a step.
pub open spec fn while_loop(st: SState, cond: Expr, body: Block, fuel: nat) -> Out<SState>
    decreases fuel, 0int,
{
    if fuel == 0 {
        out_of_steps()
    } else {
        let f = (fuel - 1) as nat;
        match eval_expr(st, cond, f) {
            Out::Done((s1, c)) => if !is_truthy_spec(c) || s1.flow is Return {
                Out::Done(s1)
            } else {
                match exec_block(s1, body, f) {
                    Out::Done((s2, _)) => if s2.flow is Return { Out::Done(s2) } else { while_loop(s2, cond, body, f) },
                    o => pass(o),
                }
            },
            o => pass(o),
        }
    }
}

/// A loop body: its statements until one returns, then its final expression.
pub open spec fn exec_block(st: SState, block: Block, fuel: nat) -> Out<(SState, SValue)>
    decreases fuel, 0int,
{
    if fuel == 0 {
        out_of_steps()
    } else {
        let f = (fuel - 1) as nat;
        match block_stmts(st, block.stmts@, 0, f) {
            Out::Done((s1, returned)) => if returned {
                Out::Done((s1, SValue::Null))
            } else {
                match block.terminator {
                    Some(e) => eval_expr(s1, e, f),
                    None => Out::Done((s1, SValue::Null)),
                }
            },
            o => pass(o),
        }
    }
}

/// Statements `i..` of a block; stops after one that returns (and says so).
pub open spec fn block_stmts(st: SState, stmts: Seq<Stmt>, i: int, fuel: nat) -> Out<(SState, bool)>
    decreases fuel, stmts.len() - i,
{
    if fuel == 0 {
        out_of_steps()
    } else if i < 0 || i >= stmts.len() {
        Out::Done((st, false))
    } else {
        match exec_stmt(st, stmts[i], (fuel - 1) as nat) {
            Out::Done((s1, _)) => if s1.flow is Return { Out::Done((s1, true)) } else { block_stmts(s1, stmts, i + 1, fuel) },
            o => pass(o),
        }
    }
}

// ---------------------------------------------------------------- nodes

/// The error for a native node whose number of children is outside the bounds of its
/// schema (`None` allows any number).
pub open spec fn child_count_error(bounds: Option<(u32, u32)>, count: nat, ty: Seq<char>, span: SSpan) -> Option<SErr> {
    match bounds {
        Some((lo, hi)) => if count < lo || count > hi {
            Some(rt("node '"@ + ty + "' requires between "@ + dec_nat(lo as nat) + " and "@ + dec_nat(hi as nat)
                + " children, but got "@ + dec_nat(count), Some(span)))
        } else {
            None
        },
        None => None,
    }
}

/// A resolved native node, once its number of children is checked.
pub open spec fn counted_node(s: SState, bounds: Option<(u32, u32)>, node: SNode, span: SSpan) -> Out<(SState, Seq<SNode>)> {
    match child_count_error(bounds, node.children.len(), node.node_type, span) {
        Some(e) => Out::Fail(e),
        None => Out::Done((s, seq![node])),
    }
}

/// Resolving a node invocation: a component expands; a native node checks its id and
/// properties; anything else is unknown.
pub open spec fn resolve_node(st: SState, inv: NodeInvocation, fuel: nat) -> Out<(SState, Seq<SNode>)>
    decreases fuel, 0int,
{
    if fuel == 0 {
        out_of_steps()
    } else {
        let f = (fuel - 1) as nat;
        let ty = inv.node_type@;
        match assoc_get(st.reg.components, ty) {
            Some(def) => expand_component(st, def, inv, f),
            None => match node_id(st, inv.id, f) {
                Out::Done((s1, id)) => match assoc_get(s1.reg.native_nodes, ty) {
                    Some(schema) => if schema.enforce_id && id is None {
                        Out::Fail(rth("node '"@ + ty + "' requires an #id"@,
                            Some("Try providing an id like this: 'Object \"id\" { ... }'."@), Some(inv.span@)))
                    } else {
                        match node_items(s1, inv.body@, 0, Seq::empty(), Seq::empty(), f) {
                            Out::Done((s2, props, children)) => match schema.validation {
                                SPropValidation::Strict(allowed) => match strict_error(allowed, props, ty, inv.span@, 0) {
                                    Some(e) => Out::Fail(e),
                                    None => counted_node(s2, schema.child_count, SNode { node_type: ty, id, props, children }, inv.span@),
                                },
                                SPropValidation::Loose => counted_node(s2, schema.child_count, SNode { node_type: ty, id, props, children }, inv.span@),
                            },
                            o => pass(o),
                        }
                    },
                    None => Out::Fail(rth("unknown node or component: "@ + ty,
                        suggestion(ty, keys_view(s1.reg.native_nodes) + keys_view(s1.reg.components)), Some(inv.span@))),
                },
                o => pass(o),
            },
        }
    }
}

/// The id of a native node: a string, or none for `null` or no id.
pub open spec fn node_id(st: SState, id: Option<Expr>, fuel: nat) -> Out<(SState, Option<Seq<char>>)>
    decreases fuel, 0int,
{
    if fuel == 0 {
        out_of_steps()
    } else {
        match id {
            None => Out::Done((st, None)),
            Some(e) => match eval_expr(st, e, (fuel - 1) as nat) {
                Out::Done((s1, v)) => match v {
                    SValue::Str(s) => Out::Done((s1, Some(s))),
                    SValue::Null => Out::Done((s1, None)),
                    _ => Out::Fail(rth("expected string for node ID, found "@ + kind_name_spec(v),
                        Some("If you're passing a variable, ensure it contains a string."@), Some(e.span@))),
                },
                o => pass(o),
            },
        }
    }
}

/// The id of a component invocation: a string or `null`.
pub open spec fn component_id(st: SState, id: Option<Expr>, fuel: nat) -> Out<(SState, SValue)>
    decreases fuel, 0int,
{
    if fuel == 0 {
        out_of_steps()
    } else {
        match id {
            None => Out::Done((st, SValue::Null)),
            Some(e) => match eval_expr(st, e, (fuel - 1) as nat) {
                Out::Done((s1, v)) => match v {
                    SValue::Str(_) => Out::Done((s1, v)),
                    SValue::Null => Out::Done((s1, v)),
                    _ => Out::Fail(rth("node ID must resolve to a string"@,
                        Some("Got a "@ + kind_name_spec(v) + " instead."@), Some(e.span@))),
                },
                o => o,
            },
        }
    }
}

/// Items `i..` of a node body: properties are set (a later one replaces an earlier one),
/// children resolved, statements run (nodes they give become children).
pub open spec fn node_items(st: SState, items: Seq<NodeItem>, i: int, props: Seq<(Seq<char>, SValue)>, children: Seq<SNode>, fuel: nat)
    -> Out<(SState, Seq<(Seq<char>, SValue)>, Seq<SNode>)>
    decreases fuel, items.len() - i,
{
    if fuel == 0 {
        out_of_steps()
    } else if i < 0 || i >= items.len() {
        Out::Done((st, props, children))
    } else {
        match node_item(st, items[i], props, children, (fuel - 1) as nat) {
            Out::Done((s1, p1, c1)) => node_items(s1, items, i + 1, p1, c1, fuel),
            o => o,
        }
    }
}

/// One item of a node body: a property is set (replacing an earlier one), a child
/// resolved, a statement run (nodes it gives become children).
pub open spec fn node_item(st: SState, item: NodeItem, props: Seq<(Seq<char>, SValue)>, children: Seq<SNode>, fuel: nat)
    -> Out<(SState, Seq<(Seq<char>, SValue)>, Seq<SNode>)>
    decreases fuel, 0int,
{
    if fuel == 0 {
        out_of_steps()
    } else {
        let f = (fuel - 1) as nat;
        match item {
            NodeItem::Prop(key, e, _) => match eval_expr(st, e, f) {
                Out::Done((s1, v)) => Out::Done((s1, assoc_put(props, key@, v), children)),
                o => pass(o),
            },
            NodeItem::Child(inv) => match resolve_node(st, inv, f) {
                Out::Done((s1, ns)) => Out::Done((s1, props, children + ns)),
                o => pass(o),
            },
            NodeItem::Stmt(x) => match exec_stmt(st, x, f) {
                Out::Done((s1, v)) => Out::Done((s1, props, match v { SValue::Node(ns) => children + ns, _ => children })),
                o => pass(o),
            },
        }
    }
}

/// Checks the `id_required` and `child_count` properties of a component's body, from
/// item `i` on (each property's expression is evaluated).
pub open spec fn check_constraints(st: SState, def: ComponentDef, items: Seq<NodeItem>, i: int, id: SValue, count: int, span: SSpan, fuel: nat)
    -> Out<SState>
    decreases fuel, items.len() - i,
{
    if fuel == 0 {
        out_of_steps()
    } else if i < 0 || i >= items.len() {
        Out::Done(st)
    } else {
        match items[i] {
            NodeItem::Prop(key, e, _) => match eval_expr(st, e, (fuel - 1) as nat) {
                Out::Done((s1, c)) => if key@ == "id_required"@ {
                    if c == SValue::Bool(true) && id == SValue::Null {
                        Out::Fail(rth("component '"@ + def.name@ + "' requires an id"@,
                            Some("Usage: "@ + def.name@ + " \"my_id\" { ... }"@), Some(span)))
                    } else {
                        check_constraints(s1, def, items, i + 1, id, count, span, fuel)
                    }
                } else if key@ == "child_count"@ {
                    match c {
                        SValue::Int(expected) => if count != expected {
                            Out::Fail(rt("component '"@ + def.name@ + "' requires exactly "@ + dec_int(expected as int) + " "@
                                + (if expected == 1 { "child"@ } else { "children"@ }) + ", but got "@ + dec_int(count), Some(span)))
                        } else {
                            check_constraints(s1, def, items, i + 1, id, count, span, fuel)
                        },
                        SValue::List(r) => if r.len() == 2 {
                            match (r[0], r[1]) {
                                (SValue::Int(lo), SValue::Int(hi)) => if count < lo || count > hi {
                                    Out::Fail(rt("component '"@ + def.name@ + "' requires between "@ + dec_int(lo as int) + " and "@
                                        + dec_int(hi as int) + " children, but got "@ + dec_int(count), Some(span)))
                                } else {
                                    check_constraints(s1, def, items, i + 1, id, count, span, fuel)
                                },
                                _ => check_constraints(s1, def, items, i + 1, id, count, span, fuel),
                            }
                        } else {
                            Out::Fail(rt("property 'child_count' must be an integer or a list of 2 integers"@, Some(e.span@)))
                        },
                        _ => Out::Fail(rt("property 'child_count' must be an integer or a list of 2 integers"@, Some(e.span@))),
                    }
                } else {
                    check_constraints(s1, def, items, i + 1, id, count, span, fuel)
                },
                o => pass(o),
            },
            _ => check_constraints(st, def, items, i + 1, id, count, span, fuel),
        }
    }
}

/// Expanding a component invocation: the caller's items are resolved, the component's
/// constraints checked, its interface bound, and its body resolved in a component scope.
pub open spec fn expand_component(st: SState, def: ComponentDef, inv: NodeInvocation, fuel: nat) -> Out<(SState, Seq<SNode>)>
    decreases fuel, 0int,
{
    if fuel == 0 {
        out_of_steps()
    } else {
        let f = (fuel - 1) as nat;
        let span = inv.span@;
        match component_id(st, inv.id, f) {
            Out::Done((s1, id)) => match node_items(s1, inv.body@, 0, Seq::empty(), Seq::empty(), f) {
                Out::Done((s2, props, children)) => match check_constraints(s2, def, def.body@, 0, id, children.len() as int, span, f) {
                    Out::Done(s3) => match component_vars(def, id, props, children, span) {
                        Ok(vars) => match node_items(push_scope(s3, SScope { vars, kind: ScopeKind::Component }), def.body@, 0,
                            Seq::empty(), Seq::empty(), f) {
                            Out::Done((s4, _, nodes)) => Out::Done((pop_scope(s4), nodes)),
                            o => pass(o),
                        },
                        Err(e) => Out::Fail(e),
                    },
                    o => pass(o),
                },
                o => pass(o),
            },
            o => pass(o),
        }
    }
}

// ---------------------------------------------------------------- files and imports

/// The state an evaluation starts in: one top-level scope, no output, depth zero.
pub open spec fn initial_state(reg: SRegistry, max_depth: usize) -> SState {
    SState {
        reg,
        scopes: seq![empty_scope(ScopeKind::TopLevel)],
        flow: SFlow::Normal,
        depth: 0,
        max_depth,
        output: Seq::empty(),
        anon: 0,
        loaded: Seq::empty(),
    }
}

/// The state with registry `reg`.
pub open spec fn with_reg(st: SState, reg: SRegistry) -> SState {
    SState { reg, ..st }
}

/// Registers a component under its name.
pub open spec fn add_component(st: SState, def: ComponentDef) -> SState {
    with_reg(st, SRegistry { components: assoc_put(st.reg.components, def.name@, def), ..st.reg })
}

/// Registers a function under its name.
pub open spec fn add_function(st: SState, def: FnDef) -> SState {
    with_reg(st, SRegistry { functions: assoc_put(st.reg.functions, def.name@, def), ..st.reg })
}

/// Sets a global variable.
pub open spec fn add_global(st: SState, name: Seq<char>, v: SValue) -> SState {
    with_reg(st, SRegistry { globals: assoc_put(st.reg.globals, name, v), ..st.reg })
}

/// Registers the native functions of a library item under fresh names, from `k` on;
/// gives the state and the `name = lambda` entries for the item's map.
pub open spec fn register_item_fns(st: SState, fns: Seq<(Seq<char>, SNativeFn)>, k: int, acc: Seq<(Seq<char>, SValue)>)
    -> (SState, Seq<(Seq<char>, SValue)>)
    decreases fns.len() - k,
{
    if k < 0 || k >= fns.len() {
        (st, acc)
    } else {
        let n = fresh_name(st.anon);
        let schema = SNativeFn { name: n, ..fns[k].1 };
        let s1 = SState {
            reg: SRegistry { native_functions: assoc_put(st.reg.native_functions, n, schema), ..st.reg },
            anon: next_anon(st.anon),
            ..st
        };
        register_item_fns(s1, fns, k + 1, acc.push((fns[k].0, SValue::Lambda(n))))
    }
}

/// Importing an item of a library: its globals and functions become the entries of a
/// map bound to the item's name (nothing is bound when both are empty).
/// The hint for a library or item that is not found: `<what>"<name>" doesn't exist.
/// Did you mean "<closest>"?`, when a name is close enough.
pub open spec fn lookup_hint(what: Seq<char>, name: Seq<char>, names: Seq<Seq<char>>) -> Option<Seq<char>> {
    match best_match(name, names) {
        Some(x) => Some(what + name + "\" doesn't exist. Did you mean \""@ + x + "\"?"@),
        None => None,
    }
}

pub open spec fn import_library(st: SState, lib: Seq<char>, item: Seq<char>, span: SSpan) -> Out<SState> {
    match first_named(library_names(st.reg.libraries), lib) {
        None => Out::Fail(rth("library not found"@, lookup_hint("Library \""@, lib, library_names(st.reg.libraries)), Some(span))),
        Some(li) => {
            let l = st.reg.libraries[li];
            match first_named(item_names(l.items), item) {
                None => Out::Fail(rth("library item '"@ + item + "' not found"@,
                    lookup_hint("Library item \""@, item, item_names(l.items)), Some(span))),
                Some(ii) => {
                    let it = l.items[ii];
                    let (s1, fns) = register_item_fns(st, it.native_functions, 0, Seq::empty());
                    let entries = it.globals + fns;
                    if entries.len() > 0 { Out::Done(add_global(s1, item, SValue::Dict(entries))) } else { Out::Done(s1) }
                },
            }
        },
    }
}

/// An import: a library item is imported as stated; a module is read from disk by the
/// host, so nothing is stated of it here.
pub open spec fn handle_import(st: SState, imp: ImportDef) -> Out<SState> {
    match imp.def {
        ImportDefType::Library(lib, item) => import_library(st, lib@, item@, imp.span@),
        ImportDefType::Module(_, _, _) => Out::Host,
    }
}

/// The first pass over a file's items: imports, components and functions.
#[verifier::opaque]
pub open spec fn declare_items(st: SState, items: Seq<TopLevelItem>, i: int) -> Out<SState>
    decreases items.len() - i,
{
    if i < 0 || i >= items.len() {
        Out::Done(st)
    } else {
        match items[i] {
            TopLevelItem::Import(imp) => match handle_import(st, imp) {
                Out::Done(s1) => declare_items(s1, items, i + 1),
                o => o,
            },
            TopLevelItem::ComponentDef(c) => declare_items(add_component(st, *c), items, i + 1),
            TopLevelItem::FnDef(d) => declare_items(add_function(st, *d), items, i + 1),
            _ => declare_items(st, items, i + 1),
        }
    }
}

/// The second pass over a file's items: nodes are resolved and statements run, each
/// with the full step budget; nodes that statements give are kept too.
#[verifier::opaque]
pub open spec fn eval_items(st: SState, items: Seq<TopLevelItem>, i: int, roots: Seq<SNode>, fuel: nat) -> Out<(SState, Seq<SNode>)>
    decreases items.len() - i,
{
    if i < 0 || i >= items.len() {
        Out::Done((st, roots))
    } else {
        match items[i] {
            TopLevelItem::Node(inv) => match resolve_node(st, inv, fuel) {
                Out::Done((s1, ns)) => eval_items(s1, items, i + 1, roots + ns, fuel),
                o => o,
            },
            TopLevelItem::Stmt(x) => match exec_stmt(st, x, fuel) {
                Out::Done((s1, v)) => eval_items(s1, items, i + 1, match v { SValue::Node(ns) => roots + ns, _ => roots }, fuel),
                o => pass(o),
            },
            _ => eval_items(st, items, i + 1, roots, fuel),
        }
    }
}

/// Evaluating a file: declarations first (so that later ones can be used earlier),
/// then nodes and statements; gives the root nodes.
pub open spec fn run_file(st: SState, items: Seq<TopLevelItem>, fuel: nat) -> Out<(SState, Seq<SNode>)> {
    match declare_items(st, items, 0) {
        Out::Done(s1) => eval_items(s1, items, 0, Seq::empty(), fuel),
        o => pass(o),
    }
}

/// Whether a component selection keeps the component `name`.
pub open spec fn selects(sel: Option<ComponentSelection>, name: Seq<char>) -> bool {
    match sel {
        Some(ComponentSelection::Wildcard) => true,
        Some(ComponentSelection::List(l)) => exists|j: int| 0 <= j < l@.len() && #[trigger] l@[j]@ == name,
        None => false,
    }
}

/// The first pass over a module's items: nested imports, functions (registered under
/// fresh names), components (registered; the selected ones are kept), and top-level
/// `const`/`let` values; gives the module's map entries, its components and the kept ones.
pub open spec fn module_declare(st: SState, items: Seq<TopLevelItem>, i: int, sel: Option<ComponentSelection>,
    map: Seq<(Seq<char>, SValue)>, locals: Seq<Seq<char>>, kept: Seq<Seq<char>>, fuel: nat)
    -> Out<(SState, Seq<(Seq<char>, SValue)>, Seq<Seq<char>>, Seq<Seq<char>>)>
    decreases items.len() - i,
{
    if i < 0 || i >= items.len() {
        Out::Done((st, map, locals, kept))
    } else {
        match items[i] {
            TopLevelItem::Import(imp) => match handle_import(st, imp) {
                Out::Done(s1) => module_declare(s1, items, i + 1, sel, map, locals, kept, fuel),
                o => pass(o),
            },
            TopLevelItem::FnDef(d) => {
                let n = fresh_name(st.anon);
                let s1 = SState {
                    reg: SRegistry { functions: assoc_put(st.reg.functions, n, *d), ..st.reg },
                    anon: next_anon(st.anon),
                    ..st
                };
                module_declare(s1, items, i + 1, sel, map.push((d.name@, SValue::Lambda(n))), locals, kept, fuel)
            },
            TopLevelItem::ComponentDef(c) => module_declare(add_component(st, *c), items, i + 1, sel, map,
                locals.push(c.name@), if selects(sel, c.name@) { kept.push(c.name@) } else { kept }, fuel),
            TopLevelItem::Stmt(Stmt::Const(name, e)) => match eval_expr(st, e, fuel) {
                Out::Done((s1, v)) => module_declare(s1, items, i + 1, sel, map.push((name@, v)), locals, kept, fuel),
                o => pass(o),
            },
            TopLevelItem::Stmt(Stmt::Let(name, e)) => match eval_expr(st, e, fuel) {
                Out::Done((s1, v)) => module_declare(s1, items, i + 1, sel, map.push((name@, v)), locals, kept, fuel),
                o => pass(o),
            },
            _ => module_declare(st, items, i + 1, sel, map, locals, kept, fuel),
        }
    }
}

/// Whether the module defines a component named `name`.
pub open spec fn defines_component(items: Seq<TopLevelItem>, name: Seq<char>) -> bool {
    exists|j: int| 0 <= j < items.len() && (#[trigger] items[j] matches TopLevelItem::ComponentDef(c) && c.name@ == name)
}

/// The first requested component that the module does not define, from `k` on.
pub open spec fn missing_component(req: Seq<String>, items: Seq<TopLevelItem>, k: int) -> Option<Seq<char>>
    decreases req.len() - k,
{
    if k < 0 || k >= req.len() {
        None
    } else if !defines_component(items, req[k]@) {
        Some(req[k]@)
    } else {
        missing_component(req, items, k + 1)
    }
}

/// Removes the module's components that were not kept, from `k` on.
pub open spec fn drop_components(st: SState, locals: Seq<Seq<char>>, kept: Seq<Seq<char>>, k: int) -> SState
    decreases locals.len() - k,
{
    if k < 0 || k >= locals.len() {
        st
    } else if kept.contains(locals[k]) {
        drop_components(st, locals, kept, k + 1)
    } else {
        let comps = st.reg.components;
        let s1 = match first_key_index(comps, locals[k]) {
            Some(p) => with_reg(st, SRegistry { components: comps.remove(p), ..st.reg }),
            None => st,
        };
        drop_components(s1, locals, kept, k + 1)
    }
}

/// Importing a module that the host found at `target` with the given items: unless it
/// was imported before, its declarations are taken in, its values bound under `alias`,
/// its nodes resolved (and given back), and components that were not selected dropped.
pub open spec fn module_import(st: SState, path: Seq<char>, alias: Seq<char>, sel: Option<ComponentSelection>,
    target: Seq<char>, items: Seq<TopLevelItem>, fuel: nat) -> Out<(SState, Seq<SNode>)>
{
    let s0 = with_reg(st, SRegistry { current_file: Some(target), ..st.reg });
    if s0.loaded.contains(target) {
        Out::Done((s0, Seq::empty()))
    } else {
        match module_declare(s0, items, 0, sel, Seq::empty(), Seq::empty(), Seq::empty(), fuel) {
            Out::Done((s1, map, locals, kept)) => module_finish(s1, path, alias, sel, target, items, map, locals, kept, fuel),
            o => pass(o),
        }
    }
}

/// The rest of a module import, after its first pass.
pub open spec fn module_finish(s1: SState, path: Seq<char>, alias: Seq<char>, sel: Option<ComponentSelection>,
    target: Seq<char>, items: Seq<TopLevelItem>, map: Seq<(Seq<char>, SValue)>, locals: Seq<Seq<char>>,
    kept: Seq<Seq<char>>, fuel: nat) -> Out<(SState, Seq<SNode>)>
{
    let s2 = if map.len() > 0 { add_global(s1, alias, SValue::Dict(map)) } else { s1 };
    let missing = match sel {
        Some(ComponentSelection::List(l)) => missing_component(l@, items, 0),
        _ => None,
    };
    match missing {
        Some(req) => Out::Fail(SErr {
            kind: ErrorKind::Ast,
            message: "component '"@ + req + "' not found in '"@ + path + "'"@,
            hint: Some("Check your spelling inside the import block."@),
            span: None,
        }),
        None => match eval_items(s2, items, 0, Seq::empty(), fuel) {
            Out::Done((s3, roots)) => {
                let s4 = drop_components(s3, locals, kept, 0);
                Out::Done((
                    SState {
                        reg: SRegistry { current_file: None, ..s4.reg },
                        loaded: s4.loaded.push(target),
                        ..s4
                    },
                    roots,
                ))
            },
            o => o,
        },
    }
}

} // verus!
