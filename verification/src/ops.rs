//! Operators, assignment operators and string helpers of the language, as pure functions.
use vstd::prelude::*;
use crate::ast::{AssignOp, BinaryOp, binary_op_text};
use crate::error::{ErrorKind, NbclError, SSpan, Span, copy_opt_span, opt_span_view, opt_string_view};
use crate::format::{debug_text, debug_value, has_float};
use crate::host::{FloatOp, Host};
use crate::state::{Out, SErr, err_core, rt, rth};
use crate::text::{chars_of, concat2, concat3, push_char, push_str, string_from_chars, to_owned_string};
use crate::value::{SValue, Value};

verus! {

/// Division rounding toward zero.
pub open spec fn trunc_div(a: int, b: int) -> int {
    let q = (if a >= 0 { a } else { -a }) / (if b >= 0 { b } else { -b });
    if (a >= 0) == (b > 0) { q } else { -q }
}

/// Remainder of division rounding toward zero (takes the sign of `a`).
pub open spec fn trunc_rem(a: int, b: int) -> int {
    let r = (if a >= 0 { a } else { -a }) % (if b >= 0 { b } else { -b });
    if a >= 0 { r } else { -r }
}

pub open spec fn fits_i64(x: int) -> bool {
    i64::MIN <= x <= i64::MAX
}

/// The bit that holds the sign of a double.
pub open spec fn sign_bit() -> u64 {
    0x8000_0000_0000_0000u64
}

/// A runtime error carrying `message` and `span`.
pub fn runtime_error(message: String, span: &Option<Span>) -> (r: NbclError)
    ensures
        err_core(r@) == rt(message@, opt_span_view(*span)),
{
    NbclError::Runtime { message, hint: None, span: copy_opt_span(span) }
}

/// A runtime error at `span`.
pub fn err_at(message: String, span: &Span) -> (r: NbclError)
    ensures
        err_core(r@) == rt(message@, Some(span@)),
{
    NbclError::Runtime { message, hint: None, span: Some(span.copy()) }
}

/// A runtime error at `span` with an optional hint.
pub fn err_hint_at(message: String, hint: Option<String>, span: &Span) -> (r: NbclError)
    ensures
        err_core(r@) == rth(message@, opt_string_view(hint), Some(span@)),
{
    NbclError::Runtime { message, hint, span: Some(span.copy()) }
}

/// The error for an exhausted step budget.
pub fn step_error() -> (r: NbclError)
    ensures
        err_core(r@) == rt(crate::semantics::step_limit_message(), None),
{
    runtime_error(to_owned_string("evaluation step limit reached"), &None)
}

/// A runtime error with a hint.
pub fn runtime_error_hint(message: String, hint: String, span: &Option<Span>) -> (r: NbclError)
    ensures
        err_core(r@) == rth(message@, Some(hint@), opt_span_view(*span)),
{
    NbclError::Runtime { message, hint: Some(hint), span: copy_opt_span(span) }
}

/// The hint of a division by zero.
pub open spec fn div_zero_hint() -> Seq<char> {
    "Try replacing the zero with another number, silly!"@
}

pub open spec fn overflow_message() -> Seq<char> {
    "integer overflow"@
}

/// Whether `a` sorts strictly before `b`, comparing characters by code point.
pub open spec fn text_lt(a: Seq<char>, b: Seq<char>) -> bool
    decreases a.len(),
{
    if a.len() == 0 {
        b.len() > 0
    } else if b.len() == 0 {
        false
    } else if a[0] < b[0] {
        true
    } else if a[0] > b[0] {
        false
    } else {
        text_lt(a.drop_first(), b.drop_first())
    }
}

/// Compares two strings by code point: -1, 0 or 1.
pub fn compare_text(a: &str, b: &str) -> (r: i8)
    ensures
        r == -1 <==> text_lt(a@, b@),
        r == 0 <==> a@ == b@,
        r == 1 <==> text_lt(b@, a@),
        r == -1 || r == 0 || r == 1,
{
    let av = chars_of(a);
    let bv = chars_of(b);
    let mut i: usize = 0;
    proof {
        assert(a@.skip(0) =~= a@);
        assert(b@.skip(0) =~= b@);
    }
    while i < av.len() && i < bv.len()
        invariant
            av@ == a@,
            bv@ == b@,
            i <= av@.len(),
            i <= bv@.len(),
            av@.take(i as int) == bv@.take(i as int),
            text_lt(a@, b@) == text_lt(a@.skip(i as int), b@.skip(i as int)),
            text_lt(b@, a@) == text_lt(b@.skip(i as int), a@.skip(i as int)),
        decreases av@.len() - i,
    {
        let c = av[i];
        let d = bv[i];
        proof {
            assert(a@.skip(i as int)[0] == a@[i as int]);
            assert(b@.skip(i as int)[0] == b@[i as int]);
            assert(a@.skip(i as int).drop_first() =~= a@.skip(i + 1));
            assert(b@.skip(i as int).drop_first() =~= b@.skip(i + 1));
        }
        if c != d {
            proof {
                if a@ == b@ { assert(a@[i as int] == b@[i as int]); }
            }
            if c < d {
                return -1;
            } else {
                return 1;
            }
        }
        proof {
            assert(av@.take(i + 1) =~= av@.take(i as int).push(av@[i as int]));
            assert(bv@.take(i + 1) =~= bv@.take(i as int).push(bv@[i as int]));
        }
        i = i + 1;
    }
    proof {
        assert(a@.skip(i as int).len() == a@.len() - i);
        assert(b@.skip(i as int).len() == b@.len() - i);
    }
    if av.len() == bv.len() {
        assert(av@ =~= av@.take(i as int));
        assert(bv@ =~= bv@.take(i as int));
        0
    } else if av.len() < bv.len() {
        proof {
            if a@ == b@ { assert(false); }
        }
        -1
    } else {
        proof {
            if a@ == b@ { assert(false); }
        }
        1
    }
}

/// The result of a binary operator on two evaluated operands (`||` and `&&` never
/// reach it: they short-circuit). Integer overflow is an error.
pub open spec fn binary_result(l: SValue, op: BinaryOp, r: SValue, span: Option<SSpan>) -> Out<SValue> {
    match (l, r) {
        (SValue::Int(a), SValue::Int(b)) => match op {
            BinaryOp::Add => if fits_i64(a + b) { Out::Done(SValue::Int((a + b) as i64)) } else { Out::Fail(rt(overflow_message(), span)) },
            BinaryOp::Sub => if fits_i64(a - b) { Out::Done(SValue::Int((a - b) as i64)) } else { Out::Fail(rt(overflow_message(), span)) },
            BinaryOp::Mul => if fits_i64(a * b) { Out::Done(SValue::Int((a * b) as i64)) } else { Out::Fail(rt(overflow_message(), span)) },
            BinaryOp::Div => if b == 0 { Out::Fail(rth("division by zero"@, Some(div_zero_hint()), span)) }
                else if fits_i64(trunc_div(a as int, b as int)) { Out::Done(SValue::Int(trunc_div(a as int, b as int) as i64)) }
                else { Out::Fail(rt(overflow_message(), span)) },
            BinaryOp::Rem => if b == 0 { Out::Fail(rth("modulo by zero"@, Some("Try replacing the zero with another number."@), span)) }
                else if fits_i64(trunc_div(a as int, b as int)) { Out::Done(SValue::Int(trunc_rem(a as int, b as int) as i64)) }
                else { Out::Fail(rt(overflow_message(), span)) },
            BinaryOp::Eq => Out::Done(SValue::Bool(a == b)),
            BinaryOp::Ne => Out::Done(SValue::Bool(a != b)),
            BinaryOp::Lt => Out::Done(SValue::Bool(a < b)),
            BinaryOp::Le => Out::Done(SValue::Bool(a <= b)),
            BinaryOp::Gt => Out::Done(SValue::Bool(a > b)),
            BinaryOp::Ge => Out::Done(SValue::Bool(a >= b)),
            _ => unsupported_op(l, op, r, span),
        },
        (SValue::Str(a), SValue::Str(b)) => match op {
            BinaryOp::Add => Out::Done(SValue::Str(a + b)),
            BinaryOp::Eq => Out::Done(SValue::Bool(a == b)),
            BinaryOp::Ne => Out::Done(SValue::Bool(a != b)),
            BinaryOp::Lt => Out::Done(SValue::Bool(text_lt(a, b))),
            BinaryOp::Gt => Out::Done(SValue::Bool(text_lt(b, a))),
            BinaryOp::Le => Out::Done(SValue::Bool(!text_lt(b, a))),
            BinaryOp::Ge => Out::Done(SValue::Bool(!text_lt(a, b))),
            _ => unsupported_op(l, op, r, span),
        },
        _ => unsupported_op(l, op, r, span),
    }
}

/// The hint of an operator that the operands' types do not support.
pub open spec fn unsupported_hint() -> Seq<char> {
    "Try converting both sides to the same type using to_string() or to_int()."@
}

/// What holds of the error for an operator that the operands' types do not support,
/// whatever text the host gives for a float operand: a runtime error with that hint, at
/// that span, whose message names the operator.
pub open spec fn unsupported_shape(e: SErr, op: BinaryOp, span: Option<SSpan>) -> bool {
    &&& e.kind == ErrorKind::Runtime
    &&& e.hint == Some(unsupported_hint())
    &&& e.span == span
    &&& e.message.take(11 + binary_op_text(op).len() as int) == "operation '"@ + binary_op_text(op)
}

/// The error for an operator that the operands' types do not support.
pub open spec fn unsupported_op(l: SValue, op: BinaryOp, r: SValue, span: Option<SSpan>) -> Out<SValue> {
    if has_float(l) || has_float(r) {
        Out::Host
    } else {
        Out::Fail(rth("operation '"@ + binary_op_text(op) + "' not supported between "@ + debug_text(l) + " and "@ + debug_text(r),
            Some("Try converting both sides to the same type using to_string() or to_int()."@), span))
    }
}

/// Whether an exec result agrees with an outcome.
pub open spec fn value_out(o: Out<SValue>, r: Result<Value, NbclError>) -> bool {
    match o {
        Out::Done(v) => r matches Ok(x) && x@ == v,
        Out::Fail(e) => r matches Err(x) && err_core(x@) == e,
        Out::Host => true,
    }
}

fn unsupported_op_exec<H: Host>(l: &Value, op: &BinaryOp, r: &Value, span: &Option<Span>, host: &mut H) -> (res: Result<Value, NbclError>)
    ensures
        value_out(unsupported_op(l@, *op, r@, opt_span_view(*span)), res),
        res matches Err(e) && unsupported_shape(err_core(e@), *op, opt_span_view(*span)),
{
    let dl = debug_value(l, host);
    let dr = debug_value(r, host);
    let mut msg = to_owned_string("operation '");
    push_str(&mut msg, op.text());
    push_str(&mut msg, "' not supported between ");
    push_str(&mut msg, dl.as_str());
    push_str(&mut msg, " and ");
    push_str(&mut msg, dr.as_str());
    proof {
        reveal_strlit("operation '");
        reveal_strlit("' not supported between ");
        reveal_strlit(" and ");
    }
    proof {
        reveal_strlit("Try converting both sides to the same type using to_string() or to_int().");
        assert(msg@.take(11 + binary_op_text(*op).len() as int) =~= "operation '"@ + binary_op_text(*op));
    }
    Err(runtime_error_hint(msg, to_owned_string("Try converting both sides to the same type using to_string() or to_int()."), span))
}

proof fn lemma_mul_bound(a: i64, b: i64)
    ensures
        -0x4000_0000_0000_0000_0000_0000_0000_0000int <= (a as int) * (b as int) <= 0x4000_0000_0000_0000_0000_0000_0000_0000int,
{
    let x = a as int;
    let y = b as int;
    let ax = if x >= 0 { x } else { -x };
    let ay = if y >= 0 { y } else { -y };
    assert(ax * ay <= 0x8000_0000_0000_0000int * 0x8000_0000_0000_0000int) by (nonlinear_arith)
        requires 0 <= ax <= 0x8000_0000_0000_0000int, 0 <= ay <= 0x8000_0000_0000_0000int;
    assert(x * y <= ax * ay && -(ax * ay) <= x * y) by (nonlinear_arith)
        requires ax == (if x >= 0 { x } else { -x }), ay == (if y >= 0 { y } else { -y });
}

/// Integer division rounding toward zero, when it fits (`b != 0`).
fn div_i64(a: i64, b: i64) -> (r: Option<(i64, i64)>)
    requires
        b != 0,
    ensures
        r is Some <==> fits_i64(trunc_div(a as int, b as int)),
        r matches Some((q, m)) ==> q as int == trunc_div(a as int, b as int) && m as int == trunc_rem(a as int, b as int),
{
    let ua: u64 = if a >= 0 { a as u64 } else { (0i128 - (a as i128)) as u64 };
    let ub: u64 = if b >= 0 { b as u64 } else { (0i128 - (b as i128)) as u64 };
    let q: u64 = ua / ub;
    let m: u64 = ua % ub;
    assert(q <= ua) by (nonlinear_arith) requires ub >= 1, q == ua / ub;
    assert(m < ub) by (nonlinear_arith) requires ub >= 1, m == ua % ub;
    if (a >= 0) == (b > 0) {
        if q > 0x7fff_ffff_ffff_ffffu64 {
            return None;
        }
        let rm: i64 = if a >= 0 { m as i64 } else { (0i128 - (m as i128)) as i64 };
        Some((q as i64, rm))
    } else {
        let qq: i64 = (0i128 - (q as i128)) as i64;
        let rm: i64 = if a >= 0 { m as i64 } else { (0i128 - (m as i128)) as i64 };
        Some((qq, rm))
    }
}

/// Applies a binary operator to two evaluated operands.
pub fn apply_binary_op<H: Host>(left: &Value, op: &BinaryOp, right: &Value, span: &Option<Span>, host: &mut H) -> (r: Result<Value, NbclError>)
    ensures
        value_out(binary_result(left@, *op, right@, opt_span_view(*span)), r),
        binary_result(left@, *op, right@, opt_span_view(*span)) is Host ==> (r matches Err(e)
            && unsupported_shape(err_core(e@), *op, opt_span_view(*span))),
{
    proof {
        reveal_strlit("integer overflow");
        reveal_strlit("division by zero");
        reveal_strlit("modulo by zero");
    }
    match (left, right) {
        (Value::Int(a), Value::Int(b)) => {
            let a = *a;
            let b = *b;
            match op {
                BinaryOp::Add => {
                    let x = a as i128 + b as i128;
                    if x < i64::MIN as i128 || x > i64::MAX as i128 { Err(runtime_error(to_owned_string("integer overflow"), span)) } else { Ok(Value::Int(x as i64)) }
                },
                BinaryOp::Sub => {
                    let x = a as i128 - b as i128;
                    if x < i64::MIN as i128 || x > i64::MAX as i128 { Err(runtime_error(to_owned_string("integer overflow"), span)) } else { Ok(Value::Int(x as i64)) }
                },
                BinaryOp::Mul => {
                    proof { lemma_mul_bound(a, b); }
                    let x = a as i128 * b as i128;
                    if x < i64::MIN as i128 || x > i64::MAX as i128 { Err(runtime_error(to_owned_string("integer overflow"), span)) } else { Ok(Value::Int(x as i64)) }
                },
                BinaryOp::Div => {
                    if b == 0 {
                        return Err(runtime_error_hint(to_owned_string("division by zero"),
                            to_owned_string("Try replacing the zero with another number, silly!"), span));
                    }
                    match div_i64(a, b) {
                        Some((q, _)) => Ok(Value::Int(q)),
                        None => Err(runtime_error(to_owned_string("integer overflow"), span)),
                    }
                },
                BinaryOp::Rem => {
                    if b == 0 {
                        return Err(runtime_error_hint(to_owned_string("modulo by zero"),
                            to_owned_string("Try replacing the zero with another number."), span));
                    }
                    match div_i64(a, b) {
                        Some((_, m)) => Ok(Value::Int(m)),
                        None => Err(runtime_error(to_owned_string("integer overflow"), span)),
                    }
                },
                BinaryOp::Eq => Ok(Value::Bool(a == b)),
                BinaryOp::Ne => Ok(Value::Bool(a != b)),
                BinaryOp::Lt => Ok(Value::Bool(a < b)),
                BinaryOp::Le => Ok(Value::Bool(a <= b)),
                BinaryOp::Gt => Ok(Value::Bool(a > b)),
                BinaryOp::Ge => Ok(Value::Bool(a >= b)),
                _ => unsupported_op_exec(left, op, right, span, host),
            }
        },
        (Value::Str(a), Value::Str(b)) => {
            match op {
                BinaryOp::Add => Ok(Value::Str(concat2(a.as_str(), b.as_str()))),
                BinaryOp::Eq => Ok(Value::Bool(compare_text(a.as_str(), b.as_str()) == 0)),
                BinaryOp::Ne => Ok(Value::Bool(compare_text(a.as_str(), b.as_str()) != 0)),
                BinaryOp::Lt => Ok(Value::Bool(compare_text(a.as_str(), b.as_str()) == -1)),
                BinaryOp::Gt => Ok(Value::Bool(compare_text(a.as_str(), b.as_str()) == 1)),
                BinaryOp::Le => Ok(Value::Bool(compare_text(a.as_str(), b.as_str()) != 1)),
                BinaryOp::Ge => Ok(Value::Bool(compare_text(a.as_str(), b.as_str()) != -1)),
                _ => unsupported_op_exec(left, op, right, span, host),
            }
        },
        _ => unsupported_op_exec(left, op, right, span, host),
    }
}

/// The result of unary minus.
pub open spec fn negation_result(v: SValue, span: Option<SSpan>) -> Out<SValue> {
    match v {
        SValue::Int(i) => if i == i64::MIN { Out::Fail(rt(overflow_message(), span)) } else { Out::Done(SValue::Int((-i) as i64)) },
        SValue::Float(f) => Out::Done(SValue::Float(f ^ sign_bit())),
        _ => Out::Fail(rt("unary '-' can only be applied to numbers"@, span)),
    }
}

/// Unary minus: negates integers and floats (a float's sign bit is flipped).
pub fn apply_negation(val: Value, span: &Option<Span>) -> (r: Result<Value, NbclError>)
    ensures
        value_out(negation_result(val@, opt_span_view(*span)), r),
{
    proof { reveal_strlit("integer overflow"); reveal_strlit("unary '-' can only be applied to numbers"); }
    match val {
        Value::Int(i) => if i == i64::MIN { Err(runtime_error(to_owned_string("integer overflow"), span)) } else { Ok(Value::Int(-i)) },
        Value::Float(f) => Ok(Value::Float(f ^ 0x8000_0000_0000_0000u64)),
        _ => Err(runtime_error(to_owned_string("unary '-' can only be applied to numbers"), span)),
    }
}

/// The result of an assignment operator: the new value from the current one and the
/// right-hand side. Float arithmetic is left to the host.
#[verifier::opaque]
pub open spec fn assign_result(cur: SValue, op: AssignOp, rhs: SValue, span: Option<SSpan>) -> Out<SValue> {
    match op {
        AssignOp::Equal => Out::Done(rhs),
        AssignOp::PlusEqual => match (cur, rhs) {
            (SValue::Int(a), SValue::Int(b)) => if fits_i64(a + b) { Out::Done(SValue::Int((a + b) as i64)) } else { Out::Fail(rt(overflow_message(), span)) },
            (SValue::Float(_), SValue::Float(_)) => Out::Host,
            (SValue::Str(a), SValue::Str(b)) => Out::Done(SValue::Str(a + b)),
            _ => Out::Fail(rth("type mismatch in '+=' operation"@, Some("Both sides must be the same numeric or string type."@), span)),
        },
        AssignOp::MinEqual => match (cur, rhs) {
            (SValue::Int(a), SValue::Int(b)) => if fits_i64(a - b) { Out::Done(SValue::Int((a - b) as i64)) } else { Out::Fail(rt(overflow_message(), span)) },
            (SValue::Float(_), SValue::Float(_)) => Out::Host,
            _ => Out::Fail(rth("type mismatch in '-=' operation"@, Some("Subtraction is only supported for numeric types."@), span)),
        },
        AssignOp::MultEqual => match (cur, rhs) {
            (SValue::Int(a), SValue::Int(b)) => if fits_i64(a * b) { Out::Done(SValue::Int((a * b) as i64)) } else { Out::Fail(rt(overflow_message(), span)) },
            (SValue::Float(_), SValue::Float(_)) => Out::Host,
            _ => Out::Fail(rth("type mismatch in '*=' operation"@, Some("Multiplication is only supported for numeric types."@), span)),
        },
        AssignOp::DivEqual => match (cur, rhs) {
            (SValue::Int(a), SValue::Int(b)) => if b == 0 { Out::Fail(rth("division by zero"@, Some(div_zero_hint()), span)) }
                else if fits_i64(trunc_div(a as int, b as int)) { Out::Done(SValue::Int(trunc_div(a as int, b as int) as i64)) }
                else { Out::Fail(rt(overflow_message(), span)) },
            (SValue::Float(_), SValue::Float(_)) => Out::Host,
            _ => Out::Fail(rth("type mismatch in '/=' operation"@, Some("Division is only supported for numeric types."@), span)),
        },
    }
}

/// Applies an assignment operator.
pub fn apply_assign_op<H: Host>(current: Value, op: &AssignOp, rhs: Value, span: &Option<Span>, host: &mut H) -> (r: Result<Value, NbclError>)
    ensures
        value_out(assign_result(current@, *op, rhs@, opt_span_view(*span)), r),
{
    reveal(assign_result);
    proof {
        reveal_strlit("integer overflow");
        reveal_strlit("division by zero");
        reveal_strlit("type mismatch in '+=' operation");
        reveal_strlit("type mismatch in '-=' operation");
        reveal_strlit("type mismatch in '*=' operation");
        reveal_strlit("type mismatch in '/=' operation");
    }
    match op {
        AssignOp::Equal => Ok(rhs),
        AssignOp::PlusEqual => match (current, rhs) {
            (Value::Int(a), Value::Int(b)) => {
                let x = a as i128 + b as i128;
                if x < i64::MIN as i128 || x > i64::MAX as i128 { Err(runtime_error(to_owned_string("integer overflow"), span)) } else { Ok(Value::Int(x as i64)) }
            },
            (Value::Float(a), Value::Float(b)) => Ok(Value::Float(host.float_arith(FloatOp::Add, a, b))),
            (Value::Str(a), Value::Str(b)) => Ok(Value::Str(concat2(a.as_str(), b.as_str()))),
            _ => Err(runtime_error_hint(to_owned_string("type mismatch in '+=' operation"),
                to_owned_string("Both sides must be the same numeric or string type."), span)),
        },
        AssignOp::MinEqual => match (current, rhs) {
            (Value::Int(a), Value::Int(b)) => {
                let x = a as i128 - b as i128;
                if x < i64::MIN as i128 || x > i64::MAX as i128 { Err(runtime_error(to_owned_string("integer overflow"), span)) } else { Ok(Value::Int(x as i64)) }
            },
            (Value::Float(a), Value::Float(b)) => Ok(Value::Float(host.float_arith(FloatOp::Sub, a, b))),
            _ => Err(runtime_error_hint(to_owned_string("type mismatch in '-=' operation"),
                to_owned_string("Subtraction is only supported for numeric types."), span)),
        },
        AssignOp::MultEqual => match (current, rhs) {
            (Value::Int(a), Value::Int(b)) => {
                proof { lemma_mul_bound(a, b); }
                let x = a as i128 * b as i128;
                if x < i64::MIN as i128 || x > i64::MAX as i128 { Err(runtime_error(to_owned_string("integer overflow"), span)) } else { Ok(Value::Int(x as i64)) }
            },
            (Value::Float(a), Value::Float(b)) => Ok(Value::Float(host.float_arith(FloatOp::Mul, a, b))),
            _ => Err(runtime_error_hint(to_owned_string("type mismatch in '*=' operation"),
                to_owned_string("Multiplication is only supported for numeric types."), span)),
        },
        AssignOp::DivEqual => match (current, rhs) {
            (Value::Int(a), Value::Int(b)) => {
                if b == 0 {
                    return Err(runtime_error_hint(to_owned_string("division by zero"),
                        to_owned_string("Try replacing the zero with another number, silly!"), span));
                }
                match div_i64(a, b) {
                    Some((q, _)) => Ok(Value::Int(q)),
                    None => Err(runtime_error(to_owned_string("integer overflow"), span)),
                }
            },
            (Value::Float(a), Value::Float(b)) => Ok(Value::Float(host.float_arith(FloatOp::Div, a, b))),
            _ => Err(runtime_error_hint(to_owned_string("type mismatch in '/=' operation"),
                to_owned_string("Division is only supported for numeric types."), span)),
        },
    }
}

} // verus!
