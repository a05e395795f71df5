//! The built-in native functions and the checks every native call goes through.
use vstd::prelude::*;
use crate::equality::list_contains;
use crate::error::{NbclError, Span, join_text};
use crate::format::{debug_type, debug_type_string, display_value};
use crate::host::{Host, HostCall, value_reply};
use crate::ops::runtime_error;
use crate::registry::{Builtin, NativeFnSchema, NativeHandler, SNativeFn};
use crate::semantics::{
    arg_type_hint, builtin_result, dec_depth, digits_value, first_mismatch, has_substring, is_digit, is_signed, native_call, number_body, number_value, reads_as_i64,
    usage_hint, utf8_len, utf8_width, val_res,
};
use crate::state::{Evaluator, SState, err_core, rt};
use crate::text::{chars_of, concat2, i64_to_string, push_str, to_owned_string, usize_to_string};
use crate::utils::ordinal;
use crate::value::{SType, SValue, Type, Value, clone_value, clone_values, lemma_view_entries, lemma_view_values, lemma_view_values_push, view_values};

use crate::host::grows;
use crate::state::{frame_kept, frame_left, same_frame};

verus! {

/// The number of UTF-8 bytes of a character.
fn char_width(c: char) -> (r: u64)
    ensures
        r == utf8_width(c),
{
    let x = c as u32;
    if x < 0x80 { 1 } else if x < 0x800 { 2 } else if x < 0x10000 { 3 } else { 4 }
}

proof fn lemma_utf8_len_prefix(s: Seq<char>, k: int)
    requires
        0 <= k <= s.len(),
    ensures
        utf8_len(s.take(k)) <= utf8_len(s),
    decreases s.len(),
{
    if k < s.len() {
        assert(s.drop_last().take(k) =~= s.take(k));
        lemma_utf8_len_prefix(s.drop_last(), k);
    } else {
        assert(s.take(k) =~= s);
    }
}

/// The byte length of a string, when it fits in an `i64`.
fn byte_len(s: &str) -> (r: Option<i64>)
    ensures
        match r {
            Some(n) => n as int == utf8_len(s@),
            None => utf8_len(s@) > i64::MAX,
        },
{
    let cs = chars_of(s);
    let mut total: u64 = 0;
    let mut k: usize = 0;
    while k < cs.len()
        invariant
            cs@ == s@,
            k <= cs@.len(),
            total == utf8_len(cs@.take(k as int)),
            total <= i64::MAX,
        decreases cs@.len() - k,
    {
        let w = char_width(cs[k]);
        proof {
            assert(cs@.take(k + 1).drop_last() =~= cs@.take(k as int));
        }
        total = total + w;
        k = k + 1;
        if total > 0x7fff_ffff_ffff_ffffu64 {
            proof { lemma_utf8_len_prefix(cs@, k as int); }
            return None;
        }
    }
    assert(cs@.take(k as int) =~= cs@);
    Some(total as i64)
}

/// Whether `sub` occurs in `s`.
fn contains_text(s: &str, sub: &str) -> (r: bool)
    ensures
        r == has_substring(s@, sub@),
{
    let cs = chars_of(s);
    let ss = chars_of(sub);
    let n = cs.len();
    let m = ss.len();
    if m > n {
        return false;
    }
    if m == 0 {
        assert(s@.subrange(0int, 0int + sub@.len()) =~= sub@);
        return true;
    }
    let mut i: usize = 0;
    while i <= n - m
        invariant
            cs@ == s@,
            ss@ == sub@,
            n == s@.len(),
            m == sub@.len(),
            1 <= m <= n,
            i <= n - m + 1,
            forall|j: int| 0 <= j < i ==> #[trigger] s@.subrange(j, j + m) != sub@,
        decreases n - m + 1 - i,
    {
        let mut k: usize = 0;
        let mut same = true;
        while k < m
            invariant
                cs@ == s@,
                ss@ == sub@,
                n == s@.len(),
                m == sub@.len(),
                i + m <= n,
                k <= m,
                same ==> forall|t: int| 0 <= t < k ==> s@[i + t] == sub@[t],
                !same ==> s@.subrange(i as int, i + m) != sub@,
            decreases m - k,
        {
            if same && cs[i + k] != ss[k] {
                same = false;
                assert(s@.subrange(i as int, i + m)[k as int] == s@[i + k]);
            }
            k = k + 1;
        }
        if same {
            assert(s@.subrange(i as int, i + m) =~= sub@);
            return true;
        }
        i = i + 1;
    }
    false
}

/// Whether a string reads as an `i64` (an optional sign, then decimal digits).
fn parses_as_i64(s: &str) -> (r: bool)
    ensures
        r == reads_as_i64(s@),
{
    parse_i64(s).is_some()
}

/// The `i64` that a string reads as (an optional sign, then decimal digits), if any.
pub(crate) fn parse_i64(s: &str) -> (r: Option<i64>)
    ensures
        match r {
            Some(v) => reads_as_i64(s@) && v == number_value(s@),
            None => !reads_as_i64(s@),
        },
{
    let cs = chars_of(s);
    let n = cs.len();
    let mut k: usize = 0;
    let mut negative = false;
    if n > 0 && (cs[0] == '+' || cs[0] == '-') {
        negative = cs[0] == '-';
        k = 1;
    }
    let start = k;
    let ghost body = number_body(s@);
    assert(body =~= s@.subrange(start as int, n as int));
    if k >= n {
        return None;
    }
    let mut acc: u64 = 0;
    while k < n
        invariant
            cs@ == s@,
            n == cs@.len(),
            start <= k <= n,
            start <= 1,
            body == s@.subrange(start as int, n as int),
            body == number_body(s@),
            start == 1 <==> is_signed(s@),
            negative == (start == 1 && s@[0] == '-'),
            forall|j: int| 0 <= j < k - start ==> is_digit(#[trigger] body[j]),
            acc == digits_value(body.take(k - start)),
            acc <= 10_000_000_000_000_000_009u64,
        decreases n - k,
    {
        let c = cs[k];
        assert(body[k - start] == c);
        if !('0' <= c && c <= '9') {
            assert(!is_digit(body[k - start]));
            return None;
        }
        let d = (c as u32 - 48) as u64;
        assert(body.take(k - start + 1).drop_last() =~= body.take(k - start));
        if acc > 1_000_000_000_000_000_000u64 {
            proof {
                assert(body.take(k - start + 1).last() == c);
                assert(digits_value(body.take(k - start + 1)) == acc * 10 + d);
                lemma_digits_prefix(body, k - start + 1);
                if forall|j: int| 0 <= j < body.len() ==> is_digit(#[trigger] body[j]) {
                    assert(digits_value(body) > 0x8000_0000_0000_0000);
                }
                assert(!reads_as_i64(s@));
            }
            return None;
        }
        acc = acc * 10 + d;
        k = k + 1;
    }
    assert(body.take(n - start) =~= body);
    if negative {
        if acc < 0x8000_0000_0000_0000u64 {
            Some(-(acc as i64))
        } else if acc == 0x8000_0000_0000_0000u64 {
            Some(i64::MIN)
        } else {
            None
        }
    } else if acc <= 0x7fff_ffff_ffff_ffffu64 {
        Some(acc as i64)
    } else {
        None
    }
}

/// A number written with more digits is at least the number its prefix writes, when
/// every digit is a decimal digit (or else the text does not read as a number).
proof fn lemma_digits_prefix(s: Seq<char>, m: int)
    requires
        0 <= m <= s.len(),
    ensures
        (forall|j: int| 0 <= j < s.len() ==> is_digit(#[trigger] s[j])) ==> digits_value(s) >= digits_value(s.take(m)),
        (forall|j: int| 0 <= j < s.len() ==> is_digit(#[trigger] s[j])) ==> digits_value(s) >= 0,
    decreases s.len(),
{
    if s.len() > 0 {
        lemma_digits_prefix(s.drop_last(), if m == s.len() { m - 1 } else { m });
        if (forall|j: int| 0 <= j < s.len() ==> is_digit(#[trigger] s[j])) {
            assert forall|j: int| 0 <= j < s.drop_last().len() implies is_digit(#[trigger] s.drop_last()[j]) by {
                assert(s.drop_last()[j] == s[j]);
            }
            assert(is_digit(s[s.len() - 1]));
            if m < s.len() {
                assert(s.drop_last().take(m) =~= s.take(m));
            } else {
                assert(s.take(m) =~= s);
            }
        }
    } else {
        assert(s.take(m) =~= s);
    }
}

/// The hint text "Usage: name(T1, T2)" for a native function.
fn usage_hint_text(name: &str, params: &Vec<Type>) -> (r: String)
    ensures
        r@ == usage_hint(name@, params.deep_view()),
{
    let ghost ts = params.deep_view();
    let mut hint = to_owned_string("Usage: ");
    push_str(&mut hint, name);
    push_str(&mut hint, "(");
    let mut k: usize = 0;
    while k < params.len()
        invariant
            k <= params@.len(),
            ts == params.deep_view(),
            ts.len() == params@.len(),
            hint@ == "Usage: "@ + name@ + "("@ + join_text(ts.take(k as int).map_values(|t: SType| debug_type(t)), ", "@),
        decreases params@.len() - k,
    {
        let ghost before = ts.take(k as int).map_values(|t: SType| debug_type(t));
        let item = debug_type_string(&params[k]);
        proof {
            assert(ts[k as int] == params@[k as int]@);
            assert(ts.take(k + 1).map_values(|t: SType| debug_type(t)) =~= before.push(item@));
            lemma_join_push(before, ", "@, item@);
        }
        if k > 0 {
            push_str(&mut hint, ", ");
        }
        push_str(&mut hint, item.as_str());
        k = k + 1;
    }
    push_str(&mut hint, ")");
    proof {
        reveal_strlit("Usage: ");
        reveal_strlit("(");
        reveal_strlit(")");
        reveal_strlit(", ");
        assert(ts.take(params@.len() as int) =~= ts);
    }
    hint
}

/// Joining one more piece adds the separator and the piece (only the piece after none).
pub proof fn lemma_join_push(parts: Seq<Seq<char>>, sep: Seq<char>, x: Seq<char>)
    ensures
        join_text(parts.push(x), sep) == if parts.len() == 0 { x } else { join_text(parts, sep) + sep + x },
{
    assert(parts.push(x).drop_last() =~= parts);
}

/// An error for a value of the wrong type given to a built-in.
fn unsupported(what: &str, v: &Value) -> (r: NbclError)
    ensures
        err_core(r@) == rt(crate::semantics::unsupported_message(what@, v@), None),
{
    let mut msg = to_owned_string(what);
    push_str(&mut msg, " not supported for type ");
    push_str(&mut msg, v.kind_name());
    runtime_error(msg, &None)
}

/// What a host-run native function `sch` does to the host log on the argument values
/// `vals`: when their number and types are right the host is asked exactly once, with
/// them, and its reply is the result; otherwise the host is not asked and the result is
/// an error.
pub open spec fn host_native_step(sch: SNativeFn, vals: Seq<SValue>, c0: Seq<HostCall>, c1: Seq<HostCall>,
    r: Result<Value, NbclError>) -> bool
{
    match sch.handler {
        NativeHandler::Host(h) => if vals.len() == sch.params.len() && first_mismatch(sch.params, vals, 0) is None {
            c1 == c0.push(HostCall::Native(h, vals, value_reply(r)))
        } else {
            c1 == c0 && r is Err
        },
        NativeHandler::Builtin(_) => true,
    }
}

impl Evaluator {
    /// Runs a built-in on arguments already checked against its parameter types.
    pub fn builtin_call<H: Host>(&mut self, b: Builtin, args: Vec<Value>, host: &mut H) -> (r: Result<Value, NbclError>)
        ensures
            !(b == Builtin::Print && r is Ok) ==> final(self).host_calls@ == old(self).host_calls@,
            b == Builtin::Print && r is Ok ==> final(self).deep_view().output.len() > 0
                && final(self).host_calls@ == old(self).host_calls@.push(HostCall::Print(final(self).deep_view().output.last()))
                && final(self).deep_view().output.drop_last() == old(self).deep_view().output,
            final(self).import_features == old(self).import_features,
            same_frame(old(self).deep_view(), final(self).deep_view()),
            val_res(builtin_result(old(self).deep_view(), b, view_values(args@)), final(self).deep_view(), r),
    {
        reveal(builtin_result);
        proof { lemma_view_values(args@); }
        let needed: usize = match b {
            Builtin::Contains => 2,
            Builtin::Push => 2,
            _ => 1,
        };
        if args.len() < needed {
            return Err(runtime_error(to_owned_string("missing argument for a built-in function"), &None));
        }
        assert(view_values(args@)[0] == args@[0]@);
        let v = &args[0];
        match b {
            Builtin::Print => {
                let text = display_value(v, host);
                self.tell_print(host, text.as_str());
                let ghost d0 = self.output.deep_view();
                let ghost tv = text@;
                self.output.push(text);
                assert(self.output.deep_view() =~= d0.push(tv));
                Ok(Value::Null)
            },
            Builtin::ToString => Ok(Value::Str(display_value(v, host))),
            Builtin::AsInt => match v {
                Value::Int(i) => Ok(Value::Int(*i)),
                _ => Err(unsupported("as_int()", v)),
            },
            Builtin::AsFloat => match v {
                Value::Float(f) => Ok(Value::Float(*f)),
                _ => Err(unsupported("as_float()", v)),
            },
            Builtin::TypeOf => Ok(Value::Str(to_owned_string(v.kind_name()))),
            Builtin::Len => match v {
                Value::Str(t) => match byte_len(t.as_str()) {
                    Some(n) => {
                        assert(n == utf8_len(t@) as i64);
                        Ok(Value::Int(n))
                    },
                    None => Err(runtime_error(to_owned_string("integer overflow"), &None)),
                },
                Value::List(l) => {
                    proof { lemma_view_values(l@); }
                    Ok(Value::Int(l.len() as i64))
                },
                Value::Dict(m) => {
                    proof { lemma_view_entries(m@); }
                    Ok(Value::Int(m.len() as i64))
                },
                _ => Err(unsupported("len()", v)),
            },
            Builtin::Contains => {
                assert(view_values(args@)[1] == args@[1]@);
                match v {
                    Value::List(l) => Ok(Value::Bool(list_contains(l, &args[1], host))),
                    Value::Str(t) => match &args[1] {
                        Value::Str(sub) => Ok(Value::Bool(contains_text(t.as_str(), sub.as_str()))),
                        _ => Ok(Value::Bool(false)),
                    },
                    _ => Err(unsupported("contains()", v)),
                }
            },
            Builtin::Push => {
                assert(view_values(args@)[1] == args@[1]@);
                match v {
                    Value::List(l) => {
                        let mut out = clone_values(l);
                        let x = clone_value(&args[1]);
                        proof { lemma_view_values_push(out@, x); }
                        out.push(x);
                        Ok(Value::List(out))
                    },
                    _ => Ok(clone_value(v)),
                }
            },
            Builtin::Pop => match v {
                Value::List(l) => {
                    proof { lemma_view_values(l@); }
                    if l.len() > 0 {
                        Ok(clone_value(&l[l.len() - 1]))
                    } else {
                        Ok(Value::Null)
                    }
                },
                _ => Ok(clone_value(v)),
            },
            Builtin::Keys => match v {
                Value::Dict(m) => {
                    proof { lemma_view_entries(m@); }
                    let mut out: Vec<Value> = Vec::new();
                    let mut k: usize = 0;
                    while k < m.len()
                        invariant
                            grows(old(self).host_calls@, self.host_calls@),
                            self.import_features == old(self).import_features,
                            k <= m@.len(),
                            out@.len() == k,
                            crate::value::view_entries(m@).len() == m@.len(),
                            forall|i: int| 0 <= i < m@.len() ==> #[trigger] crate::value::view_entries(m@)[i]
                                == (m@[i].0@, crate::value::view_value(m@[i].1)),
                            forall|i: int| 0 <= i < k ==> #[trigger] out@[i]@ == SValue::Str(m@[i].0@),
                        decreases m@.len() - k,
                    {
                        out.push(Value::Str(m[k].0.clone()));
                        k = k + 1;
                    }
                    proof {
                        lemma_view_values(out@);
                        let f = |e: (Seq<char>, SValue)| SValue::Str(e.0);
                        let want = crate::value::view_entries(m@).map_values(f);
                        assert forall|i: int| 0 <= i < out@.len() implies view_values(out@)[i] == want[i] by {
                            assert(view_values(out@)[i] == out@[i]@);
                            assert(want[i] == f(crate::value::view_entries(m@)[i]));
                        }
                        assert(view_values(out@) =~= want);
                    }
                    Ok(Value::List(out))
                },
                _ => Ok(clone_value(v)),
            },
            Builtin::Values => match v {
                Value::Dict(m) => {
                    proof { lemma_view_entries(m@); }
                    let mut out: Vec<Value> = Vec::new();
                    let mut k: usize = 0;
                    while k < m.len()
                        invariant
                            grows(old(self).host_calls@, self.host_calls@),
                            self.import_features == old(self).import_features,
                            k <= m@.len(),
                            out@.len() == k,
                            crate::value::view_entries(m@).len() == m@.len(),
                            forall|i: int| 0 <= i < m@.len() ==> #[trigger] crate::value::view_entries(m@)[i]
                                == (m@[i].0@, crate::value::view_value(m@[i].1)),
                            forall|i: int| 0 <= i < k ==> #[trigger] out@[i]@ == m@[i].1@,
                        decreases m@.len() - k,
                    {
                        out.push(clone_value(&m[k].1));
                        k = k + 1;
                    }
                    proof {
                        lemma_view_values(out@);
                        let f = |e: (Seq<char>, SValue)| e.1;
                        let want = crate::value::view_entries(m@).map_values(f);
                        assert forall|i: int| 0 <= i < out@.len() implies view_values(out@)[i] == want[i] by {
                            assert(view_values(out@)[i] == out@[i]@);
                            assert(want[i] == f(crate::value::view_entries(m@)[i]));
                        }
                        assert(view_values(out@) =~= want);
                    }
                    Ok(Value::List(out))
                },
                _ => Ok(clone_value(v)),
            },
            Builtin::Abs => match v {
                Value::Int(i) => {
                    if *i == i64::MIN {
                        Err(runtime_error(to_owned_string("integer overflow"), &None))
                    } else if *i < 0 {
                        Ok(Value::Int(-*i))
                    } else {
                        Ok(Value::Int(*i))
                    }
                },
                _ => Ok(clone_value(v)),
            },
        }
    }

    /// Calls the native function `name` (found in the registry as `schema`): checks the
    /// argument count and types, then runs the built-in or asks the host.
    pub fn native_call<H: Host>(&mut self, name: &str, schema: &NativeFnSchema, args: Vec<Value>, span: &Span, host: &mut H)
        -> (r: Result<Value, NbclError>)
        ensures
            grows(old(self).host_calls@, final(self).host_calls@),
            final(self).import_features == old(self).import_features,
            frame_left(old(self).deep_view(), final(self).deep_view(), r),
            val_res(native_call(old(self).deep_view(), name@, schema.deep_view(), view_values(args@), span@),
                final(self).deep_view(), r),
            schema.handler is Host
                && native_call(old(self).deep_view(), name@, schema.deep_view(), view_values(args@), span@) is Host
                ==> final(self).host_calls@ == old(self).host_calls@.push(HostCall::Native(schema.handler->Host_0, view_values(args@), value_reply(r)))
                    && final(self).deep_view() == dec_depth(old(self).deep_view()),
            !(schema.handler is Host) && !(schema.handler == NativeHandler::Builtin(Builtin::Print) && r is Ok)
                ==> final(self).host_calls@ == old(self).host_calls@,
            native_call(old(self).deep_view(), name@, schema.deep_view(), view_values(args@), span@) is Fail
                ==> final(self).host_calls@ == old(self).host_calls@,
            host_native_step(schema.deep_view(), view_values(args@), old(self).host_calls@, final(self).host_calls@, r),
    {
        reveal(native_call);
        proof { lemma_view_values(args@); }
        let ghost params = schema.deep_view().params;
        let ghost vals = view_values(args@);
        assert(params.len() == schema.params@.len());
        if args.len() != schema.params.len() {
            let mut msg = to_owned_string("native function '");
            push_str(&mut msg, name);
            push_str(&mut msg, "' expected ");
            push_str(&mut msg, usize_to_string(schema.params.len()).as_str());
            push_str(&mut msg, " args, got ");
            push_str(&mut msg, usize_to_string(args.len()).as_str());
            let hint = usage_hint_text(name, &schema.params);
            return Err(NbclError::Runtime { message: msg, hint: Some(hint), span: Some(span.copy()) });
        }
        let mut i: usize = 0;
        while i < args.len()
            invariant
                grows(old(self).host_calls@, self.host_calls@),
                self.import_features == old(self).import_features,
                same_frame(old(self).deep_view(), self.deep_view()),
                i <= args@.len(),
                args@.len() == schema.params@.len(),
                params == schema.deep_view().params,
                vals == view_values(args@),
                params.len() == vals.len(),
                forall|j: int| 0 <= j < args@.len() ==> #[trigger] vals[j] == args@[j]@,
                forall|j: int| 0 <= j < params.len() ==> #[trigger] params[j] == schema.params@[j]@,
                first_mismatch(params, vals, 0) == first_mismatch(params, vals, i as int),
            decreases args@.len() - i,
        {
            if !schema.params[i].matches_value(&args[i]) {
                reveal(native_call);
                let mut msg = to_owned_string("native function '");
                push_str(&mut msg, name);
                push_str(&mut msg, "' arg ");
                push_str(&mut msg, usize_to_string(i).as_str());
                push_str(&mut msg, " expected ");
                push_str(&mut msg, debug_type_string(&schema.params[i]).as_str());
                push_str(&mut msg, ", got ");
                push_str(&mut msg, args[i].kind_name());
                let number_text = match &args[i] {
                    Value::Str(s) => parses_as_i64(s.as_str()),
                    _ => false,
                };
                let hint = if number_text {
                    to_owned_string("This value is a string, but the function needs a number. Try removing the quotes.")
                } else {
                    let mut h = to_owned_string("Check the ");
                    push_str(&mut h, ordinal(i + 1).as_str());
                    push_str(&mut h, " argument. It must be a ");
                    push_str(&mut h, debug_type_string(&schema.params[i]).as_str());
                    push_str(&mut h, ".");
                    proof {
                        reveal_strlit("Check the ");
                        reveal_strlit(" argument. It must be a ");
                        reveal_strlit(".");
                    }
                    h
                };
                proof {
                    assert(hint@ =~= arg_type_hint(params[i as int], vals[i as int], i as nat));
                }
                return Err(NbclError::Runtime { message: msg, hint: Some(hint), span: Some(span.copy()) });
            }
            i = i + 1;
        }
        if self.call_stack_depth > 0 {
            self.call_stack_depth = self.call_stack_depth - 1;
        }
        match schema.handler {
            NativeHandler::Builtin(b) => self.builtin_call(b, args, host),
            NativeHandler::Host(h) => self.ask_native(host, h, args),
        }
    }
}

} // verus!
