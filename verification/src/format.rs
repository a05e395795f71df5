//! Text renderings of values: `Display` (used by `to_string`, `print` and string
//! interpolation) and `Debug` (used in error messages).
use vstd::prelude::*;
use crate::host::Host;
use crate::text::{dec_int, i64_to_string, push_char, push_str, to_owned_string};
use crate::value::{SValue, SNode, SType, Type, Value, view_values, view_entries, lemma_view_values, lemma_view_entries};

verus! {

/// Whether rendering `v` with `Display` meets a float (in the value or inside its
/// lists and maps).
pub open spec fn display_float(v: SValue) -> bool
    decreases v,
{
    match v {
        SValue::Float(_) => true,
        SValue::List(items) => display_float_list(items),
        SValue::Dict(m) => display_float_entries(m),
        _ => false,
    }
}

pub open spec fn display_float_list(s: Seq<SValue>) -> bool
    decreases s,
{
    s.len() > 0 && (display_float_list(s.drop_last()) || display_float(s.last()))
}

pub open spec fn display_float_entries(s: Seq<(Seq<char>, SValue)>) -> bool
    decreases s,
{
    s.len() > 0 && (display_float_entries(s.drop_last()) || display_float(s.last().1))
}

/// The `Display` text of a value without floats.
pub open spec fn display_text(v: SValue) -> Seq<char>
    decreases v,
{
    match v {
        SValue::Int(i) => dec_int(i as int),
        SValue::Float(_) => Seq::empty(),
        SValue::Bool(b) => if b { "true"@ } else { "false"@ },
        SValue::Str(s) => seq!['"'] + s + seq!['"'],
        SValue::Null => "null"@,
        SValue::List(items) => seq!['['] + display_list(items) + seq![']'],
        SValue::Range(a, b) => dec_int(a as int) + ".."@ + dec_int(b as int),
        SValue::Dict(m) => seq!['{'] + display_entries(m) + seq!['}'],
        SValue::Node(_) => "<nodes>"@,
        SValue::Lambda(s) => s,
        SValue::Object(s) => s,
    }
}

/// The items' texts joined by ", ".
pub open spec fn display_list(s: Seq<SValue>) -> Seq<char>
    decreases s,
{
    if s.len() == 0 {
        Seq::empty()
    } else if s.len() == 1 {
        display_text(s[0])
    } else {
        display_list(s.drop_last()) + ", "@ + display_text(s.last())
    }
}

/// The entries' `key = value` texts joined by ", ".
pub open spec fn display_entries(s: Seq<(Seq<char>, SValue)>) -> Seq<char>
    decreases s,
{
    if s.len() == 0 {
        Seq::empty()
    } else if s.len() == 1 {
        s[0].0 + " = "@ + display_text(s[0].1)
    } else {
        display_entries(s.drop_last()) + ", "@ + s.last().0 + " = "@ + display_text(s.last().1)
    }
}

proof fn lemma_display_float_list(s: Seq<SValue>)
    ensures
        !display_float_list(s) <==> forall|i: int| 0 <= i < s.len() ==> !display_float(#[trigger] s[i]),
    decreases s.len(),
{
    if s.len() > 0 {
        lemma_display_float_list(s.drop_last());
        assert forall|i: int| 0 <= i < s.len() - 1 implies s.drop_last()[i] == s[i] by {}
    }
}

proof fn lemma_display_float_entries(s: Seq<(Seq<char>, SValue)>)
    ensures
        !display_float_entries(s) <==> forall|i: int| 0 <= i < s.len() ==> !display_float(#[trigger] s[i].1),
    decreases s.len(),
{
    if s.len() > 0 {
        lemma_display_float_entries(s.drop_last());
        assert forall|i: int| 0 <= i < s.len() - 1 implies s.drop_last()[i] == s[i] by {}
    }
}

proof fn lemma_display_list_step(s: Seq<SValue>, k: int)
    requires
        0 <= k < s.len(),
    ensures
        display_list(s.take(k + 1)) == if k == 0 { display_text(s[0]) } else { display_list(s.take(k)) + ", "@ + display_text(s[k]) },
{
    assert(s.take(k + 1).drop_last() =~= s.take(k));
    assert(s.take(k + 1).last() == s[k]);
    assert(s.take(k + 1)[0] == s[0]);
}

proof fn lemma_display_entries_step(s: Seq<(Seq<char>, SValue)>, k: int)
    requires
        0 <= k < s.len(),
    ensures
        display_entries(s.take(k + 1)) == if k == 0 { s[0].0 + " = "@ + display_text(s[0].1) } else {
            display_entries(s.take(k)) + ", "@ + s[k].0 + " = "@ + display_text(s[k].1)
        },
{
    assert(s.take(k + 1).drop_last() =~= s.take(k));
    assert(s.take(k + 1).last() == s[k]);
    assert(s.take(k + 1)[0] == s[0]);
}

/// The `Display` text of a value; floats are rendered by the host.
pub fn display_value<H: Host>(v: &Value, host: &mut H) -> (r: String)
    ensures
        !display_float(v@) ==> r@ == display_text(v@),
    decreases v,
{
    proof {
        reveal_strlit("true"); reveal_strlit("false"); reveal_strlit("null"); reveal_strlit("..");
        reveal_strlit("<nodes>"); reveal_strlit(", "); reveal_strlit(" = ");
    }
    match v {
        Value::Int(i) => i64_to_string(*i),
        Value::Float(f) => host.float_display(*f),
        Value::Bool(b) => if *b { to_owned_string("true") } else { to_owned_string("false") },
        Value::Str(s) => {
            let mut out = String::new();
            push_char(&mut out, '"');
            push_str(&mut out, s.as_str());
            push_char(&mut out, '"');
            assert(out@ =~= display_text(v@));
            out
        },
        Value::Null => to_owned_string("null"),
        Value::List(l) => {
            let ghost sv = view_values(l@);
            proof {
                lemma_view_values(l@);
                lemma_display_float_list(sv);
                let ghost inner = (*v)->List_0;
                assert(decreases_to!(*v => inner));
            }
            let mut out = String::new();
            push_char(&mut out, '[');
            let mut k: usize = 0;
            while k < l.len()
                invariant
                    k <= l@.len(),
                    sv == view_values(l@),
                    sv.len() == l@.len(),
                    forall|i: int| 0 <= i < l@.len() ==> #[trigger] sv[i] == view_value_of(l@[i]),
                    (!display_float_list(sv)) ==> forall|i: int| 0 <= i < sv.len() ==> !display_float(#[trigger] sv[i]),
                    *v == Value::List(*l),
                    !display_float_list(sv) ==> out@ == seq!['['] + display_list(sv.take(k as int)),
                decreases l@.len() - k,
            {
                proof {
                    let ghost inner = (*v)->List_0;
                    assert(decreases_to!(*v => inner));
                    assert(decreases_to!(inner => inner@));
                    assert(decreases_to!(inner@ => inner@[k as int]));
                    lemma_display_list_step(sv, k as int);
                }
                if k > 0 {
                    push_str(&mut out, ", ");
                }
                let t = display_value(&l[k], host);
                push_str(&mut out, t.as_str());
                k = k + 1;
            }
            push_char(&mut out, ']');
            proof {
                assert(sv.take(l@.len() as int) =~= sv);
                if !display_float_list(sv) {
                    assert(out@ =~= display_text(v@));
                }
            }
            out
        },
        Value::Range(a, b) => {
            let mut out = i64_to_string(*a);
            push_str(&mut out, "..");
            push_str(&mut out, i64_to_string(*b).as_str());
            out
        },
        Value::Dict(m) => {
            let ghost sv = view_entries(m@);
            proof {
                lemma_view_entries(m@);
                lemma_display_float_entries(sv);
                let ghost inner = (*v)->Dict_0;
                assert(decreases_to!(*v => inner));
            }
            let mut out = String::new();
            push_char(&mut out, '{');
            let mut k: usize = 0;
            while k < m.len()
                invariant
                    k <= m@.len(),
                    sv == view_entries(m@),
                    sv.len() == m@.len(),
                    forall|i: int| 0 <= i < m@.len() ==> #[trigger] sv[i] == (m@[i].0@, view_value_of(m@[i].1)),
                    (!display_float_entries(sv)) ==> forall|i: int| 0 <= i < sv.len() ==> !display_float(#[trigger] sv[i].1),
                    *v == Value::Dict(*m),
                    !display_float_entries(sv) ==> out@ == seq!['{'] + display_entries(sv.take(k as int)),
                decreases m@.len() - k,
            {
                proof {
                    let ghost inner = (*v)->Dict_0;
                    assert(decreases_to!(*v => inner));
                    assert(decreases_to!(inner => inner@));
                    assert(decreases_to!(inner@ => inner@[k as int]));
                    assert(decreases_to!(inner@[k as int] => inner@[k as int].1));
                    lemma_display_entries_step(sv, k as int);
                }
                if k > 0 {
                    push_str(&mut out, ", ");
                }
                push_str(&mut out, m[k].0.as_str());
                push_str(&mut out, " = ");
                let t = display_value(&m[k].1, host);
                push_str(&mut out, t.as_str());
                k = k + 1;
            }
            push_char(&mut out, '}');
            proof {
                assert(sv.take(m@.len() as int) =~= sv);
                if !display_float_entries(sv) {
                    assert(out@ =~= display_text(v@));
                }
            }
            out
        },
        Value::Node(_) => to_owned_string("<nodes>"),
        Value::Lambda(s) => s.clone(),
        Value::Object(s) => s.clone(),
    }
}

/// The model of a value (a name for the view usable in triggers).
pub open spec fn view_value_of(v: Value) -> SValue {
    crate::value::view_value(v)
}


/// One character as `Debug` renders it inside a quoted string.
pub open spec fn escape_char(c: char) -> Seq<char> {
    if c == '"' { seq!['\\', '"'] }
    else if c == '\\' { seq!['\\', '\\'] }
    else if c == '\n' { seq!['\\', 'n'] }
    else if c == '\r' { seq!['\\', 'r'] }
    else if c == '\t' { seq!['\\', 't'] }
    else if c == '\0' { seq!['\\', '0'] }
    else { seq![c] }
}

/// The characters of `s`, each escaped.
pub open spec fn escape_text(s: Seq<char>) -> Seq<char>
    decreases s.len(),
{
    if s.len() == 0 { Seq::empty() } else { escape_text(s.drop_last()) + escape_char(s.last()) }
}

/// A string as `Debug` renders it: quoted, with escapes.
pub open spec fn debug_str(s: Seq<char>) -> Seq<char> {
    seq!['"'] + escape_text(s) + seq!['"']
}

/// Appends the `Debug` rendering of a string.
pub fn push_debug_str(out: &mut String, s: &str)
    ensures
        final(out)@ == old(out)@ + debug_str(s@),
{
    let cs = crate::text::chars_of(s);
    push_char(out, '"');
    let ghost start = out@;
    let mut i: usize = 0;
    while i < cs.len()
        invariant
            cs@ == s@,
            i <= cs@.len(),
            out@ == start + escape_text(cs@.take(i as int)),
        decreases cs@.len() - i,
    {
        let c = cs[i];
        if c == '"' { push_char(out, '\\'); push_char(out, '"'); }
        else if c == '\\' { push_char(out, '\\'); push_char(out, '\\'); }
        else if c == '\n' { push_char(out, '\\'); push_char(out, 'n'); }
        else if c == '\r' { push_char(out, '\\'); push_char(out, 'r'); }
        else if c == '\t' { push_char(out, '\\'); push_char(out, 't'); }
        else if c == '\0' { push_char(out, '\\'); push_char(out, '0'); }
        else { push_char(out, c); }
        proof {
            assert(cs@.take(i + 1).drop_last() =~= cs@.take(i as int));
            assert(cs@.take(i + 1).last() == c);
        }
        i = i + 1;
        assert(out@ =~= start + escape_text(cs@.take(i as int)));
    }
    push_char(out, '"');
    assert(cs@.take(cs@.len() as int) =~= cs@);
    assert(final(out)@ =~= old(out)@ + debug_str(s@));
}

/// Whether a value holds a float anywhere, nodes included.
pub open spec fn has_float(v: SValue) -> bool
    decreases v,
{
    match v {
        SValue::Float(_) => true,
        SValue::List(items) => has_float_list(items),
        SValue::Dict(m) => has_float_entries(m),
        SValue::Node(n) => has_float_nodes(n),
        _ => false,
    }
}

pub open spec fn has_float_list(s: Seq<SValue>) -> bool
    decreases s,
{
    s.len() > 0 && (has_float_list(s.drop_last()) || has_float(s.last()))
}

pub open spec fn has_float_entries(s: Seq<(Seq<char>, SValue)>) -> bool
    decreases s,
{
    s.len() > 0 && (has_float_entries(s.drop_last()) || has_float(s.last().1))
}

pub open spec fn has_float_node(n: SNode) -> bool
    decreases n,
{
    has_float_entries(n.props) || has_float_nodes(n.children)
}

pub open spec fn has_float_nodes(s: Seq<SNode>) -> bool
    decreases s,
{
    s.len() > 0 && (has_float_nodes(s.drop_last()) || has_float_node(s.last()))
}

/// The `Debug` text of a value without floats, following the derived format of the
/// value type (maps are shown as `Map(...)`, properties in insertion order).
pub open spec fn debug_text(v: SValue) -> Seq<char>
    decreases v,
{
    match v {
        SValue::Int(i) => "Int("@ + dec_int(i as int) + ")"@,
        SValue::Float(_) => Seq::empty(),
        SValue::Bool(b) => if b { "Bool(true)"@ } else { "Bool(false)"@ },
        SValue::Str(s) => "Str("@ + debug_str(s) + ")"@,
        SValue::List(items) => "List(["@ + debug_list(items) + "])"@,
        SValue::Range(a, b) => "Range("@ + dec_int(a as int) + ", "@ + dec_int(b as int) + ")"@,
        SValue::Dict(m) => "Map(["@ + debug_entries(m) + "])"@,
        SValue::Node(n) => "Node(["@ + debug_nodes(n) + "])"@,
        SValue::Lambda(s) => "Lambda("@ + debug_str(s) + ")"@,
        SValue::Object(s) => "Object("@ + debug_str(s) + ")"@,
        SValue::Null => "Null"@,
    }
}

pub open spec fn debug_list(s: Seq<SValue>) -> Seq<char>
    decreases s,
{
    if s.len() == 0 { Seq::empty() }
    else if s.len() == 1 { debug_text(s[0]) }
    else { debug_list(s.drop_last()) + ", "@ + debug_text(s.last()) }
}

pub open spec fn debug_entry(e: (Seq<char>, SValue)) -> Seq<char>
    decreases e,
{
    "("@ + debug_str(e.0) + ", "@ + debug_text(e.1) + ")"@
}

pub open spec fn debug_entries(s: Seq<(Seq<char>, SValue)>) -> Seq<char>
    decreases s,
{
    if s.len() == 0 { Seq::empty() }
    else if s.len() == 1 { debug_entry(s[0]) }
    else { debug_entries(s.drop_last()) + ", "@ + debug_entry(s.last()) }
}

pub open spec fn debug_prop(e: (Seq<char>, SValue)) -> Seq<char>
    decreases e,
{
    debug_str(e.0) + ": "@ + debug_text(e.1)
}

pub open spec fn debug_props(s: Seq<(Seq<char>, SValue)>) -> Seq<char>
    decreases s,
{
    if s.len() == 0 { Seq::empty() }
    else if s.len() == 1 { debug_prop(s[0]) }
    else { debug_props(s.drop_last()) + ", "@ + debug_prop(s.last()) }
}

pub open spec fn debug_node(n: SNode) -> Seq<char>
    decreases n,
{
    "ResolvedNode { node_type: "@ + debug_str(n.node_type)
        + ", id: "@ + (match n.id { Some(i) => "Some("@ + debug_str(i) + ")"@, None => "None"@ })
        + ", props: {"@ + debug_props(n.props) + "}, children: ["@ + debug_nodes(n.children) + "] }"@
}

pub open spec fn debug_nodes(s: Seq<SNode>) -> Seq<char>
    decreases s,
{
    if s.len() == 0 { Seq::empty() }
    else if s.len() == 1 { debug_node(s[0]) }
    else { debug_nodes(s.drop_last()) + ", "@ + debug_node(s.last()) }
}

/// The `Debug` text of a type hint.
pub open spec fn debug_type(t: SType) -> Seq<char> {
    match t {
        SType::Int => "Int"@,
        SType::Float => "Float"@,
        SType::Bool => "Bool"@,
        SType::Str => "Str"@,
        SType::List => "List"@,
        SType::Dict => "Map"@,
        SType::Node => "Node"@,
        SType::Lambda => "Lambda"@,
        SType::Any => "Any"@,
        SType::Object(s) => "Object("@ + debug_str(s) + ")"@,
        SType::Null => "Null"@,
    }
}

/// The `Debug` text of a type hint.
pub fn debug_type_string(t: &Type) -> (r: String)
    ensures
        r@ == debug_type(t@),
{
    match t {
        Type::Int => to_owned_string("Int"),
        Type::Float => to_owned_string("Float"),
        Type::Bool => to_owned_string("Bool"),
        Type::Str => to_owned_string("Str"),
        Type::List => to_owned_string("List"),
        Type::Dict => to_owned_string("Map"),
        Type::Node => to_owned_string("Node"),
        Type::Lambda => to_owned_string("Lambda"),
        Type::Any => to_owned_string("Any"),
        Type::Object(s) => {
            let mut out = to_owned_string("Object(");
            push_debug_str(&mut out, s.as_str());
            push_char(&mut out, ')');
            proof { reveal_strlit("Object("); reveal_strlit(")"); }
            assert(out@ =~= debug_type(t@));
            out
        },
        Type::Null => to_owned_string("Null"),
    }
}

pub proof fn lemma_has_float_list(s: Seq<SValue>)
    ensures
        !has_float_list(s) <==> forall|i: int| 0 <= i < s.len() ==> !has_float(#[trigger] s[i]),
    decreases s.len(),
{
    if s.len() > 0 {
        lemma_has_float_list(s.drop_last());
        assert forall|i: int| 0 <= i < s.len() - 1 implies s.drop_last()[i] == s[i] by {}
    }
}

pub proof fn lemma_has_float_entries(s: Seq<(Seq<char>, SValue)>)
    ensures
        !has_float_entries(s) <==> forall|i: int| 0 <= i < s.len() ==> !has_float(#[trigger] s[i].1),
    decreases s.len(),
{
    if s.len() > 0 {
        lemma_has_float_entries(s.drop_last());
        assert forall|i: int| 0 <= i < s.len() - 1 implies s.drop_last()[i] == s[i] by {}
    }
}

pub proof fn lemma_has_float_nodes(s: Seq<SNode>)
    ensures
        !has_float_nodes(s) <==> forall|i: int| 0 <= i < s.len() ==> !has_float_node(#[trigger] s[i]),
    decreases s.len(),
{
    if s.len() > 0 {
        lemma_has_float_nodes(s.drop_last());
        assert forall|i: int| 0 <= i < s.len() - 1 implies s.drop_last()[i] == s[i] by {}
    }
}

/// Appends the `Debug` texts of a list of values, joined by ", ".
fn debug_values_into<H: Host>(out: &mut String, l: &Vec<Value>, host: &mut H)
    ensures
        !has_float_list(view_values(l@)) ==> final(out)@ == old(out)@ + debug_list(view_values(l@)),
    decreases l,
{
    let ghost sv = view_values(l@);
    let ghost start = out@;
    proof {
        lemma_view_values(l@);
        lemma_has_float_list(sv);
        reveal_strlit(", ");
    }
    let mut k: usize = 0;
    while k < l.len()
        invariant
            k <= l@.len(),
            sv == view_values(l@),
            sv.len() == l@.len(),
            forall|i: int| 0 <= i < l@.len() ==> #[trigger] sv[i] == view_value_of(l@[i]),
            (!has_float_list(sv)) ==> forall|i: int| 0 <= i < sv.len() ==> !has_float(#[trigger] sv[i]),
            !has_float_list(sv) ==> out@ == start + debug_list(sv.take(k as int)),
        decreases l@.len() - k,
    {
        proof {
            assert(decreases_to!(*l => l@));
            assert(decreases_to!(l@ => l@[k as int]));
            let t = sv.take(k + 1);
            assert(t.drop_last() =~= sv.take(k as int));
            assert(t.last() == sv[k as int]);
            assert(t[0] == sv[0]);
        }
        if k > 0 {
            push_str(out, ", ");
        }
        let t = debug_value(&l[k], host);
        push_str(out, t.as_str());
        k = k + 1;
    }
    assert(sv.take(l@.len() as int) =~= sv);
}

/// Appends the `Debug` texts of map entries, joined by ", ".
fn debug_entries_into<H: Host>(out: &mut String, m: &Vec<(String, Value)>, host: &mut H)
    ensures
        !has_float_entries(view_entries(m@)) ==> final(out)@ == old(out)@ + debug_entries(view_entries(m@)),
    decreases m,
{
    let ghost sv = view_entries(m@);
    let ghost start = out@;
    proof {
        lemma_view_entries(m@);
        lemma_has_float_entries(sv);
        reveal_strlit(", ");
        reveal_strlit("(");
        reveal_strlit(")");
    }
    let mut k: usize = 0;
    while k < m.len()
        invariant
            k <= m@.len(),
            sv == view_entries(m@),
            sv.len() == m@.len(),
            forall|i: int| 0 <= i < m@.len() ==> #[trigger] sv[i] == (m@[i].0@, view_value_of(m@[i].1)),
            (!has_float_entries(sv)) ==> forall|i: int| 0 <= i < sv.len() ==> !has_float(#[trigger] sv[i].1),
            !has_float_entries(sv) ==> out@ == start + debug_entries(sv.take(k as int)),
        decreases m@.len() - k,
    {
        proof {
            assert(decreases_to!(*m => m@));
            assert(decreases_to!(m@ => m@[k as int]));
            assert(decreases_to!(m@[k as int] => m@[k as int].1));
            let t = sv.take(k + 1);
            assert(t.drop_last() =~= sv.take(k as int));
            assert(t.last() == sv[k as int]);
            assert(t[0] == sv[0]);
        }
        let ghost before = out@;
        if k > 0 {
            push_str(out, ", ");
        }
        push_char(out, '(');
        push_debug_str(out, m[k].0.as_str());
        push_str(out, ", ");
        let t = debug_value(&m[k].1, host);
        push_str(out, t.as_str());
        push_char(out, ')');
        proof {
            if !has_float_entries(sv) {
                let e = sv[k as int];
                assert(debug_entry(e) == "("@ + debug_str(e.0) + ", "@ + debug_text(e.1) + ")"@);
                assert(t@ == debug_text(e.1));
                reveal_strlit("(");
                reveal_strlit(")");
                reveal_strlit(", ");
                assert("("@ == seq!['(']);
                assert(")"@ == seq![')']);
                if k > 0 {
                    assert(out@ =~= before + ", "@ + debug_entry(e));
                } else {
                    assert(out@ =~= before + debug_entry(e));
                }
            }
        }
        k = k + 1;
    }
    assert(sv.take(m@.len() as int) =~= sv);
}

/// Appends the `Debug` texts of node properties, `"key": value`, joined by ", ".
fn debug_props_into<H: Host>(out: &mut String, m: &Vec<(String, Value)>, host: &mut H)
    ensures
        !has_float_entries(view_entries(m@)) ==> final(out)@ == old(out)@ + debug_props(view_entries(m@)),
    decreases m,
{
    let ghost sv = view_entries(m@);
    let ghost start = out@;
    proof {
        lemma_view_entries(m@);
        lemma_has_float_entries(sv);
        reveal_strlit(", ");
        reveal_strlit(": ");
    }
    let mut k: usize = 0;
    while k < m.len()
        invariant
            k <= m@.len(),
            sv == view_entries(m@),
            sv.len() == m@.len(),
            forall|i: int| 0 <= i < m@.len() ==> #[trigger] sv[i] == (m@[i].0@, view_value_of(m@[i].1)),
            (!has_float_entries(sv)) ==> forall|i: int| 0 <= i < sv.len() ==> !has_float(#[trigger] sv[i].1),
            !has_float_entries(sv) ==> out@ == start + debug_props(sv.take(k as int)),
        decreases m@.len() - k,
    {
        proof {
            assert(decreases_to!(*m => m@));
            assert(decreases_to!(m@ => m@[k as int]));
            assert(decreases_to!(m@[k as int] => m@[k as int].1));
            let t = sv.take(k + 1);
            assert(t.drop_last() =~= sv.take(k as int));
            assert(t.last() == sv[k as int]);
            assert(t[0] == sv[0]);
        }
        let ghost before = out@;
        if k > 0 {
            push_str(out, ", ");
        }
        push_debug_str(out, m[k].0.as_str());
        push_str(out, ": ");
        let t = debug_value(&m[k].1, host);
        push_str(out, t.as_str());
        proof {
            if !has_float_entries(sv) {
                let e = sv[k as int];
                if k > 0 {
                    assert(out@ =~= before + ", "@ + debug_prop(e));
                } else {
                    assert(out@ =~= before + debug_prop(e));
                }
            }
        }
        k = k + 1;
    }
    assert(sv.take(m@.len() as int) =~= sv);
}

/// Appends the `Debug` texts of nodes, joined by ", ".
fn debug_nodes_into<H: Host>(out: &mut String, l: &Vec<crate::value::ResolvedNode>, host: &mut H)
    ensures
        !has_float_nodes(crate::value::view_nodes(l@)) ==> final(out)@ == old(out)@ + debug_nodes(crate::value::view_nodes(l@)),
    decreases l,
{
    let ghost sv = crate::value::view_nodes(l@);
    let ghost start = out@;
    proof {
        crate::value::lemma_view_nodes(l@);
        lemma_has_float_nodes(sv);
        reveal_strlit(", ");
    }
    let mut k: usize = 0;
    while k < l.len()
        invariant
            k <= l@.len(),
            sv == crate::value::view_nodes(l@),
            sv.len() == l@.len(),
            forall|i: int| 0 <= i < l@.len() ==> #[trigger] sv[i] == crate::value::view_node(l@[i]),
            (!has_float_nodes(sv)) ==> forall|i: int| 0 <= i < sv.len() ==> !has_float_node(#[trigger] sv[i]),
            !has_float_nodes(sv) ==> out@ == start + debug_nodes(sv.take(k as int)),
        decreases l@.len() - k,
    {
        proof {
            assert(decreases_to!(*l => l@));
            assert(decreases_to!(l@ => l@[k as int]));
            let t = sv.take(k + 1);
            assert(t.drop_last() =~= sv.take(k as int));
            assert(t.last() == sv[k as int]);
            assert(t[0] == sv[0]);
        }
        if k > 0 {
            push_str(out, ", ");
        }
        let t = debug_node_string(&l[k], host);
        push_str(out, t.as_str());
        k = k + 1;
    }
    assert(sv.take(l@.len() as int) =~= sv);
}

/// The `Debug` text of a resolved node; floats are rendered by the host.
pub fn debug_node_string<H: Host>(n: &crate::value::ResolvedNode, host: &mut H) -> (r: String)
    ensures
        !has_float_node(n@) ==> r@ == debug_node(n@),
    decreases n,
{
    proof {
        assert(decreases_to!(*n => n.props));
        assert(decreases_to!(*n => n.children));
        reveal_strlit("ResolvedNode { node_type: ");
        reveal_strlit(", id: ");
        reveal_strlit("Some(");
        reveal_strlit(")");
        reveal_strlit("None");
        reveal_strlit(", props: {");
        reveal_strlit("}, children: [");
        reveal_strlit("] }");
    }
    let mut out = to_owned_string("ResolvedNode { node_type: ");
    push_debug_str(&mut out, n.node_type.as_str());
    push_str(&mut out, ", id: ");
    match &n.id {
        Some(i) => {
            push_str(&mut out, "Some(");
            push_debug_str(&mut out, i.as_str());
            push_str(&mut out, ")");
        },
        None => {
            push_str(&mut out, "None");
        },
    }
    let ghost mid = out@;
    push_str(&mut out, ", props: {");
    debug_props_into(&mut out, &n.props, host);
    push_str(&mut out, "}, children: [");
    debug_nodes_into(&mut out, &n.children, host);
    push_str(&mut out, "] }");
    proof {
        if !has_float_node(n@) {
            assert(out@ =~= debug_node(n@));
        }
    }
    out
}

/// The `Debug` text of a value; floats are rendered by the host.
pub fn debug_value<H: Host>(v: &Value, host: &mut H) -> (r: String)
    ensures
        !has_float(v@) ==> r@ == debug_text(v@),
    decreases v,
{
    proof {
        reveal_strlit("Int("); reveal_strlit(")"); reveal_strlit("Bool(true)"); reveal_strlit("Bool(false)");
        reveal_strlit("Str("); reveal_strlit("List(["); reveal_strlit("])"); reveal_strlit("Range(");
        reveal_strlit(", "); reveal_strlit("Map(["); reveal_strlit("Node(["); reveal_strlit("Lambda(");
        reveal_strlit("Object("); reveal_strlit("Null");
    }
    match v {
        Value::Int(i) => {
            let mut out = to_owned_string("Int(");
            push_str(&mut out, i64_to_string(*i).as_str());
            push_char(&mut out, ')');
            assert(out@ =~= debug_text(v@));
            out
        },
        Value::Float(f) => host.float_debug(*f),
        Value::Bool(b) => if *b { to_owned_string("Bool(true)") } else { to_owned_string("Bool(false)") },
        Value::Str(s) => {
            let mut out = to_owned_string("Str(");
            push_debug_str(&mut out, s.as_str());
            push_char(&mut out, ')');
            assert(out@ =~= debug_text(v@));
            out
        },
        Value::List(l) => {
            proof { let ghost inner = (*v)->List_0; assert(decreases_to!(*v => inner)); }
            let mut out = to_owned_string("List([");
            debug_values_into(&mut out, l, host);
            push_str(&mut out, "])");
            proof { if !has_float(v@) { assert(out@ =~= debug_text(v@)); } }
            out
        },
        Value::Range(a, b) => {
            let mut out = to_owned_string("Range(");
            push_str(&mut out, i64_to_string(*a).as_str());
            push_str(&mut out, ", ");
            push_str(&mut out, i64_to_string(*b).as_str());
            push_char(&mut out, ')');
            assert(out@ =~= debug_text(v@));
            out
        },
        Value::Dict(m) => {
            proof { let ghost inner = (*v)->Dict_0; assert(decreases_to!(*v => inner)); }
            let mut out = to_owned_string("Map([");
            debug_entries_into(&mut out, m, host);
            push_str(&mut out, "])");
            proof { if !has_float(v@) { assert(out@ =~= debug_text(v@)); } }
            out
        },
        Value::Node(n) => {
            proof { let ghost inner = (*v)->Node_0; assert(decreases_to!(*v => inner)); }
            let mut out = to_owned_string("Node([");
            debug_nodes_into(&mut out, n, host);
            push_str(&mut out, "])");
            proof { if !has_float(v@) { assert(out@ =~= debug_text(v@)); } }
            out
        },
        Value::Lambda(s) => {
            let mut out = to_owned_string("Lambda(");
            push_debug_str(&mut out, s.as_str());
            push_char(&mut out, ')');
            assert(out@ =~= debug_text(v@));
            out
        },
        Value::Object(s) => {
            let mut out = to_owned_string("Object(");
            push_debug_str(&mut out, s.as_str());
            push_char(&mut out, ')');
            assert(out@ =~= debug_text(v@));
            out
        },
        Value::Null => to_owned_string("Null"),
    }
}
} // verus!
