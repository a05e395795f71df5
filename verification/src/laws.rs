//! Properties of the language and of the library that hold across calls.
use vstd::prelude::*;
use crate::ast::{AssignOp, BinaryOp, Expr, ExprKind, ReturnType, Stmt, StringType, TopLevelItem};
use crate::error::SSpan;
use crate::registry::{
    Builtin, SLibraryItem, assoc_get, assoc_put, first_key_index, first_named, item_names,
    lemma_first_key_index, lemma_first_named, put_named,
};
use crate::semantics::{
    is_quote, strip_end, strip_start, strippable, unquote_spec, arm_matches, bind_list_patterns, escape_target,
    insert_loop_var,
    add_global, at_root, builtin_result, declare_items, eval_binary, eval_call, eval_expr, eval_items,
    interp, module_import, out_of_steps, run_file, step_limit_message, top_return_hint, with_reg,
};
use crate::format::{display_float, display_text};
use crate::ops::{assign_result, binary_result, text_lt};
use crate::state::{Out, SBinding, SScope, SState, declare, lemma_scope_with, lookup_var, rt, rth, scope_with};
use crate::text::dec_nat;
use crate::utils::{edit_distance, lemma_edit_distance_bound, min_nat};
use crate::value::{SNode, SValue, is_truthy_spec};

verus! {

/// Binding a key and reading it back gives the value bound, and binding it again
/// keeps a single entry for it.
pub proof fn law_entry_put_get<T>(s: Seq<(Seq<char>, T)>, k: Seq<char>, v: T, w: T)
    ensures
        assoc_get(assoc_put(s, k, v), k) == Some(v),
        assoc_get(assoc_put(assoc_put(s, k, v), k, w), k) == Some(w),
        assoc_put(assoc_put(s, k, v), k, w).len() == assoc_put(s, k, v).len(),
{
    lemma_put_get(s, k, v);
    lemma_put_get(assoc_put(s, k, v), k, w);
}

proof fn lemma_put_get<T>(s: Seq<(Seq<char>, T)>, k: Seq<char>, v: T)
    ensures
        first_key_index(assoc_put(s, k, v), k) is Some,
        assoc_get(assoc_put(s, k, v), k) == Some(v),
        first_key_index(s, k) is Some ==> assoc_put(s, k, v).len() == s.len(),
{
    lemma_first_key_index(s, k);
    let t = assoc_put(s, k, v);
    lemma_first_key_index(t, k);
    match first_key_index(s, k) {
        Some(i) => {
            assert(t[i].0 == k);
            assert forall|j: int| 0 <= j < i implies t[j].0 != k by {}
        },
        None => {
            assert(t[s.len() as int].0 == k);
            assert forall|j: int| 0 <= j < s.len() implies t[j].0 != k by {}
        },
    }
}

/// A variable declared in the innermost scope is what a lookup of its name then gives.
pub proof fn law_lookup_after_declare(st: SState, name: Seq<char>, v: SValue, is_const: bool)
    requires
        st.scopes.len() > 0,
    ensures
        lookup_var(declare(st, name, v, is_const), name) == Some(v),
{
    let s1 = declare(st, name, v, is_const);
    let last = st.scopes.len() - 1;
    lemma_put_get(st.scopes[last].vars, name, crate::state::SBinding { value: v, is_const });
    assert(s1.scopes.last().vars == assoc_put(st.scopes[last].vars, name, crate::state::SBinding { value: v, is_const }));
    assert(scope_with(s1.scopes, name) == Some(last));
}

/// A global set under a name that no scope binds is what a lookup of the name gives.
pub proof fn law_global_read_after_write(st: SState, name: Seq<char>, v: SValue)
    requires
        scope_with(st.scopes, name) is None,
    ensures
        lookup_var(add_global(st, name, v), name) == Some(v),
{
    lemma_put_get(st.reg.globals, name, v);
}

/// `a || b` gives `a` when `a` is truthy, without evaluating `b`; otherwise it gives `b`.
pub proof fn law_or_short_circuit(st: SState, l: Expr, r: Expr, span: SSpan, fuel: nat)
    requires
        eval_expr(st, l, fuel) is Done,
    ensures
        ({
            let (s1, lv) = eval_expr(st, l, fuel)->Done_0;
            eval_binary(st, l, BinaryOp::Or, r, span, fuel + 1)
                == if is_truthy_spec(lv) { Out::Done((s1, lv)) } else { eval_expr(s1, r, fuel) }
        }),
{
}

/// `a && b` gives `a` when `a` is falsy, without evaluating `b`; otherwise it gives `b`.
pub proof fn law_and_short_circuit(st: SState, l: Expr, r: Expr, span: SSpan, fuel: nat)
    requires
        eval_expr(st, l, fuel) is Done,
    ensures
        ({
            let (s1, lv) = eval_expr(st, l, fuel)->Done_0;
            eval_binary(st, l, BinaryOp::And, r, span, fuel + 1)
                == if !is_truthy_spec(lv) { Out::Done((s1, lv)) } else { eval_expr(s1, r, fuel) }
        }),
{
}

/// `return` at the top level (or in a block right under it) is refused.
pub proof fn law_no_return_at_top(st: SState, ret: Option<ReturnType>, span: crate::error::Span, fuel: nat)
    requires
        fuel > 0,
        st.flow is Normal,
        at_root(st.scopes),
    ensures
        crate::semantics::exec_stmt(st, Stmt::Return(ret, span), fuel)
            == Out::<(SState, SValue)>::Fail(rth("cannot return from the top level"@, Some(top_return_hint()), Some(span@))),
{
}

/// A call made at the maximum depth is refused before anything is evaluated.
pub proof fn law_depth_limit(st: SState, callee: Expr, args: Seq<Expr>, span: SSpan, fuel: nat)
    requires
        fuel > 0,
        st.depth >= st.max_depth,
    ensures
        eval_call(st, callee, args, span, fuel) == Out::<(SState, SValue)>::Fail(
            rth("maximum recursion depth of "@ + dec_nat(st.max_depth as nat) + " exceeded"@,
                Some("Check for infinite recursion in your functions or increase the limit."@), Some(callee.span@))),
{
}

/// Evaluation always ends: without steps left, it stops with an error.
pub proof fn law_out_of_steps(st: SState, e: Expr)
    ensures
        eval_expr(st, e, 0) == Out::<(SState, SValue)>::Fail(rt(step_limit_message(), None)),
{
}

/// `print` adds the displayed text of its argument to the output and gives `null`.
pub proof fn law_print_appends(st: SState, v: SValue)
    requires
        !display_float(v),
    ensures
        builtin_result(st, Builtin::Print, seq![v])
            == Out::Done((SState { output: st.output.push(display_text(v)), ..st }, SValue::Null)),
{
    reveal(builtin_result);
}

/// A string without `\` and `$` reads as written.
pub proof fn law_plain_string(st: SState, s: Seq<char>, fmt: bool, i: int)
    requires
        0 <= i <= s.len(),
        forall|j: int| 0 <= j < s.len() ==> s[j] != '\\' && s[j] != '$',
    ensures
        interp(st, s, fmt, i) == Out::Done(s.subrange(i, s.len() as int)),
    decreases s.len() - i,
{
    if i < s.len() {
        law_plain_string(st, s, fmt, i + 1);
        assert(seq![s[i]] + s.subrange(i + 1, s.len() as int) =~= s.subrange(i, s.len() as int));
    } else {
        assert(s.subrange(i, s.len() as int) =~= Seq::<char>::empty());
    }
}

/// A module is imported once: importing it again only records it as the current file.
pub proof fn law_module_imported_once(st: SState, path: Seq<char>, alias: Seq<char>,
    sel: Option<crate::ast::ComponentSelection>, target: Seq<char>, items: Seq<TopLevelItem>, fuel: nat)
    requires
        st.loaded.contains(target),
    ensures
        module_import(st, path, alias, sel, target, items, fuel) == Out::Done((
            with_reg(st, crate::registry::SRegistry { current_file: Some(target), ..st.reg }), Seq::<SNode>::empty())),
{
}

/// A file without items evaluates to no nodes and leaves the state as it was.
pub proof fn law_empty_file(st: SState, fuel: nat)
    ensures
        run_file(st, Seq::empty(), fuel) == Out::Done((st, Seq::<SNode>::empty())),
{
    reveal(declare_items);
    reveal(eval_items);
}

/// After adding an item to a library, looking its name up gives that item.
pub proof fn law_library_item_added(items: Seq<SLibraryItem>, item: SLibraryItem)
    ensures
        ({
            let after = put_named(items, item_names(items), item.name, item);
            first_named(item_names(after), item.name) matches Some(i) && after[i] == item
        }),
{
    let names = item_names(items);
    let after = put_named(items, names, item.name, item);
    lemma_first_named(names, item.name);
    lemma_first_named(item_names(after), item.name);
    match first_named(names, item.name) {
        Some(i) => {
            assert(item_names(after)[i] == item.name);
            assert forall|j: int| 0 <= j < i implies item_names(after)[j] != item.name by {
                assert(item_names(after)[j] == names[j]);
            }
        },
        None => {
            assert(item_names(after)[items.len() as int] == item.name);
            assert forall|j: int| 0 <= j < items.len() implies item_names(after)[j] != item.name by {
                assert(item_names(after)[j] == names[j]);
            }
        },
    }
}

/// Adding an item to a library keeps the names of its items distinct: an item under a
/// name already there takes that item's place.
pub proof fn law_library_names_distinct(items: Seq<SLibraryItem>, item: SLibraryItem)
    requires
        item_names(items).no_duplicates(),
    ensures
        item_names(put_named(items, item_names(items), item.name, item)).no_duplicates(),
{
    let names = item_names(items);
    let after = put_named(items, names, item.name, item);
    lemma_first_named(names, item.name);
    match first_named(names, item.name) {
        Some(i) => {
            assert(item_names(after) =~= names);
        },
        None => {
            assert(item_names(after) =~= names.push(item.name));
            assert forall|a: int, b: int| 0 <= a < b < item_names(after).len()
                implies item_names(after)[a] != item_names(after)[b] by {
                if b < names.len() {
                    assert(item_names(after)[a] == names[a]);
                    assert(item_names(after)[b] == names[b]);
                } else {
                    assert(item_names(after)[a] == names[a]);
                }
            }
        },
    }
}

/// The edit distance from a text to itself is zero, and only equal texts are at
/// distance zero.
pub proof fn law_edit_distance_zero(a: Seq<char>, b: Seq<char>)
    ensures
        edit_distance(a, a) == 0,
        edit_distance(a, b) == 0 <==> a == b,
    decreases a.len() + b.len(),
{
    lemma_edit_distance_self(a);
    if edit_distance(a, b) == 0 {
        if a.len() > 0 && b.len() > 0 {
            let cost: nat = if a.last() == b.last() { 0 } else { 1 };
            assert(edit_distance(a.drop_last(), b.drop_last()) + cost == 0);
            law_edit_distance_zero(a.drop_last(), b.drop_last());
            assert(a =~= a.drop_last().push(a.last()));
            assert(b =~= b.drop_last().push(b.last()));
        } else {
            assert(a =~= b);
        }
    }
}

proof fn lemma_edit_distance_self(a: Seq<char>)
    ensures
        edit_distance(a, a) == 0,
    decreases a.len(),
{
    if a.len() > 0 {
        lemma_edit_distance_self(a.drop_last());
    }
}

/// The edit distance is symmetric.
pub proof fn law_edit_distance_symmetric(a: Seq<char>, b: Seq<char>)
    ensures
        edit_distance(a, b) == edit_distance(b, a),
    decreases a.len() + b.len(),
{
    if a.len() > 0 && b.len() > 0 {
        law_edit_distance_symmetric(a, b.drop_last());
        law_edit_distance_symmetric(a.drop_last(), b);
        law_edit_distance_symmetric(a.drop_last(), b.drop_last());
    }
}

/// The edit distance is at least the difference of the lengths.
pub proof fn law_edit_distance_lower_bound(a: Seq<char>, b: Seq<char>)
    ensures
        a.len() <= edit_distance(a, b) + b.len(),
        b.len() <= edit_distance(a, b) + a.len(),
    decreases a.len() + b.len(),
{
    if a.len() > 0 && b.len() > 0 {
        law_edit_distance_lower_bound(a, b.drop_last());
        law_edit_distance_lower_bound(a.drop_last(), b);
        law_edit_distance_lower_bound(a.drop_last(), b.drop_last());
    }
}

/// Dropping the last character of the first sequence changes the distance by at most one.
proof fn lemma_edit_distance_drop(s: Seq<char>, t: Seq<char>)
    requires
        s.len() > 0,
    ensures
        edit_distance(s.drop_last(), t) <= edit_distance(s, t) + 1,
    decreases s.len() + t.len(),
{
    law_edit_distance_lower_bound(s, t);
    law_edit_distance_lower_bound(s.drop_last(), t);
    if t.len() > 0 {
        lemma_edit_distance_drop(s, t.drop_last());
        law_edit_distance_lower_bound(s.drop_last(), t.drop_last());
    }
}

/// The edit distance obeys the triangle inequality: going from `a` to `c` by way of `b`
/// takes no fewer edits than going directly.
pub proof fn law_edit_distance_triangle(a: Seq<char>, b: Seq<char>, c: Seq<char>)
    ensures
        edit_distance(a, c) <= edit_distance(a, b) + edit_distance(b, c),
    decreases a.len() + b.len() + c.len(),
{
    law_edit_distance_lower_bound(a, b);
    law_edit_distance_lower_bound(b, c);
    lemma_edit_distance_bound(a, c);
    if a.len() > 0 && b.len() > 0 && c.len() > 0 {
        let dab = edit_distance(a, b);
        let dbc = edit_distance(b, c);
        if dab == edit_distance(a, b.drop_last()) + 1 {
            law_edit_distance_triangle(a, b.drop_last(), c);
            law_edit_distance_symmetric(b, c);
            law_edit_distance_symmetric(b.drop_last(), c);
            lemma_edit_distance_drop(b, c);
        } else if dbc == edit_distance(b.drop_last(), c) + 1 {
            law_edit_distance_triangle(a, b.drop_last(), c);
            law_edit_distance_symmetric(a, b);
            law_edit_distance_symmetric(a, b.drop_last());
            lemma_edit_distance_drop(b, a);
        } else if dab == edit_distance(a.drop_last(), b) + 1 {
            law_edit_distance_triangle(a.drop_last(), b, c);
        } else if dbc == edit_distance(b, c.drop_last()) + 1 {
            law_edit_distance_triangle(a, b, c.drop_last());
        } else {
            law_edit_distance_triangle(a.drop_last(), b.drop_last(), c.drop_last());
        }
    }
}

/// A compound assignment computes what its operator computes: on two integers, `+=`,
/// `-=`, `*=` and `/=` give what `+`, `-`, `*` and `/` give (overflow and division by
/// zero included), and on two strings `+=` concatenates as `+` does.
pub proof fn law_compound_assignment(a: SValue, b: SValue, span: Option<SSpan>)
    ensures
        (a is Int && b is Int) ==> {
            &&& assign_result(a, AssignOp::PlusEqual, b, span) == binary_result(a, BinaryOp::Add, b, span)
            &&& assign_result(a, AssignOp::MinEqual, b, span) == binary_result(a, BinaryOp::Sub, b, span)
            &&& assign_result(a, AssignOp::MultEqual, b, span) == binary_result(a, BinaryOp::Mul, b, span)
            &&& assign_result(a, AssignOp::DivEqual, b, span) == binary_result(a, BinaryOp::Div, b, span)
        },
        (a is Str && b is Str) ==> assign_result(a, AssignOp::PlusEqual, b, span) == binary_result(a, BinaryOp::Add, b, span),
        assign_result(a, AssignOp::Equal, b, span) == Out::Done(b),
{
    reveal(assign_result);
}

/// Binding one key leaves what every other key is bound to unchanged.
proof fn lemma_put_other<T>(s: Seq<(Seq<char>, T)>, k: Seq<char>, k2: Seq<char>, v: T)
    requires
        k != k2,
    ensures
        assoc_get(assoc_put(s, k2, v), k) == assoc_get(s, k),
{
    let t = assoc_put(s, k2, v);
    lemma_first_key_index(s, k2);
    lemma_first_key_index(s, k);
    lemma_first_key_index(t, k);
    assert forall|j: int| 0 <= j < s.len() implies #[trigger] t[j].0 == s[j].0 && (s[j].0 == k ==> t[j].1 == s[j].1) by {}
    match first_key_index(s, k) {
        Some(i) => {
            assert(t[i].0 == k);
            match first_key_index(t, k) {
                Some(i2) => {
                    if i2 < i { assert(s[i2].0 == k); }
                    if i < i2 { assert(t[i].0 == k); }
                },
                None => {},
            }
        },
        None => {
            match first_key_index(t, k) {
                Some(i2) => {
                    if i2 < s.len() { assert(s[i2].0 == k); }
                },
                None => {},
            }
        },
    }
}

/// The function an item defines.
spec fn item_fn(it: TopLevelItem) -> crate::ast::FnDef
    recommends
        it is FnDef,
{
    match it {
        TopLevelItem::FnDef(d) => *d,
        _ => vstd::pervasive::arbitrary(),
    }
}

/// The component an item defines.
spec fn item_component(it: TopLevelItem) -> crate::ast::ComponentDef
    recommends
        it is ComponentDef,
{
    match it {
        TopLevelItem::ComponentDef(c) => *c,
        _ => vstd::pervasive::arbitrary(),
    }
}

/// The first pass keeps a function binding that no later definition replaces, when the
/// file imports nothing.
proof fn lemma_declare_keeps(st: SState, items: Seq<TopLevelItem>, k: int, name: Seq<char>, def: crate::ast::FnDef)
    requires
        0 <= k <= items.len(),
        assoc_get(st.reg.functions, name) == Some(def),
        forall|j: int| 0 <= j < items.len() ==> !(#[trigger] items[j] is Import),
        forall|j: int| k <= j < items.len() ==> (#[trigger] items[j] matches TopLevelItem::FnDef(d) ==> d.name@ != name),
    ensures
        declare_items(st, items, k) matches Out::Done(s1) && assoc_get(s1.reg.functions, name) == Some(def),
    decreases items.len() - k,
{
    reveal(declare_items);
    if k < items.len() {
        let it = items[k];
        assert(!(it is Import));
        match it {
            TopLevelItem::ComponentDef(_) => {
                lemma_declare_keeps(crate::semantics::add_component(st, item_component(it)), items, k + 1, name, def);
            },
            TopLevelItem::FnDef(_) => {
                let d = item_fn(it);
                lemma_put_other(st.reg.functions, name, d.name@, d);
                lemma_declare_keeps(crate::semantics::add_function(st, d), items, k + 1, name, def);
            },
            _ => {
                lemma_declare_keeps(st, items, k + 1, name, def);
            },
        }
    }
}

/// Up to the definition at `i`, the first pass goes on and then registers it.
proof fn lemma_declare_reaches(st: SState, items: Seq<TopLevelItem>, k: int, i: int)
    requires
        0 <= k <= i < items.len(),
        items[i] is FnDef,
        forall|j: int| 0 <= j < items.len() ==> !(#[trigger] items[j] is Import),
        forall|j: int| i < j < items.len() ==> (#[trigger] items[j] matches TopLevelItem::FnDef(d) ==> d.name@ != items[i]->FnDef_0.name@),
    ensures
        declare_items(st, items, k) matches Out::Done(s1)
            && assoc_get(s1.reg.functions, items[i]->FnDef_0.name@) == Some(*items[i]->FnDef_0),
    decreases i - k,
{
    reveal(declare_items);
    let it = items[k];
    assert(!(it is Import));
    if k == i {
        let d = item_fn(it);
        lemma_put_get(st.reg.functions, d.name@, d);
        lemma_declare_keeps(crate::semantics::add_function(st, d), items, k + 1, d.name@, d);
    } else {
        match it {
            TopLevelItem::ComponentDef(_) => { lemma_declare_reaches(crate::semantics::add_component(st, item_component(it)), items, k + 1, i); },
            TopLevelItem::FnDef(_) => { lemma_declare_reaches(crate::semantics::add_function(st, item_fn(it)), items, k + 1, i); },
            _ => { lemma_declare_reaches(st, items, k + 1, i); },
        }
    }
}

/// A function can be called before the line that defines it: in a file that imports
/// nothing, every function it defines (the last definition of each name) is registered
/// before the first of its nodes or statements is evaluated.
pub proof fn law_functions_defined_first(st: SState, items: Seq<TopLevelItem>, i: int, fuel: nat)
    requires
        0 <= i < items.len(),
        items[i] is FnDef,
        forall|j: int| 0 <= j < items.len() ==> !(#[trigger] items[j] is Import),
        forall|j: int| i < j < items.len() ==> (#[trigger] items[j] matches TopLevelItem::FnDef(d) ==> d.name@ != items[i]->FnDef_0.name@),
    ensures
        declare_items(st, items, 0) matches Out::Done(s1) && {
            &&& assoc_get(s1.reg.functions, items[i]->FnDef_0.name@) == Some(*items[i]->FnDef_0)
            &&& run_file(st, items, fuel) == eval_items(s1, items, 0, Seq::empty(), fuel)
        },
{
    lemma_declare_reaches(st, items, 0, i);
}

/// The first pass keeps a component binding that no later definition replaces, when
/// the file imports nothing.
proof fn lemma_declare_keeps_component(st: SState, items: Seq<TopLevelItem>, k: int, name: Seq<char>, def: crate::ast::ComponentDef)
    requires
        0 <= k <= items.len(),
        assoc_get(st.reg.components, name) == Some(def),
        forall|j: int| 0 <= j < items.len() ==> !(#[trigger] items[j] is Import),
        forall|j: int| k <= j < items.len() ==> (#[trigger] items[j] matches TopLevelItem::ComponentDef(c) ==> c.name@ != name),
    ensures
        declare_items(st, items, k) matches Out::Done(s1) && assoc_get(s1.reg.components, name) == Some(def),
    decreases items.len() - k,
{
    reveal(declare_items);
    if k < items.len() {
        let it = items[k];
        assert(!(it is Import));
        match it {
            TopLevelItem::ComponentDef(_) => {
                let c = item_component(it);
                lemma_put_other(st.reg.components, name, c.name@, c);
                lemma_declare_keeps_component(crate::semantics::add_component(st, c), items, k + 1, name, def);
            },
            TopLevelItem::FnDef(_) => {
                lemma_declare_keeps_component(crate::semantics::add_function(st, item_fn(it)), items, k + 1, name, def);
            },
            _ => {
                lemma_declare_keeps_component(st, items, k + 1, name, def);
            },
        }
    }
}

/// Up to the component definition at `i`, the first pass goes on and then registers it.
proof fn lemma_declare_reaches_component(st: SState, items: Seq<TopLevelItem>, k: int, i: int)
    requires
        0 <= k <= i < items.len(),
        items[i] is ComponentDef,
        forall|j: int| 0 <= j < items.len() ==> !(#[trigger] items[j] is Import),
        forall|j: int| i < j < items.len() ==> (#[trigger] items[j] matches TopLevelItem::ComponentDef(c) ==> c.name@ != items[i]->ComponentDef_0.name@),
    ensures
        declare_items(st, items, k) matches Out::Done(s1)
            && assoc_get(s1.reg.components, items[i]->ComponentDef_0.name@) == Some(*items[i]->ComponentDef_0),
    decreases i - k,
{
    reveal(declare_items);
    let it = items[k];
    assert(!(it is Import));
    if k == i {
        let c = item_component(it);
        lemma_put_get(st.reg.components, c.name@, c);
        lemma_declare_keeps_component(crate::semantics::add_component(st, c), items, k + 1, c.name@, c);
    } else {
        match it {
            TopLevelItem::ComponentDef(_) => { lemma_declare_reaches_component(crate::semantics::add_component(st, item_component(it)), items, k + 1, i); },
            TopLevelItem::FnDef(_) => { lemma_declare_reaches_component(crate::semantics::add_function(st, item_fn(it)), items, k + 1, i); },
            _ => { lemma_declare_reaches_component(st, items, k + 1, i); },
        }
    }
}

/// A component can be used before the line that defines it: in a file that imports
/// nothing, every component it defines (the last definition of each name) is registered
/// before the first of its nodes or statements is evaluated.
pub proof fn law_components_defined_first(st: SState, items: Seq<TopLevelItem>, i: int, fuel: nat)
    requires
        0 <= i < items.len(),
        items[i] is ComponentDef,
        forall|j: int| 0 <= j < items.len() ==> !(#[trigger] items[j] is Import),
        forall|j: int| i < j < items.len() ==> (#[trigger] items[j] matches TopLevelItem::ComponentDef(c) ==> c.name@ != items[i]->ComponentDef_0.name@),
    ensures
        declare_items(st, items, 0) matches Out::Done(s1) && {
            &&& assoc_get(s1.reg.components, items[i]->ComponentDef_0.name@) == Some(*items[i]->ComponentDef_0)
            &&& run_file(st, items, fuel) == eval_items(s1, items, 0, Seq::empty(), fuel)
        },
{
    lemma_declare_reaches_component(st, items, 0, i);
}

/// `strip_start` drops a run of leading strippable characters, and the character after
/// them, if any, is not strippable.
proof fn lemma_strip_start(s: Seq<char>, quotes: bool) -> (k: int)
    ensures
        0 <= k <= s.len(),
        strip_start(s, quotes) == s.skip(k),
        forall|i: int| 0 <= i < k ==> #[trigger] strippable(s[i], quotes),
        k < s.len() ==> !strippable(s[k], quotes),
    decreases s.len(),
{
    if s.len() > 0 && strippable(s[0], quotes) {
        let k1 = lemma_strip_start(s.drop_first(), quotes);
        assert(s.drop_first().skip(k1) =~= s.skip(k1 + 1));
        assert forall|i: int| 0 <= i < k1 + 1 implies #[trigger] strippable(s[i], quotes) by {
            if i > 0 {
                assert(s[i] == s.drop_first()[i - 1]);
            }
        }
        k1 + 1
    } else {
        assert(s.skip(0) =~= s);
        0
    }
}

/// `strip_end` drops a run of trailing strippable characters, and the character before
/// them, if any, is not strippable.
proof fn lemma_strip_end(s: Seq<char>, quotes: bool) -> (m: int)
    ensures
        0 <= m <= s.len(),
        strip_end(s, quotes) == s.take(m),
        forall|i: int| m <= i < s.len() ==> #[trigger] strippable(s[i], quotes),
        m > 0 ==> !strippable(s[m - 1], quotes),
    decreases s.len(),
{
    if s.len() > 0 && strippable(s.last(), quotes) {
        let m1 = lemma_strip_end(s.drop_last(), quotes);
        assert(s.drop_last().take(m1) =~= s.take(m1));
        assert forall|i: int| m1 <= i < s.len() implies #[trigger] strippable(s[i], quotes) by {
            if i < s.len() - 1 {
                assert(s[i] == s.drop_last()[i]);
            }
        }
        m1
    } else {
        assert(s.take(s.len() as int) =~= s);
        s.len() as int
    }
}

/// Unquoting removes only quotes, and only at the ends: the text is the result between a
/// run of quotes before it and a run of quotes after it, and the result neither starts
/// nor ends with a quote.
pub proof fn law_unquote_decomposition(s: Seq<char>)
    ensures
        exists|p: Seq<char>, q: Seq<char>| #![trigger p + unquote_spec(s) + q]
            s == p + unquote_spec(s) + q
            && (forall|i: int| 0 <= i < p.len() ==> #[trigger] is_quote(p[i]))
            && (forall|i: int| 0 <= i < q.len() ==> #[trigger] is_quote(q[i])),
        unquote_spec(s).len() > 0 ==> !is_quote(unquote_spec(s)[0]) && !is_quote(unquote_spec(s).last()),
{
    let k = lemma_strip_start(s, true);
    let t = s.skip(k);
    let m = lemma_strip_end(t, true);
    let r = t.take(m);
    assert(unquote_spec(s) == r);
    let p = s.take(k);
    let q = t.skip(m);
    assert(s =~= p + r + q);
    assert forall|i: int| 0 <= i < q.len() implies #[trigger] is_quote(q[i]) by {
        assert(q[i] == t[m + i]);
        assert(strippable(t[m + i], true));
    }
    assert forall|i: int| 0 <= i < p.len() implies #[trigger] is_quote(p[i]) by {
        assert(strippable(s[i], true));
    }
    if r.len() > 0 {
        assert(r[0] == s[k]);
        assert(r.last() == t[m - 1]);
    }
}

/// Unquoting twice gives what unquoting once gives.
pub proof fn law_unquote_idempotent(s: Seq<char>)
    ensures
        unquote_spec(unquote_spec(s)) == unquote_spec(s),
{
    law_unquote_decomposition(s);
    let r = unquote_spec(s);
    assert(strip_start(r, true) == r);
    assert(strip_end(r, true) == r);
}

/// A boolean matches exactly the pattern that is its own displayed text (or `_`): `true`
/// matches the arm `true` and not the arm `false`, and `false` the other way round.
pub proof fn law_bool_pattern(p: Seq<char>, b: bool)
    ensures
        arm_matches(p, SValue::Bool(b)) <==> (p == "_"@ || p == display_text(SValue::Bool(b))),
        arm_matches("true"@, SValue::Bool(b)) <==> b,
        arm_matches("false"@, SValue::Bool(b)) <==> !b,
{
    reveal_strlit("true");
    reveal_strlit("false");
    reveal_strlit("_");
    assert("true"@.len() != "false"@.len());
    assert("true"@ != "_"@);
    assert("false"@ != "_"@);
}

/// The ordering operators on two strings agree with one another: `a >= b` is the negation
/// of `a < b`, `a <= b` is the negation of `b < a` (so `a >= b` is `b <= a`), and `a > b`
/// is `b < a`.
pub proof fn law_string_comparisons(a: Seq<char>, b: Seq<char>, sp: Option<SSpan>)
    ensures
        binary_result(SValue::Str(a), BinaryOp::Lt, SValue::Str(b), sp) matches Out::Done(SValue::Bool(lt))
            && binary_result(SValue::Str(a), BinaryOp::Ge, SValue::Str(b), sp) == Out::<SValue>::Done(SValue::Bool(!lt)),
        binary_result(SValue::Str(b), BinaryOp::Lt, SValue::Str(a), sp) matches Out::Done(SValue::Bool(gt))
            && binary_result(SValue::Str(a), BinaryOp::Le, SValue::Str(b), sp) == Out::<SValue>::Done(SValue::Bool(!gt))
            && binary_result(SValue::Str(a), BinaryOp::Gt, SValue::Str(b), sp) == Out::<SValue>::Done(SValue::Bool(gt)),
        binary_result(SValue::Str(a), BinaryOp::Ge, SValue::Str(b), sp)
            == binary_result(SValue::Str(b), BinaryOp::Le, SValue::Str(a), sp),
{
}

/// Strings are ordered by code point, first difference first, a proper prefix before the
/// longer text: `<` holds when the first differing character of `a` is smaller, or when `a`
/// is a proper prefix of `b`, and never both ways.
pub proof fn law_string_order(a: Seq<char>, b: Seq<char>, i: int, sp: Option<SSpan>)
    requires
        0 <= i <= a.len(),
        i <= b.len(),
        a.take(i) == b.take(i),
    ensures
        i < a.len() && i < b.len() && a[i] < b[i]
            ==> binary_result(SValue::Str(a), BinaryOp::Lt, SValue::Str(b), sp) == Out::<SValue>::Done(SValue::Bool(true))
            && binary_result(SValue::Str(b), BinaryOp::Ge, SValue::Str(a), sp) == Out::<SValue>::Done(SValue::Bool(true)),
        i == a.len() && i < b.len()
            ==> binary_result(SValue::Str(a), BinaryOp::Lt, SValue::Str(b), sp) == Out::<SValue>::Done(SValue::Bool(true))
            && binary_result(SValue::Str(b), BinaryOp::Ge, SValue::Str(a), sp) == Out::<SValue>::Done(SValue::Bool(true)),
        text_lt(a, b) ==> !text_lt(b, a),
    decreases i,
{
    lemma_text_lt_asym(a, b);
    if i > 0 {
        assert(a[0] == a.take(i)[0]);
        assert(b[0] == b.take(i)[0]);
        assert(a.drop_first().take(i - 1) =~= a.take(i).drop_first());
        assert(b.drop_first().take(i - 1) =~= b.take(i).drop_first());
        law_string_order(a.drop_first(), b.drop_first(), i - 1, sp);
    }
}

proof fn lemma_text_lt_asym(a: Seq<char>, b: Seq<char>)
    ensures
        text_lt(a, b) ==> !text_lt(b, a),
    decreases a.len(),
{
    if a.len() > 0 && b.len() > 0 && a[0] == b[0] {
        lemma_text_lt_asym(a.drop_first(), b.drop_first());
    }
}

/// `values(m)` lists the values of the entries of `m` and `keys(m)` their keys, in entry
/// order, one for each entry; the state is left as it was.
pub proof fn law_keys_values_in_order(s: SState, m: Seq<(Seq<char>, SValue)>, rest: Seq<SValue>)
    ensures
        builtin_result(s, Builtin::Values, seq![SValue::Dict(m)] + rest) matches Out::Done((s1, SValue::List(vs)))
            && s1 == s && vs.len() == m.len() && forall|i: int| 0 <= i < m.len() ==> #[trigger] vs[i] == m[i].1,
        builtin_result(s, Builtin::Keys, seq![SValue::Dict(m)] + rest) matches Out::Done((s1, SValue::List(ks)))
            && s1 == s && ks.len() == m.len() && forall|i: int| 0 <= i < m.len() ==> #[trigger] ks[i] == SValue::Str(m[i].0),
{
    reveal(builtin_result);
    let args = seq![SValue::Dict(m)] + rest;
    assert(args[0] == SValue::Dict(m));
}

/// In a two-pattern loop over a list, iteration `j` binds the first pattern to the index
/// `j` and the second to the item, as constants of the loop's scope; other scopes stay.
pub proof fn law_list_loop_patterns(s: SState, pats: Seq<String>, k: int, j: int, item: SValue)
    requires
        pats.len() == 2,
        pats[0]@ != pats[1]@,
        0 <= k < s.scopes.len(),
        i64::MIN <= j <= i64::MAX,
    ensures
        ({
            let s2 = bind_list_patterns(s, pats, k, j, item);
            &&& s2.scopes.len() == s.scopes.len()
            &&& assoc_get(s2.scopes[k].vars, pats[0]@) == Some(SBinding { value: SValue::Int(j as i64), is_const: true })
            &&& assoc_get(s2.scopes[k].vars, pats[1]@) == Some(SBinding { value: item, is_const: true })
            &&& forall|q: int| 0 <= q < s.scopes.len() && q != k ==> #[trigger] s2.scopes[q] == s.scopes[q]
        }),
{
    let s1 = insert_loop_var(s, k, pats[0]@, SValue::Int(j as i64));
    let b0 = SBinding { value: SValue::Int(j as i64), is_const: true };
    let b1 = SBinding { value: item, is_const: true };
    lemma_put_get(s.scopes[k].vars, pats[0]@, b0);
    lemma_put_get(s1.scopes[k].vars, pats[1]@, b1);
    lemma_put_other(s1.scopes[k].vars, pats[0]@, pats[1]@, b1);
}

/// An escape written with a letter or a digit stands for a control character (a code
/// below 32), never for that letter or digit; any other escape stands for the character
/// written; and no two escapes stand for the same character.
pub proof fn law_escapes(c: char, d: char)
    ensures
        escape_target(c) matches Some(x) ==> (
            if ('a' <= c <= 'z') || ('0' <= c <= '9') { (x as u32) < 32 && x != c } else { x == c }),
        escape_target(c) is Some && escape_target(c) == escape_target(d) ==> c == d,
        escape_target('n') == Some('\n') && escape_target('t') == Some('\t') && escape_target('r') == Some('\r')
            && escape_target('0') == Some('\0'),
{
}

/// A value matches the pattern that is its own text: an integer, a boolean or `null` its
/// displayed text, a string its characters; and `_` matches every value.
pub proof fn law_value_matches_own_text(v: SValue)
    ensures
        arm_matches("_"@, v),
        (v is Int || v is Bool || v is Null) ==> arm_matches(display_text(v), v),
        v matches SValue::Str(s) ==> arm_matches(s, v),
{
}

} // verus!
