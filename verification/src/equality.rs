//! Equality of values (as `==` compares them), used by `contains`.
use vstd::prelude::*;
use crate::format::{
    has_float, has_float_entries, has_float_list, has_float_node, has_float_nodes,
    lemma_has_float_entries, lemma_has_float_list, lemma_has_float_nodes,
};
use crate::host::Host;
use crate::value::{
    ResolvedNode, SNode, Value, lemma_view_entries, lemma_view_nodes, lemma_view_values, str_eq,
    view_entries, view_node, view_nodes, view_value, view_values,
};

verus! {

/// Whether two values are equal; floats are compared by the host.
pub fn value_eq<H: Host>(a: &Value, b: &Value, host: &mut H) -> (r: bool)
    ensures
        !has_float(a@) && !has_float(b@) ==> r == (a@ == b@),
    decreases a,
{
    match a {
        Value::Int(x) => match b { Value::Int(y) => *x == *y, _ => false },
        Value::Float(x) => match b { Value::Float(y) => host.float_eq(*x, *y), _ => false },
        Value::Bool(x) => match b { Value::Bool(y) => *x == *y, _ => false },
        Value::Str(x) => match b { Value::Str(y) => str_eq(x.as_str(), y.as_str()), _ => false },
        Value::List(x) => match b {
            Value::List(y) => {
                proof { assert(decreases_to!(*a => *x)); }
                values_eq(x, y, host)
            },
            _ => false,
        },
        Value::Range(p, q) => match b { Value::Range(p2, q2) => *p == *p2 && *q == *q2, _ => false },
        Value::Dict(x) => match b {
            Value::Dict(y) => {
                proof { assert(decreases_to!(*a => *x)); }
                entries_eq(x, y, host)
            },
            _ => false,
        },
        Value::Node(x) => match b {
            Value::Node(y) => {
                proof { assert(decreases_to!(*a => *x)); }
                nodes_eq(x, y, host)
            },
            _ => false,
        },
        Value::Lambda(x) => match b { Value::Lambda(y) => str_eq(x.as_str(), y.as_str()), _ => false },
        Value::Object(x) => match b { Value::Object(y) => str_eq(x.as_str(), y.as_str()), _ => false },
        Value::Null => match b { Value::Null => true, _ => false },
    }
}

/// Whether two lists of values are equal, element by element.
pub fn values_eq<H: Host>(x: &Vec<Value>, y: &Vec<Value>, host: &mut H) -> (r: bool)
    ensures
        !has_float_list(view_values(x@)) && !has_float_list(view_values(y@)) ==> r == (view_values(x@) == view_values(y@)),
    decreases x,
{
    proof {
        lemma_view_values(x@);
        lemma_view_values(y@);
        lemma_has_float_list(view_values(x@));
        lemma_has_float_list(view_values(y@));
    }
    if x.len() != y.len() {
        return false;
    }
    let mut k: usize = 0;
    while k < x.len()
        invariant
            k <= x@.len(),
            x@.len() == y@.len(),
            view_values(x@).len() == x@.len(),
            view_values(y@).len() == y@.len(),
            forall|i: int| 0 <= i < x@.len() ==> #[trigger] view_values(x@)[i] == view_value(x@[i]),
            forall|i: int| 0 <= i < y@.len() ==> #[trigger] view_values(y@)[i] == view_value(y@[i]),
            !has_float_list(view_values(x@)) ==> forall|i: int| 0 <= i < x@.len() ==> !has_float(#[trigger] view_values(x@)[i]),
            !has_float_list(view_values(y@)) ==> forall|i: int| 0 <= i < y@.len() ==> !has_float(#[trigger] view_values(y@)[i]),
            !has_float_list(view_values(x@)) && !has_float_list(view_values(y@)) ==> forall|i: int| 0 <= i < k ==> #[trigger] view_values(x@)[i] == view_values(y@)[i],
        decreases x@.len() - k,
    {
        proof {
            assert(decreases_to!(*x => x@));
            assert(decreases_to!(x@ => x@[k as int]));
            assert(view_values(x@)[k as int] == x@[k as int]@);
            assert(view_values(y@)[k as int] == y@[k as int]@);
        }
        if !value_eq(&x[k], &y[k], host) {
            return false;
        }
        k = k + 1;
    }
    proof {
        if !has_float_list(view_values(x@)) && !has_float_list(view_values(y@)) {
            assert(view_values(x@) =~= view_values(y@));
        }
    }
    true
}

/// Whether two lists of map entries are equal, entry by entry.
pub fn entries_eq<H: Host>(x: &Vec<(String, Value)>, y: &Vec<(String, Value)>, host: &mut H) -> (r: bool)
    ensures
        !has_float_entries(view_entries(x@)) && !has_float_entries(view_entries(y@)) ==> r == (view_entries(x@) == view_entries(y@)),
    decreases x,
{
    proof {
        lemma_view_entries(x@);
        lemma_view_entries(y@);
        lemma_has_float_entries(view_entries(x@));
        lemma_has_float_entries(view_entries(y@));
    }
    if x.len() != y.len() {
        return false;
    }
    let mut k: usize = 0;
    while k < x.len()
        invariant
            k <= x@.len(),
            x@.len() == y@.len(),
            view_entries(x@).len() == x@.len(),
            view_entries(y@).len() == y@.len(),
            forall|i: int| 0 <= i < x@.len() ==> #[trigger] view_entries(x@)[i] == (x@[i].0@, view_value(x@[i].1)),
            forall|i: int| 0 <= i < y@.len() ==> #[trigger] view_entries(y@)[i] == (y@[i].0@, view_value(y@[i].1)),
            !has_float_entries(view_entries(x@)) ==> forall|i: int| 0 <= i < x@.len() ==> !has_float(#[trigger] view_entries(x@)[i].1),
            !has_float_entries(view_entries(y@)) ==> forall|i: int| 0 <= i < y@.len() ==> !has_float(#[trigger] view_entries(y@)[i].1),
            !has_float_entries(view_entries(x@)) && !has_float_entries(view_entries(y@)) ==> forall|i: int| 0 <= i < k ==> #[trigger] view_entries(x@)[i] == view_entries(y@)[i],
        decreases x@.len() - k,
    {
        proof {
            assert(decreases_to!(*x => x@));
            assert(decreases_to!(x@ => x@[k as int]));
            assert(decreases_to!(x@[k as int] => x@[k as int].1));
            assert(view_entries(x@)[k as int] == (x@[k as int].0@, x@[k as int].1@));
            assert(view_entries(y@)[k as int] == (y@[k as int].0@, y@[k as int].1@));
        }
        if !str_eq(x[k].0.as_str(), y[k].0.as_str()) {
            assert(view_entries(x@)[k as int] != view_entries(y@)[k as int]);
            return false;
        }
        if !value_eq(&x[k].1, &y[k].1, host) {
            proof {
                if !has_float_entries(view_entries(x@)) && !has_float_entries(view_entries(y@)) {
                    assert(!has_float(view_entries(x@)[k as int].1));
                    assert(!has_float(view_entries(y@)[k as int].1));
                    assert(view_entries(x@)[k as int] != view_entries(y@)[k as int]);
                }
            }
            return false;
        }
        k = k + 1;
    }
    proof {
        if !has_float_entries(view_entries(x@)) && !has_float_entries(view_entries(y@)) {
            assert(view_entries(x@) =~= view_entries(y@));
        }
    }
    true
}

/// Whether two optional strings are equal.
fn opt_str_eq(a: &Option<String>, b: &Option<String>) -> (r: bool)
    ensures
        r == (crate::value::opt_str_view(*a) == crate::value::opt_str_view(*b)),
{
    match a {
        Some(x) => match b { Some(y) => str_eq(x.as_str(), y.as_str()), None => false },
        None => match b { Some(_) => false, None => true },
    }
}

/// Whether two resolved nodes are equal.
pub fn node_eq<H: Host>(a: &ResolvedNode, b: &ResolvedNode, host: &mut H) -> (r: bool)
    ensures
        !has_float_node(a@) && !has_float_node(b@) ==> r == (a@ == b@),
    decreases a,
{
    proof {
        assert(decreases_to!(*a => a.props));
        assert(decreases_to!(*a => a.children));
    }
    let t = str_eq(a.node_type.as_str(), b.node_type.as_str());
    let i = opt_str_eq(&a.id, &b.id);
    let p = entries_eq(&a.props, &b.props, host);
    let c = nodes_eq(&a.children, &b.children, host);
    t && i && p && c
}

/// Whether two lists of resolved nodes are equal, node by node.
pub fn nodes_eq<H: Host>(x: &Vec<ResolvedNode>, y: &Vec<ResolvedNode>, host: &mut H) -> (r: bool)
    ensures
        !has_float_nodes(view_nodes(x@)) && !has_float_nodes(view_nodes(y@)) ==> r == (view_nodes(x@) == view_nodes(y@)),
    decreases x,
{
    proof {
        lemma_view_nodes(x@);
        lemma_view_nodes(y@);
        lemma_has_float_nodes(view_nodes(x@));
        lemma_has_float_nodes(view_nodes(y@));
    }
    if x.len() != y.len() {
        return false;
    }
    let mut k: usize = 0;
    while k < x.len()
        invariant
            k <= x@.len(),
            x@.len() == y@.len(),
            view_nodes(x@).len() == x@.len(),
            view_nodes(y@).len() == y@.len(),
            forall|i: int| 0 <= i < x@.len() ==> #[trigger] view_nodes(x@)[i] == view_node(x@[i]),
            forall|i: int| 0 <= i < y@.len() ==> #[trigger] view_nodes(y@)[i] == view_node(y@[i]),
            !has_float_nodes(view_nodes(x@)) ==> forall|i: int| 0 <= i < x@.len() ==> !has_float_node(#[trigger] view_nodes(x@)[i]),
            !has_float_nodes(view_nodes(y@)) ==> forall|i: int| 0 <= i < y@.len() ==> !has_float_node(#[trigger] view_nodes(y@)[i]),
            !has_float_nodes(view_nodes(x@)) && !has_float_nodes(view_nodes(y@)) ==> forall|i: int| 0 <= i < k ==> #[trigger] view_nodes(x@)[i] == view_nodes(y@)[i],
        decreases x@.len() - k,
    {
        proof {
            assert(decreases_to!(*x => x@));
            assert(decreases_to!(x@ => x@[k as int]));
            assert(view_nodes(x@)[k as int] == x@[k as int]@);
            assert(view_nodes(y@)[k as int] == y@[k as int]@);
        }
        if !node_eq(&x[k], &y[k], host) {
            return false;
        }
        k = k + 1;
    }
    proof {
        if !has_float_nodes(view_nodes(x@)) && !has_float_nodes(view_nodes(y@)) {
            assert(view_nodes(x@) =~= view_nodes(y@));
        }
    }
    true
}

/// Whether a list holds a value equal to `x`.
pub fn list_contains<H: Host>(l: &Vec<Value>, x: &Value, host: &mut H) -> (r: bool)
    ensures
        !has_float_list(view_values(l@)) && !has_float(x@) ==> r == view_values(l@).contains(x@),
{
    proof {
        lemma_view_values(l@);
        lemma_has_float_list(view_values(l@));
    }
    let ghost sv = view_values(l@);
    let mut k: usize = 0;
    while k < l.len()
        invariant
            k <= l@.len(),
            sv == view_values(l@),
            sv.len() == l@.len(),
            forall|i: int| 0 <= i < l@.len() ==> #[trigger] sv[i] == view_value(l@[i]),
            !has_float_list(sv) ==> forall|i: int| 0 <= i < sv.len() ==> !has_float(#[trigger] sv[i]),
            forall|i: int| 0 <= i < k ==> #[trigger] sv[i] != x@ || has_float_list(sv) || has_float(x@),
        decreases l@.len() - k,
    {
        assert(sv[k as int] == l@[k as int]@);
        if value_eq(&l[k], x, host) {
            proof {
                if !has_float_list(sv) && !has_float(x@) {
                    assert(sv[k as int] == x@);
                }
            }
            return true;
        }
        k = k + 1;
    }
    false
}

} // verus!
