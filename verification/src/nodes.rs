//! Resolution of node invocations: native nodes and component expansion.
use vstd::prelude::*;
use std::rc::Rc;
use crate::ast::{ComponentDef, ComponentInterface, Expr, NodeInvocation, NodeItem, Parameter};
use crate::error::{NbclError, Span, opt_string_view};
use crate::format::{debug_type_string, push_debug_str};
use crate::host::Host;
use crate::interp::{did_you_mean, keys_of};
use crate::ops::{err_at, err_hint_at, step_error};
use crate::registry::{
    PropValidation, SPropValidation, assoc_get, find_key, get_entry, lemma_entries_deep_view,
    lemma_first_key_index, put_entry, share,
};
use crate::semantics::{
    bind_strict, check_constraints, component_id, component_vars, expand_component, node_id,
    node_item, node_items, nodes_res, remove_key, resolve_node, strict_error, err_res, missing_prop_hint, param_names,
};
use crate::utils::names_view;
use crate::state::{Binding, Evaluator, Out, SBinding, SErr, SScope, SState, Scope, ScopeKind, err_core, rt};
use crate::text::{concat2, concat3, i64_to_string, push_str, to_owned_string, u64_to_string, usize_to_string};
use crate::value::{
    ResolvedNode, SNode, SValue, Type, Value, clone_nodes, clone_value, extend_nodes, lemma_view_entries,
    lemma_view_nodes, lemma_view_values, opt_str_view, view_entries, view_nodes,
};

use crate::host::grows;
use crate::state::{frame_kept, frame_left, same_frame};

verus! {

/// An executable result agrees with an outcome that is a state and an optional id.
pub open spec fn id_res(o: Out<(SState, Option<Seq<char>>)>, fin: SState, r: Result<Option<String>, NbclError>) -> bool {
    match o {
        Out::Done((s, id)) => r matches Ok(x) && opt_str_view(x) == id && fin == s,
        Out::Fail(e) => err_res(e, r),
        Out::Host => true,
    }
}

/// An executable result agrees with the outcome of resolving node items.
pub open spec fn items_res(o: Out<(SState, Seq<(Seq<char>, SValue)>, Seq<SNode>)>, fin: SState,
    r: Result<(Vec<(String, Value)>, Vec<ResolvedNode>), NbclError>) -> bool
{
    match o {
        Out::Done((s, p, c)) => r matches Ok((x, y)) && view_entries(x@) == p && view_nodes(y@) == c && fin == s,
        Out::Fail(e) => err_res(e, r),
        Out::Host => true,
    }
}

/// The first property that a strict schema refuses, as an error.
fn strict_check(allowed: &Vec<(String, Type)>, props: &Vec<(String, Value)>, ty: &str, span: &Span) -> (r: Option<NbclError>)
    ensures
        match strict_error(allowed.deep_view(), view_entries(props@), ty@, span@, 0) {
            Some(e) => r matches Some(x) && err_core(x@) == e,
            None => r is None,
        },
{
    let ghost al = allowed.deep_view();
    let ghost pv = view_entries(props@);
    proof { lemma_view_entries(props@); }
    let mut k: usize = 0;
    while k < props.len()
        invariant
            k <= props@.len(),
            al == allowed.deep_view(),
            pv == view_entries(props@),
            pv.len() == props@.len(),
            forall|i: int| 0 <= i < props@.len() ==> #[trigger] pv[i] == (props@[i].0@, props@[i].1@),
            strict_error(al, pv, ty@, span@, 0) == strict_error(al, pv, ty@, span@, k as int),
        decreases props@.len() - k,
    {
        let key = &props[k].0;
        let value = &props[k].1;
        match get_entry(allowed, key.as_str()) {
            Some(t) => {
                if !t.matches_value(value) {
                    let mut msg = concat3("type mismatch for '", key.as_str(), "' on '");
                    push_str(&mut msg, ty);
                    push_str(&mut msg, "': expected ");
                    push_str(&mut msg, debug_type_string(t).as_str());
                    push_str(&mut msg, ", found ");
                    push_debug_str(&mut msg, value.kind_name());
                    return Some(err_at(msg, span));
                }
            },
            None => {
                let mut msg = concat3("property '", key.as_str(), "' is not allowed on node '");
                push_str(&mut msg, ty);
                push_str(&mut msg, "'");
                let names = keys_of(allowed);
                let hint = did_you_mean(key.as_str(), &names);
                return Some(err_hint_at(msg, hint, span));
            },
        }
        k = k + 1;
    }
    None
}

/// The entries of `props` without the first one keyed `k`.
fn remove_entry(props: &mut Vec<(String, Value)>, k: &str)
    ensures
        view_entries(final(props)@) == remove_key(view_entries(old(props)@), k@),
{
    proof { lemma_entries_deep_view(*props); lemma_view_entries(props@); }
    let ghost pv = view_entries(props@);
    match find_key(props, k) {
        Some(i) => {
            props.remove(i);
            proof {
                lemma_view_entries(props@);
                assert(view_entries(props@) =~= pv.remove(i as int));
            }
        },
        None => {},
    }
}

/// The variables of a component's scope: `self` and the interface's bindings.
#[verifier::loop_isolation(false)]
fn component_vars_exec(def: &ComponentDef, id: Value, props: Vec<(String, Value)>, children: Vec<ResolvedNode>, span: &Span)
    -> (r: Result<Vec<(String, Binding)>, NbclError>)
    ensures
        match component_vars(*def, id@, view_entries(props@), view_nodes(children@), span@) {
            Ok(vars) => r matches Ok(x) && x.deep_view() == vars,
            Err(e) => err_res(e, r),
        },
{
    let ghost pv = view_entries(props@);
    let ghost whole = component_vars(*def, id@, view_entries(props@), view_nodes(children@), span@);
    let mut meta: Vec<(String, Value)> = Vec::new();
    meta.push((to_owned_string("id"), id));
    meta.push((to_owned_string("children"), Value::Node(children)));
    proof {
        lemma_view_entries(meta@);
    }
    let meta_v = Value::Dict(meta);
    let mut vars: Vec<(String, Binding)> = Vec::new();
    vars.push((to_owned_string("self"), Binding { value: meta_v, is_const: false }));
    proof {
        assert(view_entries(meta@) =~= seq![("id"@, id@), ("children"@, SValue::Node(view_nodes(children@)))]);
        assert(vars.deep_view() =~= seq![("self"@, SBinding { value: meta_v@, is_const: false })]);
    }
    match &def.interface {
        ComponentInterface::Loose(name) => {
            put_entry(&mut vars, name.clone(), Binding { value: Value::Dict(props), is_const: false });
            Ok(vars)
        },
        ComponentInterface::Strict(params) => {
            let mut props = props;
            assert(whole == bind_strict(*def, params@, view_entries(props@), vars.deep_view(), span@, 0));
            let mut k: usize = 0;
            while k < params.len()
                invariant
                    k <= params@.len(),
                    whole == bind_strict(*def, params@, view_entries(props@), vars.deep_view(), span@, k as int),
                decreases params@.len() - k,
            {
                let p = &params[k];
                proof { lemma_entries_deep_view(props); lemma_view_entries(props@); }
                let found = match get_entry(&props, p.name.as_str()) {
                    Some(v) => Some(clone_value(v)),
                    None => None,
                };
                match found {
                    Some(v) => {
                        let bad = match &p.type_hint {
                            Some(h) => match Type::from_str(h.as_str()) {
                                Some(t) => !t.matches_value(&v),
                                None => false,
                            },
                            None => false,
                        };
                        if bad {
                            let h = match &p.type_hint { Some(h) => h.clone(), None => String::new() };
                            let mut msg = concat3("component '", def.name.as_str(), "' expected ");
                            push_str(&mut msg, h.as_str());
                            push_str(&mut msg, " for prop '");
                            push_str(&mut msg, p.name.as_str());
                            push_str(&mut msg, "', got ");
                            push_str(&mut msg, v.kind_name());
                            return Err(err_at(msg, span));
                        }
                        remove_entry(&mut props, p.name.as_str());
                        put_entry(&mut vars, p.name.clone(), Binding { value: v, is_const: false });
                    },
                    None => {
                        if !p.is_optional {
                            let names = keys_of(&props);
                            let hint = match crate::utils::find_best_match(p.name.as_str(), &names) {
                                Some(s) => {
                                    let mut h = concat3("You provided \"", s.as_str(), "\", which is not a parameter. Did you mean \"");
                                    push_str(&mut h, p.name.as_str());
                                    push_str(&mut h, "\"?");
                                    proof {
                                        reveal_strlit("You provided \"");
                                        reveal_strlit("\", which is not a parameter. Did you mean \"");
                                        reveal_strlit("\"?");
                                        assert(h@ =~= "You provided \""@ + s@ + "\", which is not a parameter. Did you mean \""@ + p.name@ + "\"?"@);
                                    }
                                    Some(h)
                                },
                                None => None,
                            };
                            assert(opt_string_view(hint) == missing_prop_hint(p.name@, view_entries(props@)));
                            let mut msg = concat3("missing required prop '", p.name.as_str(), "' for component '");
                            push_str(&mut msg, def.name.as_str());
                            push_str(&mut msg, "'");
                            return Err(err_hint_at(msg, hint, span));
                        }
                        put_entry(&mut vars, p.name.clone(), Binding { value: Value::Null, is_const: false });
                    },
                }
                k = k + 1;
            }
            proof { lemma_view_entries(props@); }
            if props.len() > 0 {
                let mut names: Vec<String> = Vec::new();
                let mut j: usize = 0;
                while j < params.len()
                    invariant
                        j <= params@.len(),
                        names_view(names@) == param_names(params@).take(j as int),
                    decreases params@.len() - j,
                {
                    let ghost before = names@;
                    names.push(params[j].name.clone());
                    proof {
                        assert(names_view(names@) =~= names_view(before).push(params@[j as int].name@));
                        assert(param_names(params@).take(j + 1) =~= param_names(params@).take(j as int).push(params@[j as int].name@));
                    }
                    j = j + 1;
                }
                assert(param_names(params@).take(params@.len() as int) =~= param_names(params@));
                let hint = did_you_mean(props[0].0.as_str(), &names);
                let mut msg = concat3("unexpected property '", props[0].0.as_str(), "' for component '");
                push_str(&mut msg, def.name.as_str());
                push_str(&mut msg, "'");
                return Err(err_hint_at(msg, hint, span));
            }
            Ok(vars)
        },
        ComponentInterface::Empty => Ok(vars),
    }
}

impl Evaluator {
    /// Resolves a node invocation into nodes.
    pub fn resolve_node<H: Host>(&mut self, inv: &NodeInvocation, fuel: u64, host: &mut H) -> (r: Result<Vec<ResolvedNode>, NbclError>)
        ensures
            grows(old(self).host_calls@, final(self).host_calls@),
            final(self).import_features == old(self).import_features,
            frame_kept(old(self).deep_view(), final(self).deep_view(), r),
            nodes_res(resolve_node(old(self).deep_view(), *inv, fuel as nat), final(self).deep_view(), r),
        decreases fuel,
    {
        if fuel == 0 {
            return Err(step_error());
        }
        let f = fuel - 1;
        let ty = inv.node_type.as_str();
        let comp = match get_entry(&self.registry.components, ty) {
            Some(d) => Some(share(d)),
            None => None,
        };
        match comp {
            Some(def) => { return self.expand_component(&def, inv, f, host); },
            None => {},
        }
        let id = match self.node_id(&inv.id, f, host) {
            Ok(x) => x,
            Err(err) => { return Err(err); },
        };
        let schema = match get_entry(&self.registry.native_nodes, ty) {
            Some(s) => Some(s.copy()),
            None => None,
        };
        match schema {
            Some(sc) => {
                if sc.enforce_id && id.is_none() {
                    return Err(err_hint_at(concat3("node '", ty, "' requires an #id"),
                        Some(to_owned_string("Try providing an id like this: 'Object \"id\" { ... }'.")), &inv.span));
                }
                let (props, children) = match self.node_items(&inv.body, Vec::new(), Vec::new(), f, host) {
                    Ok(x) => x,
                    Err(err) => { return Err(err); },
                };
                match &sc.validation {
                    PropValidation::Strict(allowed) => match strict_check(allowed, &props, ty, &inv.span) {
                        Some(e) => { return Err(e); },
                        None => {},
                    },
                    PropValidation::Loose => {},
                }
                proof { lemma_view_nodes(children@); }
                match sc.child_count {
                    Some((lo, hi)) => {
                        let n = children.len();
                        if n < lo as usize || n > hi as usize {
                            let mut msg = concat3("node '", ty, "' requires between ");
                            push_str(&mut msg, u64_to_string(lo as u64).as_str());
                            push_str(&mut msg, " and ");
                            push_str(&mut msg, u64_to_string(hi as u64).as_str());
                            push_str(&mut msg, " children, but got ");
                            push_str(&mut msg, usize_to_string(n).as_str());
                            proof {
                                reveal_strlit("node '");
                                reveal_strlit("' requires between ");
                                reveal_strlit(" and ");
                                reveal_strlit(" children, but got ");
                            }
                            return Err(err_at(msg, &inv.span));
                        }
                    },
                    None => {},
                }
                let node = ResolvedNode { node_type: inv.node_type.clone(), id, props, children };
                let mut out: Vec<ResolvedNode> = Vec::new();
                out.push(node);
                proof {
                    lemma_view_nodes(out@);
                    assert(view_nodes(out@) =~= seq![node@]);
                }
                Ok(out)
            },
            None => {
                let mut names = keys_of(&self.registry.native_nodes);
                let mut more = keys_of(&self.registry.components);
                let ghost n0 = names@;
                let ghost m0 = more@;
                names.append(&mut more);
                assert(names_view(names@) =~= names_view(n0) + names_view(m0));
                let hint = did_you_mean(ty, &names);
                Err(err_hint_at(concat2("unknown node or component: ", ty), hint, &inv.span))
            },
        }
    }

    /// The id of a native node.
    pub fn node_id<H: Host>(&mut self, id: &Option<Expr>, fuel: u64, host: &mut H) -> (r: Result<Option<String>, NbclError>)
        ensures
            grows(old(self).host_calls@, final(self).host_calls@),
            final(self).import_features == old(self).import_features,
            frame_kept(old(self).deep_view(), final(self).deep_view(), r),
            id_res(node_id(old(self).deep_view(), *id, fuel as nat), final(self).deep_view(), r),
        decreases fuel,
    {
        if fuel == 0 {
            return Err(step_error());
        }
        match id {
            None => Ok(None),
            Some(e) => {
                let v = match self.eval_expr(e, fuel - 1, host) {
                    Ok(v) => v,
                    Err(err) => { return Err(err); },
                };
                match v {
                    Value::Str(s) => Ok(Some(s)),
                    Value::Null => Ok(None),
                    _ => Err(err_hint_at(concat2("expected string for node ID, found ", v.kind_name()),
                        Some(to_owned_string("If you're passing a variable, ensure it contains a string.")), &e.span)),
                }
            },
        }
    }

    /// The id of a component invocation.
    pub fn component_id<H: Host>(&mut self, id: &Option<Expr>, fuel: u64, host: &mut H) -> (r: Result<Value, NbclError>)
        ensures
            grows(old(self).host_calls@, final(self).host_calls@),
            final(self).import_features == old(self).import_features,
            frame_kept(old(self).deep_view(), final(self).deep_view(), r),
            crate::semantics::val_res(component_id(old(self).deep_view(), *id, fuel as nat), final(self).deep_view(), r),
        decreases fuel,
    {
        if fuel == 0 {
            return Err(step_error());
        }
        match id {
            None => Ok(Value::Null),
            Some(e) => {
                let v = match self.eval_expr(e, fuel - 1, host) {
                    Ok(v) => v,
                    Err(err) => { return Err(err); },
                };
                match v {
                    Value::Str(_) => Ok(v),
                    Value::Null => Ok(v),
                    _ => {
                        let mut hint = concat2("Got a ", v.kind_name());
                        push_str(&mut hint, " instead.");
                        proof {
                            reveal_strlit("Got a ");
                            reveal_strlit(" instead.");
                        }
                        Err(err_hint_at(to_owned_string("node ID must resolve to a string"), Some(hint), &e.span))
                    },
                }
            },
        }
    }

    /// Resolves the items of a node body into properties and children.
    #[verifier::loop_isolation(false)]
    pub fn node_items<H: Host>(&mut self, items: &Vec<NodeItem>, props: Vec<(String, Value)>, children: Vec<ResolvedNode>,
        fuel: u64, host: &mut H) -> (r: Result<(Vec<(String, Value)>, Vec<ResolvedNode>), NbclError>)
        ensures
            grows(old(self).host_calls@, final(self).host_calls@),
            final(self).import_features == old(self).import_features,
            frame_kept(old(self).deep_view(), final(self).deep_view(), r),
            items_res(node_items(old(self).deep_view(), items@, 0, view_entries(props@), view_nodes(children@), fuel as nat),
                final(self).deep_view(), r),
        decreases fuel,
    {
        let ghost p0 = view_entries(props@);
        let ghost c0 = view_nodes(children@);
        let ghost whole = node_items(self.deep_view(), items@, 0, p0, c0, fuel as nat);
        if fuel == 0 {
            return Err(step_error());
        }
        let mut props = props;
        let mut children = children;
        let mut i: usize = 0;
        while i < items.len()
            invariant
                grows(old(self).host_calls@, self.host_calls@),
                self.import_features == old(self).import_features,
                same_frame(old(self).deep_view(), self.deep_view()),
                fuel > 0,
                i <= items@.len(),
                whole == node_items(old(self).deep_view(), items@, 0, p0, c0, fuel as nat),
                whole is Host || whole == node_items(self.deep_view(), items@, i as int, view_entries(props@), view_nodes(children@), fuel as nat),
            decreases items@.len() - i,
        {
            let (p1, c1) = match self.node_item(&items[i], props, children, fuel - 1, host) {
                Ok(x) => x,
                Err(err) => { return Err(err); },
            };
            props = p1;
            children = c1;
            i = i + 1;
        }
        Ok((props, children))
    }

    /// Resolves one item of a node body.
    pub fn node_item<H: Host>(&mut self, item: &NodeItem, props: Vec<(String, Value)>, children: Vec<ResolvedNode>,
        fuel: u64, host: &mut H) -> (r: Result<(Vec<(String, Value)>, Vec<ResolvedNode>), NbclError>)
        ensures
            grows(old(self).host_calls@, final(self).host_calls@),
            final(self).import_features == old(self).import_features,
            frame_kept(old(self).deep_view(), final(self).deep_view(), r),
            items_res(node_item(old(self).deep_view(), *item, view_entries(props@), view_nodes(children@), fuel as nat),
                final(self).deep_view(), r),
        decreases fuel,
    {
        if fuel == 0 {
            return Err(step_error());
        }
        let mut props = props;
        let mut children = children;
        match item {
            NodeItem::Prop(key, e, _) => {
                let v = match self.eval_expr(e, fuel - 1, host) {
                    Ok(v) => v,
                    Err(err) => { return Err(err); },
                };
                proof { lemma_entries_deep_view(props); }
                put_entry(&mut props, key.clone(), v);
                proof { lemma_entries_deep_view(props); }
            },
            NodeItem::Child(inv) => {
                let ns = match self.resolve_node(inv, fuel - 1, host) {
                    Ok(x) => x,
                    Err(err) => { return Err(err); },
                };
                extend_nodes(&mut children, ns);
            },
            NodeItem::Stmt(x) => {
                let v = match self.exec_stmt(x, fuel - 1, host) {
                    Ok(v) => v,
                    Err(err) => { return Err(err); },
                };
                match v {
                    Value::Node(ns) => { extend_nodes(&mut children, ns); },
                    _ => {},
                }
            },
        }
        Ok((props, children))
    }

    /// Checks the `id_required` and `child_count` properties of a component's body.
    pub fn check_constraints<H: Host>(&mut self, def: &ComponentDef, id: &Value, count: usize, span: &Span, fuel: u64, host: &mut H)
        -> (r: Result<(), NbclError>)
        ensures
            grows(old(self).host_calls@, final(self).host_calls@),
            final(self).import_features == old(self).import_features,
            frame_kept(old(self).deep_view(), final(self).deep_view(), r),
            crate::semantics::unit_res(check_constraints(old(self).deep_view(), *def, def.body@, 0, id@, count as int, span@, fuel as nat),
                final(self).deep_view(), r),
        decreases fuel,
    {
        let ghost whole = check_constraints(self.deep_view(), *def, def.body@, 0, id@, count as int, span@, fuel as nat);
        if fuel == 0 {
            return Err(step_error());
        }
        let id_is_null = match id { Value::Null => true, _ => false };
        let mut i: usize = 0;
        while i < def.body.len()
            invariant
                grows(old(self).host_calls@, self.host_calls@),
                self.import_features == old(self).import_features,
                same_frame(old(self).deep_view(), self.deep_view()),
                fuel > 0,
                i <= def.body@.len(),
                id_is_null == (id@ == SValue::Null),
                whole == check_constraints(old(self).deep_view(), *def, def.body@, 0, id@, count as int, span@, fuel as nat),
                whole is Host || whole == check_constraints(self.deep_view(), *def, def.body@, i as int, id@, count as int, span@, fuel as nat),
            decreases def.body@.len() - i,
        {
            match &def.body[i] {
                NodeItem::Prop(key, e, _) => {
                    let c = match self.eval_expr(e, fuel - 1, host) {
                        Ok(v) => v,
                        Err(err) => { return Err(err); },
                    };
                    if crate::value::str_eq(key.as_str(), "id_required") {
                        let required = match c { Value::Bool(b) => b, _ => false };
                        if required && id_is_null {
                            let mut msg = concat3("component '", def.name.as_str(), "' requires an id");
                            let mut hint = concat2("Usage: ", def.name.as_str());
                            push_str(&mut hint, " \"my_id\" { ... }");
                            proof {
                                reveal_strlit("Usage: ");
                                reveal_strlit(" \"my_id\" { ... }");
                            }
                            return Err(err_hint_at(msg, Some(hint), span));
                        }
                    } else if crate::value::str_eq(key.as_str(), "child_count") {
                        match c {
                            Value::Int(expected) => {
                                if (count as i128) != (expected as i128) {
                                    let mut msg = concat3("component '", def.name.as_str(), "' requires exactly ");
                                    push_str(&mut msg, i64_to_string(expected).as_str());
                                    push_str(&mut msg, " ");
                                    push_str(&mut msg, if expected == 1 { "child" } else { "children" });
                                    push_str(&mut msg, ", but got ");
                                    push_str(&mut msg, usize_to_string(count).as_str());
                                    return Err(err_at(msg, span));
                                }
                            },
                            Value::List(r) => {
                                proof { lemma_view_values(r@); }
                                if r.len() == 2 {
                                    match (&r[0], &r[1]) {
                                        (Value::Int(lo), Value::Int(hi)) => {
                                            if (count as i128) < (*lo as i128) || (count as i128) > (*hi as i128) {
                                                let mut msg = concat3("component '", def.name.as_str(), "' requires between ");
                                                push_str(&mut msg, i64_to_string(*lo).as_str());
                                                push_str(&mut msg, " and ");
                                                push_str(&mut msg, i64_to_string(*hi).as_str());
                                                push_str(&mut msg, " children, but got ");
                                                push_str(&mut msg, usize_to_string(count).as_str());
                                                return Err(err_at(msg, span));
                                            }
                                        },
                                        _ => {},
                                    }
                                } else {
                                    return Err(err_at(to_owned_string("property 'child_count' must be an integer or a list of 2 integers"), &e.span));
                                }
                            },
                            _ => {
                                return Err(err_at(to_owned_string("property 'child_count' must be an integer or a list of 2 integers"), &e.span));
                            },
                        }
                    }
                },
                _ => {},
            }
            i = i + 1;
        }
        Ok(())
    }

    /// Expands a component invocation.
    pub fn expand_component<H: Host>(&mut self, def: &Rc<ComponentDef>, inv: &NodeInvocation, fuel: u64, host: &mut H)
        -> (r: Result<Vec<ResolvedNode>, NbclError>)
        ensures
            grows(old(self).host_calls@, final(self).host_calls@),
            final(self).import_features == old(self).import_features,
            frame_kept(old(self).deep_view(), final(self).deep_view(), r),
            nodes_res(expand_component(old(self).deep_view(), **def, *inv, fuel as nat), final(self).deep_view(), r),
        decreases fuel,
    {
        if fuel == 0 {
            return Err(step_error());
        }
        let f = fuel - 1;
        let id = match self.component_id(&inv.id, f, host) {
            Ok(v) => v,
            Err(err) => { return Err(err); },
        };
        let (props, children) = match self.node_items(&inv.body, Vec::new(), Vec::new(), f, host) {
            Ok(x) => x,
            Err(err) => { return Err(err); },
        };
        proof { lemma_view_nodes(children@); }
        match self.check_constraints(def, &id, children.len(), &inv.span, f, host) {
            Ok(()) => {},
            Err(err) => { return Err(err); },
        }
        let vars = match component_vars_exec(def, id, props, children, &inv.span) {
            Ok(v) => v,
            Err(err) => { return Err(err); },
        };
        self.push_scope(Scope { variables: vars, kind: ScopeKind::Component });
        let (_, nodes) = match self.node_items(&def.body, Vec::new(), Vec::new(), f, host) {
            Ok(x) => x,
            Err(err) => { return Err(err); },
        };
        self.pop_scope();
        Ok(nodes)
    }
}

} // verus!
