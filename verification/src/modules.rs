//! Importing a module once the host has loaded it.
use vstd::prelude::*;
use crate::ast::{ComponentSelection, File, Stmt, TopLevelItem};
use crate::error::NbclError;
use crate::host::Host;
use crate::registry::{find_key, put_entry, share};
use crate::semantics::{
    defines_component, drop_components, eval_items, fresh_name, missing_component, module_declare,
    module_finish, module_import, next_anon, nodes_res, selects, err_res,
};
use crate::state::{Evaluator, Out, SState, err_core};
use crate::text::{concat3, push_str};
use crate::toplevel::fresh_name_text;
use crate::value::{ResolvedNode, SNode, SValue, Value, extend_nodes, lemma_view_entries_push, str_eq, view_entries, view_nodes};

use crate::host::grows;

verus! {

/// Whether `name` is one of `names`.
pub(crate) fn is_listed(names: &Vec<String>, name: &str) -> (r: bool)
    ensures
        r == names@.map_values(|n: String| n@).contains(name@),
{
    let ghost m = names@.map_values(|n: String| n@);
    let mut k: usize = 0;
    while k < names.len()
        invariant
            k <= names@.len(),
            m == names@.map_values(|n: String| n@),
            forall|j: int| 0 <= j < k ==> m[j] != name@,
        decreases names@.len() - k,
    {
        assert(m[k as int] == names@[k as int]@);
        if str_eq(names[k].as_str(), name) {
            return true;
        }
        k = k + 1;
    }
    false
}

/// Whether a selection keeps the component `name`.
fn select_has(sel: &Option<ComponentSelection>, name: &str) -> (r: bool)
    ensures
        r == selects(*sel, name@),
{
    match sel {
        Some(ComponentSelection::Wildcard) => true,
        Some(ComponentSelection::List(l)) => {
            let r = is_listed(l, name);
            proof {
                let m = l@.map_values(|n: String| n@);
                assert forall|j: int| 0 <= j < l@.len() implies #[trigger] l@[j]@ == m[j] by {}
                if r {
                    let m = l@.map_values(|n: String| n@);
                    let j = choose|j: int| 0 <= j < m.len() && m[j] == name@;
                    assert(l@[j]@ == name@);
                }
            }
            r
        },
        None => false,
    }
}

/// Whether the items define a component named `name`.
fn has_component(items: &Vec<TopLevelItem>, name: &str) -> (r: bool)
    ensures
        r == defines_component(items@, name@),
{
    let mut k: usize = 0;
    while k < items.len()
        invariant
            k <= items@.len(),
            forall|j: int| 0 <= j < k ==> !(#[trigger] items@[j] matches TopLevelItem::ComponentDef(c) && c.name@ == name@),
        decreases items@.len() - k,
    {
        match &items[k] {
            TopLevelItem::ComponentDef(c) => {
                if str_eq(c.name.as_str(), name) {
                    return true;
                }
            },
            _ => {},
        }
        k = k + 1;
    }
    false
}

impl Evaluator {
    /// The second pass over a file's items: nodes resolved, statements run; gives the
    /// nodes in order.
    pub fn eval_items<H: Host>(&mut self, items: &Vec<TopLevelItem>, fuel: u64, host: &mut H) -> (r: Result<Vec<ResolvedNode>, NbclError>)
        ensures
            grows(old(self).host_calls@, final(self).host_calls@),
            final(self).import_features == old(self).import_features,
            nodes_res(eval_items(old(self).deep_view(), items@, 0, Seq::empty(), fuel as nat), final(self).deep_view(), r),
    {
        reveal(eval_items);
        let ghost whole = eval_items(self.deep_view(), items@, 0, Seq::empty(), fuel as nat);
        let mut roots: Vec<ResolvedNode> = Vec::new();
        assert(view_nodes(roots@) =~= Seq::<SNode>::empty());
        let mut i: usize = 0;
        while i < items.len()
            invariant
                grows(old(self).host_calls@, self.host_calls@),
                self.import_features == old(self).import_features,
                i <= items@.len(),
                whole == eval_items(old(self).deep_view(), items@, 0, Seq::empty(), fuel as nat),
                whole is Host || whole == eval_items(self.deep_view(), items@, i as int, view_nodes(roots@), fuel as nat),
            decreases items@.len() - i,
        {
            reveal(eval_items);
            match &items[i] {
                TopLevelItem::Node(inv) => {
                    let ns = match self.resolve_node(inv, fuel, host) {
                        Ok(x) => x,
                        Err(err) => { return Err(err); },
                    };
                    extend_nodes(&mut roots, ns);
                },
                TopLevelItem::Stmt(x) => {
                    let v = match self.exec_stmt(x, fuel, host) {
                        Ok(v) => v,
                        Err(err) => { return Err(err); },
                    };
                    match v {
                        Value::Node(ns) => { extend_nodes(&mut roots, ns); },
                        _ => {},
                    }
                },
                _ => {},
            }
            i = i + 1;
        }
        Ok(roots)
    }

    /// Imports a module that the host found at `target`, with its syntax tree `file`;
    /// gives the nodes the module resolved.
    #[verifier::loop_isolation(false)]
    pub fn import_module<H: Host>(&mut self, path: &str, alias: &str, sel: &Option<ComponentSelection>, target: String,
        file: &File, fuel: u64, host: &mut H) -> (r: Result<Vec<ResolvedNode>, NbclError>)
        ensures
            grows(old(self).host_calls@, final(self).host_calls@),
            final(self).import_features == old(self).import_features,
            nodes_res(module_import(old(self).deep_view(), path@, alias@, *sel, target@, file.items@, fuel as nat),
                final(self).deep_view(), r),
        decreases fuel, 1int,
    {
        let ghost whole = module_import(self.deep_view(), path@, alias@, *sel, target@, file.items@, fuel as nat);
        self.registry.current_file = Some(target.clone());
        if is_listed(&self.loaded_files, target.as_str()) {
            assert(self.loaded_files.deep_view() =~= self.loaded_files@.map_values(|n: String| n@));
            return Ok(Vec::new());
        }
        assert(self.loaded_files.deep_view() =~= self.loaded_files@.map_values(|n: String| n@));
        let items = &file.items;
        let mut map: Vec<(String, Value)> = Vec::new();
        let mut locals: Vec<String> = Vec::new();
        let mut kept: Vec<String> = Vec::new();
        let mut ignored: Vec<ResolvedNode> = Vec::new();
        assert(view_entries(map@) =~= Seq::<(Seq<char>, SValue)>::empty());
        assert(locals@.map_values(|n: String| n@) =~= Seq::<Seq<char>>::empty());
        assert(kept@.map_values(|n: String| n@) =~= Seq::<Seq<char>>::empty());
        let mut i: usize = 0;
        while i < items.len()
            invariant
                grows(old(self).host_calls@, self.host_calls@),
                self.import_features == old(self).import_features,
                i <= items@.len(),
                items@ == file.items@,
                whole is Host || whole == match module_declare(self.deep_view(), items@, i as int, *sel, view_entries(map@),
                    locals@.map_values(|n: String| n@), kept@.map_values(|n: String| n@), fuel as nat) {
                    Out::Done((s1, m, l, k)) => module_finish(s1, path@, alias@, *sel, target@, items@, m, l, k, fuel as nat),
                    o => crate::semantics::pass(o),
                },
            decreases items@.len() - i,
        {
            match &items[i] {
                TopLevelItem::Import(imp) => {
                    match self.handle_import(imp, &mut ignored, fuel, host) {
                        Ok(()) => {},
                        Err(err) => { return Err(err); },
                    }
                },
                TopLevelItem::FnDef(d) => {
                    let n = fresh_name_text(self.anon_count);
                    put_entry(&mut self.registry.functions, n.clone(), share(d));
                    self.anon_count = if self.anon_count < u64::MAX { self.anon_count + 1 } else { self.anon_count };
                    let e = (d.name.clone(), Value::Lambda(n));
                    proof { lemma_view_entries_push(map@, e); }
                    map.push(e);
                },
                TopLevelItem::ComponentDef(c) => {
                    let keep = select_has(sel, c.name.as_str());
                    self.registry.register_component(share(c));
                    let ghost l0 = locals@;
                    let ghost k0 = kept@;
                    locals.push(c.name.clone());
                    assert(locals@.map_values(|n: String| n@) =~= l0.map_values(|n: String| n@).push(c.name@));
                    if keep {
                        kept.push(c.name.clone());
                        assert(kept@.map_values(|n: String| n@) =~= k0.map_values(|n: String| n@).push(c.name@));
                    }
                },
                TopLevelItem::Stmt(Stmt::Const(name, e)) => {
                    let v = match self.eval_expr(e, fuel, host) {
                        Ok(v) => v,
                        Err(err) => { return Err(err); },
                    };
                    let en = (name.clone(), v);
                    proof { lemma_view_entries_push(map@, en); }
                    map.push(en);
                },
                TopLevelItem::Stmt(Stmt::Let(name, e)) => {
                    let v = match self.eval_expr(e, fuel, host) {
                        Ok(v) => v,
                        Err(err) => { return Err(err); },
                    };
                    let en = (name.clone(), v);
                    proof { lemma_view_entries_push(map@, en); }
                    map.push(en);
                },
                _ => {},
            }
            i = i + 1;
        }
        self.finish_module(path, alias, sel, target, items, map, &locals, &kept, fuel, host)
    }

    /// The rest of a module import, after its first pass.
    #[verifier::loop_isolation(false)]
    fn finish_module<H: Host>(&mut self, path: &str, alias: &str, sel: &Option<ComponentSelection>, target: String,
        items: &Vec<TopLevelItem>, map: Vec<(String, Value)>, locals: &Vec<String>, kept: &Vec<String>, fuel: u64, host: &mut H)
        -> (r: Result<Vec<ResolvedNode>, NbclError>)
        ensures
            grows(old(self).host_calls@, final(self).host_calls@),
            final(self).import_features == old(self).import_features,
            nodes_res(module_finish(old(self).deep_view(), path@, alias@, *sel, target@, items@, view_entries(map@),
                locals@.map_values(|n: String| n@), kept@.map_values(|n: String| n@), fuel as nat), final(self).deep_view(), r),
    {
        proof { crate::registry::lemma_entries_deep_view(map); }
        if map.len() > 0 {
            self.registry.set_global(alias, Value::Dict(map));
        }
        match sel {
            Some(ComponentSelection::List(l)) => {
                let mut k: usize = 0;
                while k < l.len()
                    invariant
                        grows(old(self).host_calls@, self.host_calls@),
                        self.import_features == old(self).import_features,
                        k <= l@.len(),
                        missing_component(l@, items@, 0) == missing_component(l@, items@, k as int),
                    decreases l@.len() - k,
                {
                    if !has_component(items, l[k].as_str()) {
                        let mut msg = concat3("component '", l[k].as_str(), "' not found in '");
                        push_str(&mut msg, path);
                        push_str(&mut msg, "'");
                        return Err(NbclError::Ast {
                            message: msg,
                            hint: Some(crate::text::to_owned_string("Check your spelling inside the import block.")),
                            span: None,
                        });
                    }
                    k = k + 1;
                }
            },
            _ => {},
        }
        let roots = match self.eval_items(items, fuel, host) {
            Ok(x) => x,
            Err(err) => { return Err(err); },
        };
        let ghost lv = locals@.map_values(|n: String| n@);
        let ghost kv = kept@.map_values(|n: String| n@);
        let ghost s3 = self.deep_view();
        let mut k: usize = 0;
        while k < locals.len()
            invariant
                grows(old(self).host_calls@, self.host_calls@),
                self.import_features == old(self).import_features,
                k <= locals@.len(),
                lv == locals@.map_values(|n: String| n@),
                kv == kept@.map_values(|n: String| n@),
                drop_components(s3, lv, kv, 0) == drop_components(self.deep_view(), lv, kv, k as int),
            decreases locals@.len() - k,
        {
            assert(lv[k as int] == locals@[k as int]@);
            if !is_listed(kept, locals[k].as_str()) {
                match find_key(&self.registry.components, locals[k].as_str()) {
                    Some(p) => {
                        let ghost d0 = self.registry.components.deep_view();
                        self.registry.components.remove(p);
                        assert(self.registry.components.deep_view() =~= d0.remove(p as int));
                    },
                    None => {},
                }
            }
            k = k + 1;
        }
        self.registry.current_file = None;
        let ghost l0 = self.loaded_files.deep_view();
        self.loaded_files.push(target);
        assert(self.loaded_files.deep_view() =~= l0.push(target@));
        Ok(roots)
    }
}

} // verus!
