//! Evaluation of whole files and of their imports.
use vstd::prelude::*;
use crate::ast::{ComponentSelection, File, ImportDef, ImportDefType, TopLevelItem};
use crate::error::{NbclError, Span};
use crate::host::{Host, HostCall};
use crate::ops::err_hint_at;
use crate::registry::{
    NativeFnSchema, Registry, SNativeFn, SRegistry, copy_types, copy_value_entries, first_named, item_names,
    lemma_entries_deep_view, library_names, put_entry, share,
};
use crate::semantics::{
    declare_items, eval_items, fresh_name, handle_import, import_library, initial_state, next_anon,
    register_item_fns, run_file, unit_res, err_res, module_import, with_reg,
};
use crate::state::{Evaluator, FlowControl, Out, SState, Scope, ScopeKind};
use crate::utils::names_view;
use crate::text::{concat2, concat3, push_str, to_owned_string, u64_to_string};
use crate::value::{
    ResolvedNode, ResolvedTree, SNode, SValue, Value, extend_nodes, lemma_view_entries, lemma_view_entries_push,
    view_entries, view_nodes, lemma_view_nodes,
};

use crate::host::grows;
use crate::builder::ImportFeatures;
use crate::file_builder::{build_file, file_err, file_ok};

verus! {

/// What importing the module `path` did, given the host calls made before the import
/// (`c0`) and after it (`calls`): the step budget is checked; the host is asked where
/// the module is; a failure is returned as it came, with nothing changed; a module
/// imported before is only made the current file; otherwise the host is asked for its
/// parse tree, a failure is returned as it came, the tree is built into a file with the
/// evaluator's import switches (an error there is returned, with nothing changed), and
/// the file is imported as `module_import` says, its nodes added to the roots.
pub open spec fn module_outcome(st: SState, path: Seq<char>, alias: Seq<char>, sel: Option<ComponentSelection>, fuel: nat,
    features: ImportFeatures, c0: Seq<HostCall>, calls: Seq<HostCall>, fin: SState, roots0: Seq<SNode>, roots1: Seq<SNode>, r: Result<(), NbclError>) -> bool
{
    if fuel == 0 {
        &&& err_res(crate::state::rt(crate::semantics::step_limit_message(), None), r)
        &&& fin == st && calls == c0 && roots1 == roots0
    } else {
        &&& calls.len() > c0.len()
        &&& match calls[c0.len() as int] {
            HostCall::Resolve(p, rr) => p == path && match rr {
                Err(e) => r matches Err(x) && x@ == e && fin == st && calls.len() == c0.len() + 1 && roots1 == roots0,
                Ok(t) => if st.loaded.contains(t) {
                    &&& r is Ok && calls.len() == c0.len() + 1 && roots1 == roots0
                    &&& fin == with_reg(st, SRegistry { current_file: Some(t), ..st.reg })
                } else {
                    &&& calls.len() > c0.len() + 1
                    &&& match calls[c0.len() + 1int] {
                        HostCall::Read(tt, rd) => tt == t && match rd {
                            Err(e) => r matches Err(x) && x@ == e && fin == st && calls.len() == c0.len() + 2 && roots1 == roots0,
                            Ok(tree) => match file_err(tree, features) {
                                Some(e) => err_res(e, r) && fin == st && calls.len() == c0.len() + 2 && roots1 == roots0,
                                None => exists|f: File| #[trigger] file_ok(tree, f) && match module_import(st, path, alias,
                                    sel, t, f.items@, (fuel - 1) as nat) {
                                    Out::Done((s, ns)) => r is Ok && fin == s && roots1 == roots0 + ns,
                                    Out::Fail(e) => err_res(e, r),
                                    Out::Host => true,
                                },
                            },
                        },
                        _ => false,
                    }
                },
            },
            _ => false,
        }
    }
}

/// An executable result agrees with the outcome of evaluating a file.
pub open spec fn tree_res(o: Out<(SState, Seq<SNode>)>, fin: SState, r: Result<ResolvedTree, NbclError>) -> bool {
    match o {
        Out::Done((s, roots)) => r matches Ok(t) && t@ == roots && fin == s,
        Out::Fail(e) => err_res(e, r),
        Out::Host => true,
    }
}

/// The internal name of the `n`-th imported function.
pub fn fresh_name_text(n: u64) -> (r: String)
    ensures
        r@ == fresh_name(n),
{
    concat2("anon#", u64_to_string(n).as_str())
}

impl Evaluator {
    /// A fresh evaluator over `registry`: one top-level scope, nothing printed.
    pub fn new(registry: Registry, max_depth: usize) -> (r: Evaluator)
        ensures
            r.deep_view() == initial_state(registry.deep_view(), max_depth),
    {
        let mut scopes: Vec<Scope> = Vec::new();
        scopes.push(Scope::new(ScopeKind::TopLevel));
        let r = Evaluator {
            registry,
            scopes,
            flow: FlowControl::Normal,
            call_stack_depth: 0,
            max_depth,
            output: Vec::new(),
            anon_count: 0,
            loaded_files: Vec::new(),
            host_calls: Ghost(Seq::empty()),
            import_features: ImportFeatures { module_imports: true, lib_imports: true },
        };
        assert(r.scopes.deep_view() =~= seq![crate::semantics::empty_scope(ScopeKind::TopLevel)]);
        assert(r.output.deep_view() =~= Seq::<Seq<char>>::empty());
        assert(r.loaded_files.deep_view() =~= Seq::<Seq<char>>::empty());
        r
    }

    /// Evaluates a file: imports, components and functions first, then nodes and
    /// statements, each with `fuel` steps; gives the root nodes.
    pub fn run<H: Host>(&mut self, file: &File, fuel: u64, host: &mut H) -> (r: Result<ResolvedTree, NbclError>)
        ensures
            grows(old(self).host_calls@, final(self).host_calls@),
            final(self).import_features == old(self).import_features,
            tree_res(run_file(old(self).deep_view(), file.items@, fuel as nat), final(self).deep_view(), r),
    {
        let mut roots: Vec<ResolvedNode> = Vec::new();
        match self.declare_pass(&file.items, &mut roots, fuel, host) {
            Ok(()) => {},
            Err(err) => { return Err(err); },
        }

        let more = match self.eval_items(&file.items, fuel, host) {
            Ok(x) => x,
            Err(err) => { return Err(err); },
        };
        proof {
            if roots@.len() == 0 {
                assert(view_nodes(roots@) =~= Seq::<SNode>::empty());
            }
        }
        extend_nodes(&mut roots, more);
        Ok(ResolvedTree { root_nodes: roots })
    }

    /// The first pass over a file's items: imports, components and functions.
    pub fn declare_pass<H: Host>(&mut self, items: &Vec<TopLevelItem>, roots: &mut Vec<ResolvedNode>, fuel: u64, host: &mut H)
        -> (r: Result<(), NbclError>)
        ensures
            grows(old(self).host_calls@, final(self).host_calls@),
            final(self).import_features == old(self).import_features,
            unit_res(declare_items(old(self).deep_view(), items@, 0), final(self).deep_view(), r),
            declare_items(old(self).deep_view(), items@, 0) is Done ==> final(roots)@ == old(roots)@,
    {
        reveal(declare_items);
        let ghost whole = declare_items(self.deep_view(), items@, 0);
        let ghost r0 = roots@;
        let mut i: usize = 0;
        while i < items.len()
            invariant
                grows(old(self).host_calls@, self.host_calls@),
                self.import_features == old(self).import_features,
                i <= items@.len(),
                whole == declare_items(old(self).deep_view(), items@, 0),
                r0 == old(roots)@,
                whole is Host || (roots@ == r0 && whole == declare_items(self.deep_view(), items@, i as int)),
            decreases items@.len() - i,
        {
            reveal(declare_items);
            match &items[i] {
                TopLevelItem::Import(imp) => {
                    match self.handle_import(imp, roots, fuel, host) {
                        Ok(()) => {},
                        Err(err) => { return Err(err); },
                    }
                },
                TopLevelItem::ComponentDef(c) => {
                    self.registry.register_component(share(c));
                },
                TopLevelItem::FnDef(d) => {
                    self.registry.register_function(share(d));
                },
                _ => {},
            }
            i = i + 1;
        }
        Ok(())
    }

    /// Handles an import: a library item is imported here; for a module, the host is
    /// asked where it is, then (unless it was imported already) for its syntax tree,
    /// and its items are imported (its nodes are added to `roots`).
    pub fn handle_import<H: Host>(&mut self, imp: &ImportDef, roots: &mut Vec<ResolvedNode>, fuel: u64, host: &mut H)
        -> (r: Result<(), NbclError>)
        ensures
            grows(old(self).host_calls@, final(self).host_calls@),
            final(self).import_features == old(self).import_features,
            unit_res(handle_import(old(self).deep_view(), *imp), final(self).deep_view(), r),
            handle_import(old(self).deep_view(), *imp) is Done ==> final(roots)@ == old(roots)@,
            imp.def matches ImportDefType::Module(path, alias, sel) ==> module_outcome(old(self).deep_view(), path@, alias@,
                sel, fuel as nat, old(self).import_features, old(self).host_calls@, final(self).host_calls@, final(self).deep_view(),
                view_nodes(old(roots)@), view_nodes(final(roots)@), r),
        decreases fuel, 0int,
    {
        match &imp.def {
            ImportDefType::Library(lib, item) => self.import_library(lib.as_str(), item.as_str(), &imp.span),
            ImportDefType::Module(path, alias, selection) => {
                if fuel == 0 {
                    return Err(crate::ops::step_error());
                }
                let ghost st0 = self.deep_view();
                let ghost c0 = self.host_calls@;
                let target = match self.ask_resolve(host, path.as_str()) {
                    Ok(t) => t,
                    Err(err) => { return Err(err); },
                };
                proof { lemma_view_nodes(roots@); }
                if crate::modules::is_listed(&self.loaded_files, target.as_str()) {
                    assert(self.loaded_files.deep_view() =~= self.loaded_files@.map_values(|n: String| n@));
                    self.registry.current_file = Some(target);
                    return Ok(());
                }
                assert(self.loaded_files.deep_view() =~= self.loaded_files@.map_values(|n: String| n@));
                let tree = match self.ask_read(host, target.as_str()) {
                    Ok(t) => t,
                    Err(err) => { return Err(err); },
                };
                let ghost c2 = self.host_calls@;
                let file = match build_file(&tree, self.import_features) {
                    Ok(f) => f,
                    Err(err) => {
                        assert(c2[c0.len() as int] == self.host_calls@[c0.len() as int]);
                        return Err(err);
                    },
                };
                proof { assert(file_ok(tree, file)); }
                let ghost roots0 = roots@;
                match self.import_module(path.as_str(), alias.as_str(), selection, target, &file, fuel - 1, host) {
                    Ok(ns) => {
                        extend_nodes(roots, ns);
                        assert(self.host_calls@[c0.len() as int] == c2[c0.len() as int]);
                        assert(self.host_calls@[c0.len() + 1int] == c2[c0.len() + 1int]);
                        Ok(())
                    },
                    Err(err) => {
                        assert(self.host_calls@[c0.len() as int] == c2[c0.len() as int]);
                        assert(self.host_calls@[c0.len() + 1int] == c2[c0.len() + 1int]);
                        Err(err)
                    },
                }
            },
        }
    }

    /// Imports an item of a library.
    pub fn import_library(&mut self, lib: &str, item: &str, span: &Span) -> (r: Result<(), NbclError>)
        ensures
            grows(old(self).host_calls@, final(self).host_calls@),
            final(self).import_features == old(self).import_features,
            unit_res(import_library(old(self).deep_view(), lib@, item@, span@), final(self).deep_view(), r),
    {
        let li = match self.registry.find_library(lib) {
            Some(i) => i,
            None => {
                let ghost libs = self.deep_view().reg.libraries;
                let mut names: Vec<String> = Vec::new();
                let mut k: usize = 0;
                while k < self.registry.libraries.len()
                    invariant
                        grows(old(self).host_calls@, self.host_calls@),
                        self.import_features == old(self).import_features,
                        k <= self.registry.libraries@.len(),
                        libs == self.deep_view().reg.libraries,
                        libs.len() == self.registry.libraries@.len(),
                        names_view(names@) == library_names(libs).take(k as int),
                    decreases self.registry.libraries@.len() - k,
                {
                    let ghost before = names@;
                    names.push(self.registry.libraries[k].name.clone());
                    proof {
                        assert(libs[k as int] == self.registry.libraries@[k as int].deep_view());
                        assert(names_view(names@) =~= names_view(before).push(libs[k as int].name));
                        assert(library_names(libs).take(k + 1) =~= library_names(libs).take(k as int).push(libs[k as int].name));
                    }
                    k = k + 1;
                }
                assert(library_names(libs).take(libs.len() as int) =~= library_names(libs));
                let hint = match crate::utils::find_best_match(lib, &names) {
                    Some(s) => {
                        let mut h = concat3("Library \"", lib, "\" doesn't exist. Did you mean \"");
                        push_str(&mut h, s.as_str());
                        push_str(&mut h, "\"?");
                        proof {
                            reveal_strlit("Library \"");
                            reveal_strlit("\" doesn't exist. Did you mean \"");
                            reveal_strlit("\"?");
                            assert(h@ =~= "Library \""@ + lib@ + "\" doesn't exist. Did you mean \""@ + s@ + "\"?"@);
                        }
                        Some(h)
                    },
                    None => None,
                };
                return Err(err_hint_at(to_owned_string("library not found"), hint, span));
            },
        };
        assert(self.deep_view().reg.libraries[li as int] == self.registry.libraries@[li as int].deep_view());
        let found = self.registry.libraries[li].get_item(to_owned_string(item));
        let it = match found {
            Some(it) => it,
            None => {
                let lib_items = self.registry.libraries[li].items();
                let ghost its = lib_items.deep_view();
                let mut names: Vec<String> = Vec::new();
                let mut k: usize = 0;
                while k < lib_items.len()
                    invariant
                        grows(old(self).host_calls@, self.host_calls@),
                        self.import_features == old(self).import_features,
                        k <= lib_items@.len(),
                        its == lib_items.deep_view(),
                        its.len() == lib_items@.len(),
                        names_view(names@) == item_names(its).take(k as int),
                    decreases lib_items@.len() - k,
                {
                    let ghost before = names@;
                    names.push(lib_items[k].name.clone());
                    proof {
                        assert(its[k as int] == lib_items@[k as int].deep_view());
                        assert(names_view(names@) =~= names_view(before).push(its[k as int].name));
                        assert(item_names(its).take(k + 1) =~= item_names(its).take(k as int).push(its[k as int].name));
                    }
                    k = k + 1;
                }
                assert(item_names(its).take(its.len() as int) =~= item_names(its));
                let hint = match crate::utils::find_best_match(item, &names) {
                    Some(s) => {
                        let mut h = concat3("Library item \"", item, "\" doesn't exist. Did you mean \"");
                        push_str(&mut h, s.as_str());
                        push_str(&mut h, "\"?");
                        proof {
                            reveal_strlit("Library item \"");
                            reveal_strlit("\" doesn't exist. Did you mean \"");
                            reveal_strlit("\"?");
                            assert(h@ =~= "Library item \""@ + item@ + "\" doesn't exist. Did you mean \""@ + s@ + "\"?"@);
                        }
                        Some(h)
                    },
                    None => None,
                };
                return Err(err_hint_at(concat3("library item '", item, "' not found"), hint, span));
            },
        };
        let ghost fns = it.deep_view().native_functions;
        let ghost st0 = self.deep_view();
        let mut fn_entries: Vec<(String, Value)> = Vec::new();
        let mut k: usize = 0;
        assert(view_entries(fn_entries@) =~= Seq::<(Seq<char>, SValue)>::empty());
        while k < it.native_functions.len()
            invariant
                grows(old(self).host_calls@, self.host_calls@),
                self.import_features == old(self).import_features,
                k <= it.native_functions@.len(),
                fns == it.deep_view().native_functions,
                fns.len() == it.native_functions@.len(),
                register_item_fns(st0, fns, 0, Seq::empty())
                    == register_item_fns(self.deep_view(), fns, k as int, view_entries(fn_entries@)),
            decreases it.native_functions@.len() - k,
        {
            let n = fresh_name_text(self.anon_count);
            let src = &it.native_functions[k].1;
            assert(fns[k as int] == (it.native_functions@[k as int].0@, it.native_functions@[k as int].1.deep_view()));
            let schema = NativeFnSchema {
                name: n.clone(),
                params: copy_types(&src.params),
                return_type: src.return_type.copy(),
                handler: src.handler,
            };
            assert(schema.deep_view() == (SNativeFn { name: n@, ..fns[k as int].1 }));
            put_entry(&mut self.registry.native_functions, n.clone(), schema);
            self.anon_count = if self.anon_count < u64::MAX { self.anon_count + 1 } else { self.anon_count };
            let e = (it.native_functions[k].0.clone(), Value::Lambda(n));
            proof { lemma_view_entries_push(fn_entries@, e); }
            fn_entries.push(e);
            k = k + 1;
        }
        let mut entries = copy_value_entries(&it.globals);
        let ghost g = view_entries(entries@);
        let ghost fv = view_entries(fn_entries@);
        proof {
            lemma_entries_deep_view(it.globals);
            lemma_entries_deep_view(entries);
            lemma_view_entries(entries@);
            lemma_view_entries(fn_entries@);
        }
        let ghost e0 = entries@;
        let ghost f0 = fn_entries@;
        entries.append(&mut fn_entries);
        proof {
            lemma_view_entries(entries@);
            assert(view_entries(entries@) =~= g + fv);
        }
        if entries.len() > 0 {
            self.registry.set_global(item, Value::Dict(entries));
        }
        Ok(())
    }
}

} // verus!
