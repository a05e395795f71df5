//! Building component definitions, function definitions and whole files from parse trees,
//! with the switches that turn module and library imports off.
use vstd::prelude::*;
use std::rc::Rc;
use crate::ast::{
    BodyItem, ComponentDef, ComponentInterface, ComponentSelection, File, FnDef, ImportDef, ImportDefType, Parameter,
    TopLevelItem,
};
use crate::builder::{kid, malformed, malformed_error, nkids, ImportFeatures, ParseNode};
use crate::error::{ErrorKind, NbclError, Rule, SSpan};
use crate::semantics::{err_res, unquote_spec};
use crate::state::SErr;
use crate::stmt_builder::{
    build_items, build_node_invocation, build_stmt, child_texts, items_err, items_ok, node_err, node_ok, stmt_err,
    stmt_ok, texts_ok,
};
use crate::strings::unquote;
use crate::text::to_owned_string;
use crate::value::str_eq;

verus! {

// ---------------------------------------------------------------- parameters

/// The last type hint among the children of a parameter node before child `k`.
pub open spec fn hint_ok(t: ParseNode, k: int, h: Option<String>) -> bool
    decreases k,
{
    if k <= 1 || k > nkids(t) {
        h is None
    } else if kid(t, k - 1).rule == Rule::type_hint {
        h matches Some(x) && x@ == kid(t, k - 1).text@
    } else {
        hint_ok(t, k - 1, h)
    }
}

/// Some child of a parameter node after its name, before child `k`, is a `?` that is not
/// a type hint.
pub open spec fn marked_optional(t: ParseNode, k: int) -> bool
    decreases k,
{
    if k <= 1 || k > nkids(t) {
        false
    } else {
        (kid(t, k - 1).rule != Rule::type_hint && kid(t, k - 1).text@ == "?"@) || marked_optional(t, k - 1)
    }
}

/// `p` is the parameter a parameter node builds (when it has children).
pub open spec fn param_ok(t: ParseNode, p: Parameter) -> bool {
    &&& nkids(t) > 0
    &&& p.name@ == kid(t, 0).text@
    &&& hint_ok(t, nkids(t), p.type_hint)
    &&& p.is_optional == marked_optional(t, nkids(t))
}

/// The first parameter node among the first `k` children of a parameter list that has no
/// children.
pub open spec fn params_err(c: ParseNode, k: int) -> Option<SErr>
    decreases k,
{
    if k <= 0 || k > nkids(c) {
        None
    } else {
        match params_err(c, k - 1) {
            Some(e) => Some(e),
            None => if nkids(kid(c, k - 1)) == 0 { Some(malformed(kid(c, k - 1))) } else { None },
        }
    }
}

/// `v` are the parameters of the first `k` children of a parameter list.
pub open spec fn params_ok(c: ParseNode, k: int, v: Seq<Parameter>) -> bool {
    &&& 0 <= k <= nkids(c)
    &&& v.len() == k
    &&& forall|i: int| 0 <= i < k ==> #[trigger] param_ok(kid(c, i), v[i])
}

/// The position of the first identifier child of a node from child `k` on.
pub open spec fn first_ident(c: ParseNode, k: int) -> Option<int>
    decreases nkids(c) - k,
{
    if k < 0 || k >= nkids(c) {
        None
    } else if kid(c, k).rule == Rule::snake_ident {
        Some(k)
    } else {
        first_ident(c, k + 1)
    }
}

/// The error in building the interface of a component-parameters node.
pub open spec fn iface_err(t: ParseNode) -> Option<SErr> {
    if nkids(t) == 0 {
        None
    } else {
        let c = kid(t, 0);
        if c.rule == Rule::any_params {
            if first_ident(c, 0) is None { Some(malformed(c)) } else { None }
        } else if c.rule == Rule::named_params {
            params_err(c, nkids(c))
        } else {
            Some(malformed(c))
        }
    }
}

/// `i` is the interface a component-parameters node builds (when it has no error).
pub open spec fn iface_ok(t: ParseNode, i: ComponentInterface) -> bool {
    if nkids(t) == 0 {
        i is Empty
    } else {
        let c = kid(t, 0);
        if c.rule == Rule::any_params {
            &&& i matches ComponentInterface::Loose(x)
            &&& first_ident(c, 0) is Some
            &&& x@ == kid(c, first_ident(c, 0)->0).text@
        } else {
            &&& c.rule == Rule::named_params
            &&& i matches ComponentInterface::Strict(v)
            &&& params_ok(c, nkids(c), v@)
        }
    }
}

// ---------------------------------------------------------------- components

/// Where the body of a component definition stands (after its optional parameters).
pub open spec fn comp_body_pos(t: ParseNode) -> int {
    if kid(t, 1).rule == Rule::component_params { 2 } else { 1 }
}

/// The first error in building the component definition of a parse node.
pub open spec fn comp_err(t: ParseNode) -> Option<SErr> {
    let n = nkids(t);
    if n < 2 || comp_body_pos(t) >= n {
        Some(malformed(t))
    } else {
        let iface = if comp_body_pos(t) == 2 { iface_err(kid(t, 1)) } else { None };
        match iface {
            Some(e) => Some(e),
            None => items_err(kid(t, comp_body_pos(t)), nkids(kid(t, comp_body_pos(t)))),
        }
    }
}

/// `cd` is the component definition a parse node builds (when it has no error).
pub open spec fn comp_ok(t: ParseNode, cd: ComponentDef) -> bool {
    let b = kid(t, comp_body_pos(t));
    &&& nkids(t) >= 2
    &&& cd.name@ == kid(t, 0).text@
    &&& cd.span@ == t.span@
    &&& if comp_body_pos(t) == 2 { iface_ok(kid(t, 1), cd.interface) } else { cd.interface is Empty }
    &&& items_ok(b, nkids(b), cd.body@)
}

// ---------------------------------------------------------------- functions

/// The node inside a function item that yields a body item, if it yields one.
pub open spec fn yields_item(item: ParseNode) -> bool {
    &&& item.rule == Rule::fn_item
    &&& nkids(item) > 0
    &&& (kid(item, 0).rule == Rule::node_invocation || kid(item, 0).rule == Rule::stmt)
}

/// `b` is the body item that the node inside a function item builds.
pub open spec fn body_item_ok(c: ParseNode, b: BodyItem) -> bool {
    if c.rule == Rule::node_invocation {
        b matches BodyItem::Node(nd) && node_ok(c, nd)
    } else {
        b matches BodyItem::Stmt(s) && stmt_ok(c, s)
    }
}

/// The first error among the first `k` children of a function body.
pub open spec fn fbody_err(c: ParseNode, k: int) -> Option<SErr>
    decreases k,
{
    if k <= 0 || k > nkids(c) {
        None
    } else {
        match fbody_err(c, k - 1) {
            Some(e) => Some(e),
            None => {
                let item = kid(c, k - 1);
                if item.rule != Rule::fn_item {
                    None
                } else if nkids(item) == 0 {
                    Some(malformed(item))
                } else if kid(item, 0).rule == Rule::node_invocation {
                    node_err(kid(item, 0))
                } else if kid(item, 0).rule == Rule::stmt {
                    stmt_err(kid(item, 0))
                } else {
                    None
                }
            },
        }
    }
}

/// `v` are the body items of the first `k` children of a function body.
pub open spec fn fbody_ok(c: ParseNode, k: int, v: Seq<BodyItem>) -> bool
    decreases k,
{
    if k <= 0 || k > nkids(c) {
        v.len() == 0
    } else if yields_item(kid(c, k - 1)) {
        v.len() > 0 && body_item_ok(kid(kid(c, k - 1), 0), v.last()) && fbody_ok(c, k - 1, v.drop_last())
    } else {
        fbody_ok(c, k - 1, v)
    }
}

/// How many body items the first `k` children of a function body yield.
pub open spec fn fbody_count(c: ParseNode, k: int) -> int
    decreases k,
{
    if k <= 0 || k > nkids(c) {
        0
    } else if yields_item(kid(c, k - 1)) {
        fbody_count(c, k - 1) + 1
    } else {
        fbody_count(c, k - 1)
    }
}

/// The first error among the parts of a function definition before child `k` (after its name).
pub open spec fn fparts_err(t: ParseNode, k: int) -> Option<SErr>
    decreases k,
{
    if k <= 1 || k > nkids(t) {
        None
    } else {
        match fparts_err(t, k - 1) {
            Some(e) => Some(e),
            None => {
                let c = kid(t, k - 1);
                if c.rule == Rule::fn_param {
                    if nkids(c) == 0 { Some(malformed(c)) } else { None }
                } else if c.rule == Rule::fn_body {
                    fbody_err(c, nkids(c))
                } else {
                    None
                }
            },
        }
    }
}

/// `params` and `body` are what the parts of a function definition before child `k` give.
pub open spec fn fparts_ok(t: ParseNode, k: int, params: Seq<String>, body: Seq<BodyItem>) -> bool
    decreases k,
{
    if k <= 1 || k > nkids(t) {
        params.len() == 0 && body.len() == 0
    } else {
        let c = kid(t, k - 1);
        if c.rule == Rule::fn_param {
            &&& nkids(c) > 0
            &&& params.len() > 0
            &&& params.last()@ == kid(c, 0).text@
            &&& fparts_ok(t, k - 1, params.drop_last(), body)
        } else if c.rule == Rule::fn_body {
            let m = body.len() - fbody_count(c, nkids(c));
            &&& 0 <= m
            &&& fbody_ok(c, nkids(c), body.subrange(m, body.len() as int))
            &&& fparts_ok(t, k - 1, params, body.subrange(0, m))
        } else {
            fparts_ok(t, k - 1, params, body)
        }
    }
}

/// The first error in building the function definition of a parse node.
pub open spec fn fn_err(t: ParseNode) -> Option<SErr> {
    if nkids(t) == 0 { Some(malformed(t)) } else { fparts_err(t, nkids(t)) }
}

/// `f` is the function definition a parse node builds (when it has no error).
pub open spec fn fn_ok(t: ParseNode, f: FnDef) -> bool {
    &&& nkids(t) > 0
    &&& f.name@ == kid(t, 0).text@
    &&& f.span@ == t.span@
    &&& fparts_ok(t, nkids(t), f.params@, f.body@)
}

// ---------------------------------------------------------------- files

/// An error that a disabled kind of import gives.
pub open spec fn disabled_err(message: Seq<char>, hint: Seq<char>, span: SSpan) -> SErr {
    SErr { kind: ErrorKind::Ast, message, hint: Some(hint), span: Some(span) }
}

/// The first error in building a top-level item.
pub open spec fn item_top_err(t: ParseNode, f: ImportFeatures) -> Option<SErr> {
    if nkids(t) == 0 {
        Some(malformed(t))
    } else {
        let c = kid(t, 0);
        if c.rule == Rule::import_stmt {
            if nkids(c) == 0 {
                Some(malformed(c))
            } else if !f.module_imports {
                Some(disabled_err("module imports are disabled"@,
                    "Module import feature is disabled by the developer."@, kid(c, 0).span@))
            } else if nkids(c) < 3 || (nkids(c) >= 4 && nkids(kid(c, 3)) == 0) {
                Some(malformed(c))
            } else {
                None
            }
        } else if c.rule == Rule::import_lib_stmt {
            if nkids(c) == 0 {
                Some(malformed(c))
            } else if !f.lib_imports {
                Some(disabled_err("library imports are disabled"@,
                    "Library import feature is disabled by the developer."@, kid(c, 0).span@))
            } else if nkids(c) < 3 {
                Some(malformed(c))
            } else {
                None
            }
        } else if c.rule == Rule::component_def {
            comp_err(c)
        } else if c.rule == Rule::fn_def {
            fn_err(c)
        } else if c.rule == Rule::node_invocation {
            node_err(c)
        } else if c.rule == Rule::stmt {
            stmt_err(c)
        } else {
            None
        }
    }
}

/// A top-level item node yields an item (its inner rule is one the file keeps).
pub open spec fn yields_top(t: ParseNode) -> bool {
    let r = kid(t, 0).rule;
    &&& t.rule == Rule::top_level_item
    &&& nkids(t) > 0
    &&& (r == Rule::import_stmt || r == Rule::import_lib_stmt || r == Rule::component_def || r == Rule::fn_def
        || r == Rule::node_invocation || r == Rule::stmt)
}

/// The selection that the component block of a module import builds.
pub open spec fn selection_ok(b: ParseNode, s: ComponentSelection) -> bool {
    let inner = kid(b, 0);
    if inner.text@ == "*"@ {
        s is Wildcard
    } else {
        s matches ComponentSelection::List(v) && texts_ok(inner, v@)
    }
}

/// `it` is the item a top-level item node builds (when it yields one and has no error).
pub open spec fn item_top_ok(t: ParseNode, it: TopLevelItem) -> bool {
    let c = kid(t, 0);
    if c.rule == Rule::import_stmt {
        &&& it matches TopLevelItem::Import(imp)
        &&& imp.span@ == c.span@
        &&& imp.def matches ImportDefType::Module(path, alias, sel)
        &&& path@ == unquote_spec(kid(c, 0).text@)
        &&& alias@ == kid(c, 2).text@
        &&& if nkids(c) >= 4 { sel matches Some(s) && selection_ok(kid(c, 3), s) } else { sel is None }
    } else if c.rule == Rule::import_lib_stmt {
        &&& it matches TopLevelItem::Import(imp)
        &&& imp.span@ == c.span@
        &&& imp.def matches ImportDefType::Library(lib, item)
        &&& lib@ == kid(c, 0).text@
        &&& item@ == kid(c, 2).text@
    } else if c.rule == Rule::component_def {
        it matches TopLevelItem::ComponentDef(cd) && comp_ok(c, *cd)
    } else if c.rule == Rule::fn_def {
        it matches TopLevelItem::FnDef(fd) && fn_ok(c, *fd)
    } else if c.rule == Rule::node_invocation {
        it matches TopLevelItem::Node(nd) && node_ok(c, nd)
    } else {
        it matches TopLevelItem::Stmt(s) && stmt_ok(c, s)
    }
}

/// How many children of a file node are read: up to its first end-of-input marker.
pub open spec fn read_len(t: ParseNode, k: int) -> int
    decreases nkids(t) - k,
{
    if k < 0 || k >= nkids(t) {
        nkids(t)
    } else if kid(t, k).rule == Rule::EOI {
        k
    } else {
        read_len(t, k + 1)
    }
}

/// The first error among the first `k` children of a file node.
pub open spec fn file_err_upto(t: ParseNode, f: ImportFeatures, k: int) -> Option<SErr>
    decreases k,
{
    if k <= 0 || k > nkids(t) {
        None
    } else {
        match file_err_upto(t, f, k - 1) {
            Some(e) => Some(e),
            None => if kid(t, k - 1).rule == Rule::top_level_item { item_top_err(kid(t, k - 1), f) } else { None },
        }
    }
}

/// `v` are the items of the first `k` children of a file node.
pub open spec fn file_items_ok(t: ParseNode, k: int, v: Seq<TopLevelItem>) -> bool
    decreases k,
{
    if k <= 0 || k > nkids(t) {
        v.len() == 0
    } else if yields_top(kid(t, k - 1)) {
        v.len() > 0 && item_top_ok(kid(t, k - 1), v.last()) && file_items_ok(t, k - 1, v.drop_last())
    } else {
        file_items_ok(t, k - 1, v)
    }
}

/// The first error in building a file from its parse tree.
pub open spec fn file_err(t: ParseNode, f: ImportFeatures) -> Option<SErr> {
    file_err_upto(t, f, read_len(t, 0))
}

/// `file` is what a file's parse tree builds (when it has no error).
pub open spec fn file_ok(t: ParseNode, file: File) -> bool {
    file.span@ == t.span@ && file_items_ok(t, read_len(t, 0), file.items@)
}

// ---------------------------------------------------------------- building

/// Builds a parameter of a component's named parameters.
fn build_param_item(t: &ParseNode) -> (r: Parameter)
    requires
        nkids(*t) > 0,
    ensures
        param_ok(*t, r),
{
    let n = t.children.len();
    let mut type_hint: Option<String> = None;
    let mut is_optional = false;
    let mut i: usize = 1;
    proof { reveal_strlit("?"); }
    while i < n
        invariant
            n == nkids(*t),
            1 <= i <= n,
            hint_ok(*t, i as int, type_hint),
            is_optional == marked_optional(*t, i as int),
        decreases n - i,
    {
        let c = &t.children[i];
        if c.rule == Rule::type_hint {
            type_hint = Some(c.text.clone());
        } else if str_eq(c.text.as_str(), "?") {
            is_optional = true;
        }
        i = i + 1;
    }
    Parameter { name: t.children[0].text.clone(), type_hint, is_optional }
}

/// A parameter node without children among the first `k` is the first error of all of them.
proof fn lemma_params_err_from(c: ParseNode, k: int, m: int)
    requires
        0 < k <= m <= nkids(c),
        params_err(c, k) is Some,
    ensures
        params_err(c, m) == params_err(c, k),
    decreases m - k,
{
    if m > k {
        lemma_params_err_from(c, k, m - 1);
    }
}

/// Builds the parameters of a named-parameters node.
fn build_params(c: &ParseNode) -> (r: Result<Vec<Parameter>, NbclError>)
    ensures
        match params_err(*c, nkids(*c)) {
            Some(e) => err_res(e, r),
            None => r matches Ok(v) && params_ok(*c, nkids(*c), v@),
        },
{
    let mut out: Vec<Parameter> = Vec::new();
    let mut k: usize = 0;
    while k < c.children.len()
        invariant
            k <= c.children@.len(),
            params_err(*c, k as int) is None,
            params_ok(*c, k as int, out@),
        decreases c.children@.len() - k,
    {
        if c.children[k].children.len() == 0 {
            proof { lemma_params_err_from(*c, k as int + 1, nkids(*c)); }
            return Err(malformed_error(&c.children[k]));
        }
        let p = build_param_item(&c.children[k]);
        out.push(p);
        k = k + 1;
    }
    Ok(out)
}

/// The first identifier child from child `k` on stands at `k` or after it, among the children.
proof fn lemma_first_ident(c: ParseNode, k: int)
    requires
        k >= 0,
    ensures
        first_ident(c, k) matches Some(p) ==> k <= p < nkids(c),
    decreases nkids(c) - k,
{
    if k < nkids(c) && kid(c, k).rule != Rule::snake_ident {
        lemma_first_ident(c, k + 1);
    }
}

/// The position of the first identifier child of a node.
fn find_first_ident(c: &ParseNode) -> (r: Option<usize>)
    ensures
        r matches Some(p) ==> p < c.children@.len() && first_ident(*c, 0) == Some(p as int),
        r is None ==> first_ident(*c, 0) is None,
{
    proof { lemma_first_ident(*c, 0); }
    let mut k: usize = 0;
    while k < c.children.len()
        invariant
            k <= c.children@.len(),
            first_ident(*c, 0) == first_ident(*c, k as int),
        decreases c.children@.len() - k,
    {
        if c.children[k].rule == Rule::snake_ident {
            return Some(k);
        }
        k = k + 1;
    }
    None
}

/// Builds the interface of a component from its parameters node.
fn build_interface(t: &ParseNode) -> (r: Result<ComponentInterface, NbclError>)
    ensures
        match iface_err(*t) {
            Some(e) => err_res(e, r),
            None => r matches Ok(i) && iface_ok(*t, i),
        },
{
    if t.children.len() == 0 {
        return Ok(ComponentInterface::Empty);
    }
    let c = &t.children[0];
    if c.rule == Rule::any_params {
        proof { lemma_first_ident(*c, 0); }
        match find_first_ident(c) {
            Some(p) => Ok(ComponentInterface::Loose(c.children[p].text.clone())),
            None => Err(malformed_error(c)),
        }
    } else if c.rule == Rule::named_params {
        match build_params(c) {
            Ok(v) => Ok(ComponentInterface::Strict(v)),
            Err(e) => Err(e),
        }
    } else {
        Err(malformed_error(c))
    }
}

/// Builds the component definition of a parse node: its name, interface and body.
pub fn build_component_def(t: &ParseNode) -> (r: Result<ComponentDef, NbclError>)
    ensures
        match comp_err(*t) {
            Some(e) => err_res(e, r),
            None => r matches Ok(cd) && comp_ok(*t, cd),
        },
{
    let n = t.children.len();
    if n < 2 {
        return Err(malformed_error(t));
    }
    let pos: usize = if t.children[1].rule == Rule::component_params { 2 } else { 1 };
    if pos >= n {
        return Err(malformed_error(t));
    }
    let interface = if pos == 2 {
        match build_interface(&t.children[1]) {
            Ok(i) => i,
            Err(e) => { return Err(e); },
        }
    } else {
        ComponentInterface::Empty
    };
    let body = match build_items(&t.children[pos]) {
        Ok(v) => v,
        Err(e) => { return Err(e); },
    };
    Ok(ComponentDef { name: t.children[0].text.clone(), interface, body, span: t.span.copy() })
}

/// An error among the first `k` children of a function body is the first error of all of them.
proof fn lemma_fbody_err_from(c: ParseNode, k: int, m: int)
    requires
        0 < k <= m <= nkids(c),
        fbody_err(c, k) is Some,
    ensures
        fbody_err(c, m) == fbody_err(c, k),
    decreases m - k,
{
    if m > k {
        lemma_fbody_err_from(c, k, m - 1);
    }
}

/// Builds the body items of a function body node.
fn build_fn_body(c: &ParseNode) -> (r: Result<Vec<BodyItem>, NbclError>)
    ensures
        match fbody_err(*c, nkids(*c)) {
            Some(e) => err_res(e, r),
            None => r matches Ok(v) && fbody_ok(*c, nkids(*c), v@) && v@.len() == fbody_count(*c, nkids(*c)),
        },
{
    let mut out: Vec<BodyItem> = Vec::new();
    let mut k: usize = 0;
    while k < c.children.len()
        invariant
            k <= c.children@.len(),
            fbody_err(*c, k as int) is None,
            fbody_ok(*c, k as int, out@),
            out@.len() == fbody_count(*c, k as int),
        decreases c.children@.len() - k,
    {
        let item = &c.children[k];
        if item.rule == Rule::fn_item {
            if item.children.len() == 0 {
                proof { lemma_fbody_err_from(*c, k as int + 1, nkids(*c)); }
                return Err(malformed_error(item));
            }
            let inner = &item.children[0];
            let ghost before = out@;
            if inner.rule == Rule::node_invocation {
                match build_node_invocation(inner) {
                    Ok(nd) => { out.push(BodyItem::Node(nd)); },
                    Err(e) => {
                        proof { lemma_fbody_err_from(*c, k as int + 1, nkids(*c)); }
                        return Err(e);
                    },
                }
                proof { assert(out@.drop_last() =~= before); }
            } else if inner.rule == Rule::stmt {
                match build_stmt(inner) {
                    Ok(s) => { out.push(BodyItem::Stmt(s)); },
                    Err(e) => {
                        proof { lemma_fbody_err_from(*c, k as int + 1, nkids(*c)); }
                        return Err(e);
                    },
                }
                proof { assert(out@.drop_last() =~= before); }
            }
        }
        k = k + 1;
    }
    Ok(out)
}

/// An error among the parts before child `k` of a function definition is the first of all.
proof fn lemma_fparts_err_from(t: ParseNode, k: int, m: int)
    requires
        1 < k <= m <= nkids(t),
        fparts_err(t, k) is Some,
    ensures
        fparts_err(t, m) == fparts_err(t, k),
    decreases m - k,
{
    if m > k {
        lemma_fparts_err_from(t, k, m - 1);
    }
}

/// Builds the function definition of a parse node: its name, parameters and body.
pub fn build_fn_def(t: &ParseNode) -> (r: Result<FnDef, NbclError>)
    ensures
        match fn_err(*t) {
            Some(e) => err_res(e, r),
            None => r matches Ok(f) && fn_ok(*t, f),
        },
{
    let n = t.children.len();
    if n == 0 {
        return Err(malformed_error(t));
    }
    let mut params: Vec<String> = Vec::new();
    let mut body: Vec<BodyItem> = Vec::new();
    let mut k: usize = 1;
    while k < n
        invariant
            n == nkids(*t),
            1 <= k <= n,
            fparts_err(*t, k as int) is None,
            fparts_ok(*t, k as int, params@, body@),
        decreases n - k,
    {
        let c = &t.children[k];
        if c.rule == Rule::fn_param {
            if c.children.len() == 0 {
                proof { lemma_fparts_err_from(*t, k as int + 1, nkids(*t)); }
                return Err(malformed_error(c));
            }
            let ghost before = params@;
            params.push(c.children[0].text.clone());
            proof { assert(params@.drop_last() =~= before); }
        } else if c.rule == Rule::fn_body {
            let mut v = match build_fn_body(c) {
                Ok(v) => v,
                Err(e) => {
                    proof { lemma_fparts_err_from(*t, k as int + 1, nkids(*t)); }
                    return Err(e);
                },
            };
            let ghost before = body@;
            let ghost items = v@;
            body.append(&mut v);
            proof {
                assert(body@.subrange(before.len() as int, body@.len() as int) =~= items);
                assert(body@.subrange(0, before.len() as int) =~= before);
            }
        }
        k = k + 1;
    }
    Ok(FnDef { name: t.children[0].text.clone(), params, body, span: t.span.copy() })
}

/// Builds the component selection of a module import from its selection block.
fn build_selection(b: &ParseNode) -> (r: ComponentSelection)
    requires
        nkids(*b) > 0,
    ensures
        selection_ok(*b, r),
{
    proof { reveal_strlit("*"); }
    let inner = &b.children[0];
    if str_eq(inner.text.as_str(), "*") {
        ComponentSelection::Wildcard
    } else {
        ComponentSelection::List(child_texts(inner))
    }
}

/// Builds a top-level item; nothing for an item the file does not keep.
fn build_top_item(t: &ParseNode, features: &ImportFeatures) -> (r: Result<Option<TopLevelItem>, NbclError>)
    requires
        t.rule == Rule::top_level_item,
    ensures
        match item_top_err(*t, *features) {
            Some(e) => err_res(e, r),
            None => r matches Ok(o) && if yields_top(*t) { o matches Some(it) && item_top_ok(*t, it) } else { o is None },
        },
{
    if t.children.len() == 0 {
        return Err(malformed_error(t));
    }
    let c = &t.children[0];
    if c.rule == Rule::import_stmt {
        if c.children.len() == 0 {
            return Err(malformed_error(c));
        }
        if !features.module_imports {
            proof {
                reveal_strlit("module imports are disabled");
                reveal_strlit("Module import feature is disabled by the developer.");
            }
            return Err(NbclError::Ast {
                message: to_owned_string("module imports are disabled"),
                hint: Some(to_owned_string("Module import feature is disabled by the developer.")),
                span: Some(c.children[0].span.copy()),
            });
        }
        let n = c.children.len();
        if n < 3 || (n >= 4 && c.children[3].children.len() == 0) {
            return Err(malformed_error(c));
        }
        let path = unquote(c.children[0].text.as_str());
        let alias = c.children[2].text.clone();
        let sel = if n >= 4 { Some(build_selection(&c.children[3])) } else { None };
        Ok(Some(TopLevelItem::Import(ImportDef { def: ImportDefType::Module(path, alias, sel), span: c.span.copy() })))
    } else if c.rule == Rule::import_lib_stmt {
        if c.children.len() == 0 {
            return Err(malformed_error(c));
        }
        if !features.lib_imports {
            proof {
                reveal_strlit("library imports are disabled");
                reveal_strlit("Library import feature is disabled by the developer.");
            }
            return Err(NbclError::Ast {
                message: to_owned_string("library imports are disabled"),
                hint: Some(to_owned_string("Library import feature is disabled by the developer.")),
                span: Some(c.children[0].span.copy()),
            });
        }
        if c.children.len() < 3 {
            return Err(malformed_error(c));
        }
        let lib = c.children[0].text.clone();
        let item = c.children[2].text.clone();
        Ok(Some(TopLevelItem::Import(ImportDef { def: ImportDefType::Library(lib, item), span: c.span.copy() })))
    } else if c.rule == Rule::component_def {
        match build_component_def(c) {
            Ok(cd) => Ok(Some(TopLevelItem::ComponentDef(Rc::new(cd)))),
            Err(e) => Err(e),
        }
    } else if c.rule == Rule::fn_def {
        match build_fn_def(c) {
            Ok(f) => Ok(Some(TopLevelItem::FnDef(Rc::new(f)))),
            Err(e) => Err(e),
        }
    } else if c.rule == Rule::node_invocation {
        match build_node_invocation(c) {
            Ok(nd) => Ok(Some(TopLevelItem::Node(nd))),
            Err(e) => Err(e),
        }
    } else if c.rule == Rule::stmt {
        match build_stmt(c) {
            Ok(s) => Ok(Some(TopLevelItem::Stmt(s))),
            Err(e) => Err(e),
        }
    } else {
        Ok(None)
    }
}

/// The children read of a file node from child `j` on end at or after `j`, among its children.
proof fn lemma_read_len(t: ParseNode, j: int)
    requires
        0 <= j <= nkids(t),
    ensures
        j <= read_len(t, j) <= nkids(t),
    decreases nkids(t) - j,
{
    if j < nkids(t) && kid(t, j).rule != Rule::EOI {
        lemma_read_len(t, j + 1);
    }
}

/// An error among the first `k` children of a file node is the first error of all of them.
proof fn lemma_file_err_from(t: ParseNode, f: ImportFeatures, k: int, m: int)
    requires
        0 < k <= m <= nkids(t),
        file_err_upto(t, f, k) is Some,
    ensures
        file_err_upto(t, f, m) == file_err_upto(t, f, k),
    decreases m - k,
{
    if m > k {
        lemma_file_err_from(t, f, k, m - 1);
    }
}

/// Builds a file from its parse tree: its top-level items in order, up to the end of input.
/// A module import is refused when `features` turns module imports off, and a library
/// import when it turns library imports off.
#[verifier::rlimit(40)]
pub fn build_file(tree: &ParseNode, features: ImportFeatures) -> (r: Result<File, NbclError>)
    ensures
        match file_err(*tree, features) {
            Some(e) => err_res(e, r),
            None => r matches Ok(f) && file_ok(*tree, f),
        },
{
    let n = tree.children.len();
    let mut items: Vec<TopLevelItem> = Vec::new();
    let mut k: usize = 0;
    while k < n && tree.children[k].rule != Rule::EOI
        invariant
            n == nkids(*tree),
            k <= n,
            read_len(*tree, 0) == read_len(*tree, k as int),
            file_err_upto(*tree, features, k as int) is None,
            file_items_ok(*tree, k as int, items@),
        decreases n - k,
    {
        let c = &tree.children[k];
        if c.rule == Rule::top_level_item {
            let ghost before = items@;
            match build_top_item(c, &features) {
                Ok(Some(it)) => {
                    items.push(it);
                    proof { assert(items@.drop_last() =~= before); }
                },
                Ok(None) => {},
                Err(e) => {
                    proof {
                        lemma_read_len(*tree, k as int + 1);
                        lemma_file_err_from(*tree, features, k as int + 1, read_len(*tree, 0));
                    }
                    return Err(e);
                },
            }
        }
        k = k + 1;
    }
    Ok(File { items, span: tree.span.copy() })
}

} // verus!
