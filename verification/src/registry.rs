//! The registry: native nodes and functions, components, user functions, globals and
//! libraries known to an evaluation.
use vstd::prelude::*;
use std::rc::Rc;
use crate::ast::{ComponentDef, FnDef};
use crate::value::{SType, SValue, Type, Value, clone_value, view_entries, lemma_view_entries};

verus! {

impl DeepView for Value {
    type V = SValue;

    open spec fn deep_view(&self) -> SValue {
        self@
    }
}

impl DeepView for Type {
    type V = SType;

    open spec fn deep_view(&self) -> SType {
        self@
    }
}

/// Entry lists as the evaluator stores them have the same model under both views.
pub proof fn lemma_entries_deep_view(v: Vec<(String, Value)>)
    ensures
        v.deep_view() == view_entries(v@),
{
    lemma_view_entries(v@);
    assert(v.deep_view() =~= view_entries(v@));
}

/// A second handle to a shared definition, made with `Rc::clone`. Trusted: the
/// contract claims that the new handle points to the same value (Verus models an `Rc`
/// by the value it points to), as the standard library documents.
#[verifier::external_body]
pub(crate) fn share<T>(r: &Rc<T>) -> (s: Rc<T>)
    ensures
        s == *r,
{
    Rc::clone(r)
}

/// The deep view of a vector after a push.
pub proof fn lemma_dv_push<T: DeepView>(old: Vec<T>, new: Vec<T>, x: T)
    requires
        new@ == old@.push(x),
    ensures
        new.deep_view() == old.deep_view().push(x.deep_view()),
{
    assert(new.deep_view() =~= old.deep_view().push(x.deep_view()));
}

/// The deep view of a vector after removing its first element.
pub proof fn lemma_dv_remove0<T: DeepView>(old: Vec<T>, new: Vec<T>)
    requires
        old@.len() > 0,
        new@ == old@.remove(0),
    ensures
        new.deep_view() == old.deep_view().remove(0),
{
    assert(new.deep_view() =~= old.deep_view().remove(0));
}

/// The index of the first entry whose key is `k`.
pub open spec fn first_key_index<T>(s: Seq<(Seq<char>, T)>, k: Seq<char>) -> Option<int>
    decreases s.len(),
{
    if s.len() == 0 {
        None
    } else {
        match first_key_index(s.drop_last(), k) {
            Some(i) => Some(i),
            None => if s.last().0 == k { Some(s.len() - 1) } else { None },
        }
    }
}

pub proof fn lemma_first_key_index<T>(s: Seq<(Seq<char>, T)>, k: Seq<char>)
    ensures
        match first_key_index(s, k) {
            Some(i) => 0 <= i < s.len() && s[i].0 == k && forall|j: int| 0 <= j < i ==> s[j].0 != k,
            None => forall|j: int| 0 <= j < s.len() ==> s[j].0 != k,
        },
    decreases s.len(),
{
    if s.len() > 0 {
        lemma_first_key_index(s.drop_last(), k);
        assert forall|j: int| 0 <= j < s.len() - 1 implies s.drop_last()[j] == s[j] by {}
    }
}

/// The keys of an entry list, in order.
pub open spec fn keys_view<T>(s: Seq<(Seq<char>, T)>) -> Seq<Seq<char>> {
    s.map_values(|e: (Seq<char>, T)| e.0)
}

/// The value bound to `k` in an entry list (first occurrence).
pub open spec fn assoc_get<T>(s: Seq<(Seq<char>, T)>, k: Seq<char>) -> Option<T> {
    match first_key_index(s, k) {
        Some(i) => Some(s[i].1),
        None => None,
    }
}

/// Binds `k` to `v`: replaces the first entry with key `k`, or appends a new entry.
pub open spec fn assoc_put<T>(s: Seq<(Seq<char>, T)>, k: Seq<char>, v: T) -> Seq<(Seq<char>, T)> {
    match first_key_index(s, k) {
        Some(i) => s.update(i, (k, v)),
        None => s.push((k, v)),
    }
}

/// The position of the first entry with key `k`.
pub fn find_key<T: DeepView>(entries: &Vec<(String, T)>, k: &str) -> (r: Option<usize>)
    ensures
        r is None <==> first_key_index(entries.deep_view(), k@) is None,
        r matches Some(i) ==> first_key_index(entries.deep_view(), k@) == Some(i as int) && i < entries@.len(),
{
    let ghost m = entries.deep_view();
    proof { lemma_first_key_index(m, k@); }
    let mut i: usize = 0;
    while i < entries.len()
        invariant
            i <= entries@.len(),
            m == entries.deep_view(),
            forall|j: int| 0 <= j < i ==> m[j].0 != k@,
        decreases entries@.len() - i,
    {
        assert(m[i as int].0 == entries@[i as int].0@);
        if crate::value::str_eq(entries[i].0.as_str(), k) {
            proof {
                lemma_first_key_index(m, k@);
                match first_key_index(m, k@) {
                    Some(f) => { assert(f == i); },
                    None => { assert(m[i as int].0 == k@); },
                }
            }
            return Some(i);
        }
        i = i + 1;
    }
    None
}

/// The value of the first entry with key `k`.
pub fn get_entry<'a, T: DeepView>(entries: &'a Vec<(String, T)>, k: &str) -> (r: Option<&'a T>)
    ensures
        r is Some == assoc_get(entries.deep_view(), k@) is Some,
        r is Some ==> (*r.unwrap()).deep_view() == assoc_get(entries.deep_view(), k@).unwrap(),
{
    proof { lemma_first_key_index(entries.deep_view(), k@); }
    match find_key(entries, k) {
        Some(i) => {
            assert(entries.deep_view()[i as int].1 == entries@[i as int].1.deep_view());
            let x = &entries[i].1;
            assert(x.deep_view() == entries@[i as int].1.deep_view());
            Some(x)
        },
        None => None,
    }
}

/// Binds `k` to `v` in an entry list: replaces the first entry with key `k`, or appends.
pub fn put_entry<T: DeepView>(entries: &mut Vec<(String, T)>, k: String, v: T)
    ensures
        final(entries).deep_view() == assoc_put(old(entries).deep_view(), k@, v.deep_view()),
{
    let ghost e0 = entries.deep_view();
    let ghost kv = k@;
    let ghost vv = v.deep_view();
    proof { lemma_first_key_index(e0, kv); }
    match find_key(entries, k.as_str()) {
        Some(i) => {
            entries.remove(i);
            entries.insert(i, (k, v));
            assert(entries.deep_view() =~= e0.update(i as int, (kv, vv)));
        },
        None => {
            entries.push((k, v));
            assert(entries.deep_view() =~= e0.push((kv, vv)));
        },
    }
}

/// How a native node checks its properties.
#[derive(Debug)]
pub enum PropValidation {
    /// Any property is allowed.
    Loose,
    /// Only the listed keys are allowed, each with its type.
    Strict(Vec<(String, Type)>),
}

/// A node provided by the host.
#[derive(Debug)]
pub struct NativeNodeSchema {
    pub node_type: String,
    pub enforce_id: bool,
    pub validation: PropValidation,
    /// Children count bounds `(min, max)`; `None` allows any number of children.
    pub child_count: Option<(u32, u32)>,
}

/// Functions built into the engine.
#[derive(Debug, PartialEq, Eq, Structural, Clone, Copy)]
pub enum Builtin {
    Print,
    ToString,
    AsInt,
    AsFloat,
    TypeOf,
    Len,
    Contains,
    Push,
    Pop,
    Keys,
    Values,
    /// `math.abs`.
    Abs,
}

/// Who runs a native function: the engine itself, or the host under a handle.
#[derive(Debug, PartialEq, Eq, Structural, Clone, Copy)]
pub enum NativeHandler {
    Builtin(Builtin),
    Host(u64),
}

/// A native function: name, parameter types, return type and who runs it.
#[derive(Debug)]
pub struct NativeFnSchema {
    pub name: String,
    pub params: Vec<Type>,
    pub return_type: Type,
    pub handler: NativeHandler,
}

/// Mathematical model of a [`NativeFnSchema`].
pub struct SNativeFn {
    pub name: Seq<char>,
    pub params: Seq<SType>,
    pub return_type: SType,
    pub handler: NativeHandler,
}

impl DeepView for NativeFnSchema {
    type V = SNativeFn;

    open spec fn deep_view(&self) -> SNativeFn {
        SNativeFn {
            name: self.name@,
            params: self.params.deep_view(),
            return_type: self.return_type@,
            handler: self.handler,
        }
    }
}

/// Mathematical model of a [`PropValidation`].
pub enum SPropValidation {
    Loose,
    Strict(Seq<(Seq<char>, SType)>),
}

/// Mathematical model of a [`NativeNodeSchema`].
pub struct SNodeSchema {
    pub node_type: Seq<char>,
    pub enforce_id: bool,
    pub validation: SPropValidation,
    pub child_count: Option<(u32, u32)>,
}

impl DeepView for NativeNodeSchema {
    type V = SNodeSchema;

    open spec fn deep_view(&self) -> SNodeSchema {
        SNodeSchema {
            node_type: self.node_type@,
            enforce_id: self.enforce_id,
            validation: match self.validation {
                PropValidation::Loose => SPropValidation::Loose,
                PropValidation::Strict(m) => SPropValidation::Strict(m.deep_view()),
            },
            child_count: self.child_count,
        }
    }
}


impl DeepView for ComponentDef {
    type V = ComponentDef;

    open spec fn deep_view(&self) -> ComponentDef {
        *self
    }
}

impl DeepView for FnDef {
    type V = FnDef;

    open spec fn deep_view(&self) -> FnDef {
        *self
    }
}

/// A copy of a list of types.
pub fn copy_types(ts: &Vec<Type>) -> (r: Vec<Type>)
    ensures
        r.deep_view() == ts.deep_view(),
{
    let mut out: Vec<Type> = Vec::new();
    let mut i: usize = 0;
    while i < ts.len()
        invariant
            i <= ts@.len(),
            out.deep_view() == ts.deep_view().take(i as int),
        decreases ts@.len() - i,
    {
        let t = ts[i].copy();
        let ghost before = out;
        let x = t;
        out.push(x);
        proof { lemma_dv_push(before, out, x); }
        assert(ts.deep_view().take(i + 1) =~= ts.deep_view().take(i as int).push(ts.deep_view()[i as int]));
        i = i + 1;
    }
    assert(ts.deep_view().take(ts@.len() as int) =~= ts.deep_view());
    out
}

/// A copy of a list of typed keys.
pub fn copy_type_entries(ts: &Vec<(String, Type)>) -> (r: Vec<(String, Type)>)
    ensures
        r.deep_view() == ts.deep_view(),
{
    let mut out: Vec<(String, Type)> = Vec::new();
    let mut i: usize = 0;
    while i < ts.len()
        invariant
            i <= ts@.len(),
            out.deep_view() == ts.deep_view().take(i as int),
        decreases ts@.len() - i,
    {
        let x = (ts[i].0.clone(), ts[i].1.copy());
        let ghost before = out;
        out.push(x);
        proof { lemma_dv_push(before, out, x); }
        assert(ts.deep_view().take(i + 1) =~= ts.deep_view().take(i as int).push(ts.deep_view()[i as int]));
        i = i + 1;
    }
    assert(ts.deep_view().take(ts@.len() as int) =~= ts.deep_view());
    out
}

impl NativeNodeSchema {
    /// A copy of the schema.
    pub fn copy(&self) -> (r: NativeNodeSchema)
        ensures
            r.deep_view() == self.deep_view(),
    {
        NativeNodeSchema {
            node_type: self.node_type.clone(),
            enforce_id: self.enforce_id,
            validation: match &self.validation {
                PropValidation::Loose => PropValidation::Loose,
                PropValidation::Strict(m) => PropValidation::Strict(copy_type_entries(m)),
            },
            child_count: self.child_count,
        }
    }
}

impl NativeFnSchema {
    /// A copy of the schema.
    pub fn copy(&self) -> (r: NativeFnSchema)
        ensures
            r.deep_view() == self.deep_view(),
    {
        NativeFnSchema {
            name: self.name.clone(),
            params: copy_types(&self.params),
            return_type: self.return_type.copy(),
            handler: self.handler,
        }
    }
}

/// A copy of an entry list of native functions.
pub fn copy_native_fns(v: &Vec<(String, NativeFnSchema)>) -> (r: Vec<(String, NativeFnSchema)>)
    ensures
        r.deep_view() == v.deep_view(),
{
    let mut out: Vec<(String, NativeFnSchema)> = Vec::new();
    let mut i: usize = 0;
    while i < v.len()
        invariant
            i <= v@.len(),
            out.deep_view() == v.deep_view().take(i as int),
        decreases v@.len() - i,
    {
        let e = (v[i].0.clone(), v[i].1.copy());
        let ghost before = out;
        let x = e;
        out.push(x);
        proof { lemma_dv_push(before, out, x); }
        assert(v.deep_view().take(i + 1) =~= v.deep_view().take(i as int).push(v.deep_view()[i as int]));
        i = i + 1;
    }
    assert(v.deep_view().take(v@.len() as int) =~= v.deep_view());
    out
}

/// A copy of an entry list of values.
pub fn copy_value_entries(v: &Vec<(String, Value)>) -> (r: Vec<(String, Value)>)
    ensures
        r.deep_view() == v.deep_view(),
{
    let mut out: Vec<(String, Value)> = Vec::new();
    let mut i: usize = 0;
    while i < v.len()
        invariant
            i <= v@.len(),
            out.deep_view() == v.deep_view().take(i as int),
        decreases v@.len() - i,
    {
        let e = (v[i].0.clone(), clone_value(&v[i].1));
        let ghost before = out;
        let x = e;
        out.push(x);
        proof { lemma_dv_push(before, out, x); }
        assert(v.deep_view().take(i + 1) =~= v.deep_view().take(i as int).push(v.deep_view()[i as int]));
        i = i + 1;
    }
    assert(v.deep_view().take(v@.len() as int) =~= v.deep_view());
    out
}

/// One importable item of a library: native functions and global values.
#[derive(Debug)]
pub struct LibraryItem {
    pub name: String,
    pub native_functions: Vec<(String, NativeFnSchema)>,
    pub globals: Vec<(String, Value)>,
}

/// Mathematical model of a [`LibraryItem`].
pub struct SLibraryItem {
    pub name: Seq<char>,
    pub native_functions: Seq<(Seq<char>, SNativeFn)>,
    pub globals: Seq<(Seq<char>, SValue)>,
}

impl DeepView for LibraryItem {
    type V = SLibraryItem;

    open spec fn deep_view(&self) -> SLibraryItem {
        SLibraryItem {
            name: self.name@,
            native_functions: self.native_functions.deep_view(),
            globals: self.globals.deep_view(),
        }
    }
}

/// A library that sources can import items from, e.g. `std`.
#[derive(Debug)]
pub struct Library {
    pub name: String,
    pub items: Vec<LibraryItem>,
}

/// Mathematical model of a [`Library`].
pub struct SLibrary {
    pub name: Seq<char>,
    pub items: Seq<SLibraryItem>,
}

impl DeepView for Library {
    type V = SLibrary;

    open spec fn deep_view(&self) -> SLibrary {
        SLibrary { name: self.name@, items: self.items.deep_view() }
    }
}

/// The index of the first element whose name is `name`.
pub open spec fn first_named(names: Seq<Seq<char>>, name: Seq<char>) -> Option<int>
    decreases names.len(),
{
    if names.len() == 0 {
        None
    } else {
        match first_named(names.drop_last(), name) {
            Some(i) => Some(i),
            None => if names.last() == name { Some(names.len() - 1) } else { None },
        }
    }
}

pub proof fn lemma_first_named(names: Seq<Seq<char>>, name: Seq<char>)
    ensures
        match first_named(names, name) {
            Some(i) => 0 <= i < names.len() && names[i] == name && forall|j: int| 0 <= j < i ==> names[j] != name,
            None => forall|j: int| 0 <= j < names.len() ==> names[j] != name,
        },
    decreases names.len(),
{
    if names.len() > 0 {
        lemma_first_named(names.drop_last(), name);
        assert forall|j: int| 0 <= j < names.len() - 1 implies names.drop_last()[j] == names[j] by {}
    }
}

/// Replaces the first element with the same name, or appends.
pub open spec fn put_named<T>(s: Seq<T>, names: Seq<Seq<char>>, name: Seq<char>, x: T) -> Seq<T> {
    match first_named(names, name) {
        Some(i) => s.update(i, x),
        None => s.push(x),
    }
}

pub open spec fn item_names(s: Seq<SLibraryItem>) -> Seq<Seq<char>> {
    s.map_values(|i: SLibraryItem| i.name)
}

pub open spec fn library_names(s: Seq<SLibrary>) -> Seq<Seq<char>> {
    s.map_values(|l: SLibrary| l.name)
}

impl LibraryItem {
    /// A copy of the item.
    pub fn copy(&self) -> (r: LibraryItem)
        ensures
            r.deep_view() == self.deep_view(),
    {
        LibraryItem {
            name: self.name.clone(),
            native_functions: copy_native_fns(&self.native_functions),
            globals: copy_value_entries(&self.globals),
        }
    }

    /// Starts a new, empty item definition.
    pub fn define(name: String) -> (r: LibraryItem)
        ensures
            r.deep_view() == (SLibraryItem { name: name@, native_functions: Seq::empty(), globals: Seq::empty() }),
    {
        let r = LibraryItem { name, native_functions: Vec::new(), globals: Vec::new() };
        assert(r.native_functions.deep_view() =~= Seq::empty());
        assert(r.globals.deep_view() =~= Seq::empty());
        r
    }

    /// The item with one more native function, run by `handler`.
    pub fn with_fn(self, name: &str, params: Vec<Type>, ret: Type, handler: NativeHandler) -> (r: LibraryItem)
        ensures
            r.deep_view() == (SLibraryItem {
                native_functions: assoc_put(self.deep_view().native_functions, name@,
                    SNativeFn { name: name@, params: params.deep_view(), return_type: ret@, handler }),
                ..self.deep_view()
            }),
    {
        let mut s = self;
        s.add_native_fn(name, params, ret, handler);
        s
    }

    /// The item with one more global value.
    pub fn with_global(self, name: &str, value: Value) -> (r: LibraryItem)
        ensures
            r.deep_view() == (SLibraryItem {
                globals: assoc_put(self.deep_view().globals, name@, value@),
                ..self.deep_view()
            }),
    {
        let mut s = self;
        s.set_global(name, value);
        s
    }

    /// The name of the item.
    pub fn name(&self) -> (r: String)
        ensures
            r@ == self.name@,
    {
        self.name.clone()
    }

    /// Renames the item.
    pub fn set_name(&mut self, name: String)
        ensures
            final(self).deep_view() == (SLibraryItem { name: name@, ..old(self).deep_view() }),
    {
        self.name = name;
    }

    /// Registers (or replaces) a native function run by `handler`.
    pub fn add_native_fn(&mut self, name: &str, params: Vec<Type>, return_type: Type, handler: NativeHandler)
        ensures
            final(self).deep_view() == (SLibraryItem {
                native_functions: assoc_put(old(self).deep_view().native_functions, name@,
                    SNativeFn { name: name@, params: params.deep_view(), return_type: return_type@, handler }),
                ..old(self).deep_view()
            }),
    {
        let schema = NativeFnSchema {
            name: crate::text::to_owned_string(name),
            params,
            return_type,
            handler,
        };
        put_entry(&mut self.native_functions, crate::text::to_owned_string(name), schema);
    }

    /// Sets (or replaces) a global value.
    pub fn set_global(&mut self, name: &str, value: Value)
        ensures
            final(self).deep_view() == (SLibraryItem {
                globals: assoc_put(old(self).deep_view().globals, name@, value@),
                ..old(self).deep_view()
            }),
    {
        put_entry(&mut self.globals, crate::text::to_owned_string(name), value);
    }
}

/// The position of the first element of `names` equal to `name`.
pub(crate) fn find_name(names: &Vec<String>, name: &str) -> (r: Option<usize>)
    ensures
        r is None <==> first_named(names@.map_values(|n: String| n@), name@) is None,
        r matches Some(i) ==> first_named(names@.map_values(|n: String| n@), name@) == Some(i as int)
            && i < names@.len(),
{
    let ghost m = names@.map_values(|n: String| n@);
    proof { lemma_first_named(m, name@); }
    let mut i: usize = 0;
    while i < names.len()
        invariant
            i <= names@.len(),
            m == names@.map_values(|n: String| n@),
            forall|j: int| 0 <= j < i ==> m[j] != name@,
        decreases names@.len() - i,
    {
        assert(m[i as int] == names@[i as int]@);
        if crate::value::str_eq(names[i].as_str(), name) {
            proof {
                lemma_first_named(m, name@);
                match first_named(m, name@) {
                    Some(f) => { assert(f == i); },
                    None => { assert(m[i as int] == name@); },
                }
            }
            return Some(i);
        }
        i = i + 1;
    }
    None
}

impl Library {
    /// A new library.
    pub fn new(name: String, items: Vec<LibraryItem>) -> (r: Library)
        ensures
            r.deep_view() == (SLibrary { name: name@, items: items.deep_view() }),
    {
        Library { name, items }
    }

    /// A copy of the library.
    pub fn copy(&self) -> (r: Library)
        ensures
            r.deep_view() == self.deep_view(),
    {
        Library { name: self.name.clone(), items: self.items() }
    }

    /// The name of the library.
    pub fn name(&self) -> (r: String)
        ensures
            r@ == self.name@,
    {
        self.name.clone()
    }

    /// Renames the library.
    pub fn set_name(&mut self, name: String)
        ensures
            final(self).deep_view() == (SLibrary { name: name@, ..old(self).deep_view() }),
    {
        self.name = name;
    }

    /// Copies of all the items.
    pub fn items(&self) -> (r: Vec<LibraryItem>)
        ensures
            r.deep_view() == self.items.deep_view(),
    {
        let mut out: Vec<LibraryItem> = Vec::new();
        let mut i: usize = 0;
        while i < self.items.len()
            invariant
                i <= self.items@.len(),
                out.deep_view() == self.items.deep_view().take(i as int),
            decreases self.items@.len() - i,
        {
            let ghost before = out;
            let x = self.items[i].copy();
            out.push(x);
            proof { lemma_dv_push(before, out, x); }
            assert(self.items.deep_view().take(i + 1) =~= self.items.deep_view().take(i as int).push(self.items.deep_view()[i as int]));
            i = i + 1;
        }
        assert(self.items.deep_view().take(self.items@.len() as int) =~= self.items.deep_view());
        out
    }

    fn item_name_list(&self) -> (r: Vec<String>)
        ensures
            r@.map_values(|n: String| n@) == item_names(self.items.deep_view()),
    {
        let mut out: Vec<String> = Vec::new();
        let mut i: usize = 0;
        while i < self.items.len()
            invariant
                i <= self.items@.len(),
                out@.len() == i,
                forall|j: int| 0 <= j < i ==> (#[trigger] out@[j])@ == self.items@[j].name@,
            decreases self.items@.len() - i,
        {
            out.push(self.items[i].name.clone());
            i = i + 1;
        }
        assert(out@.map_values(|n: String| n@) =~= item_names(self.items.deep_view()));
        out
    }

    /// A copy of the first item named `name`, if any.
    pub fn get_item(&self, name: String) -> (r: Option<LibraryItem>)
        ensures
            match first_named(item_names(self.items.deep_view()), name@) {
                Some(i) => r matches Some(it) && it.deep_view() == self.items.deep_view()[i],
                None => r is None,
            },
    {
        let names = self.item_name_list();
        match find_name(&names, name.as_str()) {
            Some(i) => {
                proof { assert(i < self.items@.len()); }
                Some(self.items[i].copy())
            },
            None => None,
        }
    }

    /// Adds an item, replacing the first item with the same name.
    pub fn add_item(&mut self, item: LibraryItem)
        ensures
            final(self).deep_view() == (SLibrary {
                items: put_named(old(self).items.deep_view(), item_names(old(self).items.deep_view()), item.name@, item.deep_view()),
                ..old(self).deep_view()
            }),
    {
        let names = self.item_name_list();
        let ghost d0 = self.items.deep_view();
        let ghost iv = item.deep_view();
        match find_name(&names, item.name.as_str()) {
            Some(i) => {
                self.items.remove(i);
                self.items.insert(i, item);
                assert(self.items.deep_view() =~= d0.update(i as int, iv));
            },
            None => {
                self.items.push(item);
                assert(self.items.deep_view() =~= d0.push(iv));
            },
        }
    }
}

/// Binds every entry of `t`, in order, into `s` (later entries win).
pub open spec fn put_all<T>(s: Seq<(Seq<char>, T)>, t: Seq<(Seq<char>, T)>) -> Seq<(Seq<char>, T)>
    decreases t.len(),
{
    if t.len() == 0 {
        s
    } else {
        let p = put_all(s, t.drop_last());
        assoc_put(p, t.last().0, t.last().1)
    }
}

/// Moves every entry of `src` into `dst`, in order, binding each key.
pub fn put_all_entries<T: DeepView>(dst: &mut Vec<(String, T)>, src: Vec<(String, T)>)
    ensures
        final(dst).deep_view() == put_all(old(dst).deep_view(), src.deep_view()),
{
    let ghost d0 = dst.deep_view();
    let ghost t = src.deep_view();
    let mut src = src;
    let mut k: usize = 0;
    let n = src.len();
    while k < n
        invariant
            n == t.len(),
            k <= n,
            src.deep_view() == t.skip(k as int),
            dst.deep_view() == put_all(d0, t.take(k as int)),
        decreases n - k,
    {
        let ghost before = src;
        assert(src.deep_view().len() == src@.len());
        let e = src.remove(0);
        proof {
            lemma_dv_remove0(before, src);
            assert(src.deep_view() =~= t.skip(k + 1));
            assert(e.deep_view() == before.deep_view()[0]);
            assert(t.take(k + 1).drop_last() =~= t.take(k as int));
            assert(t.take(k + 1).last() == t[k as int]);
        }
        put_entry(dst, e.0, e.1);
        k = k + 1;
    }
    assert(t.take(n as int) =~= t);
}

/// `a` with `b` merged in: `b`'s entries bound in order (later wins), its libraries
/// appended, and its current file taking over when set.
pub open spec fn merged(a: SRegistry, b: SRegistry) -> SRegistry {
    SRegistry {
        native_nodes: put_all(a.native_nodes, b.native_nodes),
        components: put_all(a.components, b.components),
        native_functions: put_all(a.native_functions, b.native_functions),
        functions: put_all(a.functions, b.functions),
        globals: put_all(a.globals, b.globals),
        libraries: a.libraries + b.libraries,
        current_file: match b.current_file {
            Some(f) => Some(f),
            None => a.current_file,
        },
    }
}

/// Everything an evaluation knows about by name.
#[derive(Debug)]
pub struct Registry {
    /// Nodes provided by the host, by node type.
    pub native_nodes: Vec<(String, NativeNodeSchema)>,
    /// Components defined in sources, by name.
    pub components: Vec<(String, Rc<ComponentDef>)>,
    /// Native functions, by name.
    pub native_functions: Vec<(String, NativeFnSchema)>,
    /// Functions and lambdas defined in sources, by name.
    pub functions: Vec<(String, Rc<FnDef>)>,
    /// Global variables, by name.
    pub globals: Vec<(String, Value)>,
    /// Libraries that sources can import from.
    pub libraries: Vec<Library>,
    /// The file being evaluated, if known.
    pub current_file: Option<String>,
}

/// Mathematical model of a [`Registry`].
pub struct SRegistry {
    pub native_nodes: Seq<(Seq<char>, SNodeSchema)>,
    pub components: Seq<(Seq<char>, ComponentDef)>,
    pub native_functions: Seq<(Seq<char>, SNativeFn)>,
    pub functions: Seq<(Seq<char>, FnDef)>,
    pub globals: Seq<(Seq<char>, SValue)>,
    pub libraries: Seq<SLibrary>,
    pub current_file: Option<Seq<char>>,
}

impl DeepView for Registry {
    type V = SRegistry;

    open spec fn deep_view(&self) -> SRegistry {
        SRegistry {
            native_nodes: self.native_nodes.deep_view(),
            components: self.components.deep_view(),
            native_functions: self.native_functions.deep_view(),
            functions: self.functions.deep_view(),
            globals: self.globals.deep_view(),
            libraries: self.libraries.deep_view(),
            current_file: match self.current_file { Some(f) => Some(f@), None => None },
        }
    }
}

/// The registry with nothing in it.
pub open spec fn empty_registry() -> SRegistry {
    SRegistry {
        native_nodes: Seq::empty(),
        components: Seq::empty(),
        native_functions: Seq::empty(),
        functions: Seq::empty(),
        globals: Seq::empty(),
        libraries: Seq::empty(),
        current_file: None,
    }
}

impl Registry {
    /// An empty registry.
    pub fn new() -> (r: Registry)
        ensures
            r.deep_view() == empty_registry(),
    {
        let r = Registry {
            native_nodes: Vec::new(),
            components: Vec::new(),
            native_functions: Vec::new(),
            functions: Vec::new(),
            globals: Vec::new(),
            libraries: Vec::new(),
            current_file: None,
        };
        assert(r.native_nodes.deep_view() =~= Seq::empty());
        assert(r.components.deep_view() =~= Seq::empty());
        assert(r.native_functions.deep_view() =~= Seq::empty());
        assert(r.functions.deep_view() =~= Seq::empty());
        assert(r.globals.deep_view() =~= Seq::empty());
        assert(r.libraries.deep_view() =~= Seq::empty());
        r
    }

    /// Registers (or replaces) a native function.
    pub fn add_native_fn(&mut self, name: &str, params: Vec<Type>, return_type: Type, handler: NativeHandler)
        ensures
            final(self).deep_view() == (SRegistry {
                native_functions: assoc_put(old(self).deep_view().native_functions, name@,
                    SNativeFn { name: name@, params: params.deep_view(), return_type: return_type@, handler }),
                ..old(self).deep_view()
            }),
    {
        let schema = NativeFnSchema { name: crate::text::to_owned_string(name), params, return_type, handler };
        put_entry(&mut self.native_functions, crate::text::to_owned_string(name), schema);
    }

    /// Registers (or replaces) a native node under its node type.
    pub fn add_node(&mut self, schema: NativeNodeSchema)
        ensures
            final(self).deep_view() == (SRegistry {
                native_nodes: assoc_put(old(self).deep_view().native_nodes, schema.node_type@, schema.deep_view()),
                ..old(self).deep_view()
            }),
    {
        let key = schema.node_type.clone();
        put_entry(&mut self.native_nodes, key, schema);
    }

    /// Registers (or replaces) a component under its name.
    pub fn register_component(&mut self, def: Rc<ComponentDef>)
        ensures
            final(self).deep_view() == (SRegistry {
                components: assoc_put(old(self).deep_view().components, def.name@, *def),
                ..old(self).deep_view()
            }),
    {
        let key = def.name.clone();
        put_entry(&mut self.components, key, def);
    }

    /// Registers (or replaces) a function under its name.
    pub fn register_function(&mut self, def: Rc<FnDef>)
        ensures
            final(self).deep_view() == (SRegistry {
                functions: assoc_put(old(self).deep_view().functions, def.name@, *def),
                ..old(self).deep_view()
            }),
    {
        let key = def.name.clone();
        put_entry(&mut self.functions, key, def);
    }

    /// Sets (or replaces) a global variable.
    pub fn set_global(&mut self, name: &str, value: Value)
        ensures
            final(self).deep_view() == (SRegistry {
                globals: assoc_put(old(self).deep_view().globals, name@, value@),
                ..old(self).deep_view()
            }),
    {
        put_entry(&mut self.globals, crate::text::to_owned_string(name), value);
    }

    /// Adds a library, replacing the first library with the same name.
    pub fn add_library(&mut self, library: Library)
        ensures
            final(self).deep_view() == (SRegistry {
                libraries: put_named(old(self).deep_view().libraries, library_names(old(self).deep_view().libraries),
                    library.name@, library.deep_view()),
                ..old(self).deep_view()
            }),
    {
        let mut names: Vec<String> = Vec::new();
        let mut i: usize = 0;
        while i < self.libraries.len()
            invariant
                i <= self.libraries@.len(),
                names@.len() == i,
                forall|j: int| 0 <= j < i ==> (#[trigger] names@[j])@ == self.libraries@[j].name@,
            decreases self.libraries@.len() - i,
        {
            names.push(self.libraries[i].name.clone());
            i = i + 1;
        }
        assert(names@.map_values(|n: String| n@) =~= library_names(self.libraries.deep_view()));
        let ghost d0 = self.libraries.deep_view();
        let ghost lv = library.deep_view();
        match find_name(&names, library.name.as_str()) {
            Some(k) => {
                self.libraries.remove(k);
                self.libraries.insert(k, library);
                assert(self.libraries.deep_view() =~= d0.update(k as int, lv));
            },
            None => {
                self.libraries.push(library);
                assert(self.libraries.deep_view() =~= d0.push(lv));
            },
        }
    }

    /// A copy of the registry (definitions are shared).
    pub fn copy(&self) -> (r: Registry)
        ensures
            r.deep_view() == self.deep_view(),
    {
        let mut nodes: Vec<(String, NativeNodeSchema)> = Vec::new();
        let mut i: usize = 0;
        while i < self.native_nodes.len()
            invariant
                i <= self.native_nodes@.len(),
                nodes.deep_view() == self.native_nodes.deep_view().take(i as int),
            decreases self.native_nodes@.len() - i,
        {
            let x = (self.native_nodes[i].0.clone(), self.native_nodes[i].1.copy());
            let ghost before = nodes;
            nodes.push(x);
            proof { lemma_dv_push(before, nodes, x); }
            assert(self.native_nodes.deep_view().take(i + 1) =~= self.native_nodes.deep_view().take(i as int).push(self.native_nodes.deep_view()[i as int]));
            i = i + 1;
        }
        assert(self.native_nodes.deep_view().take(self.native_nodes@.len() as int) =~= self.native_nodes.deep_view());
        let mut comps: Vec<(String, Rc<ComponentDef>)> = Vec::new();
        let mut i: usize = 0;
        while i < self.components.len()
            invariant
                i <= self.components@.len(),
                comps.deep_view() == self.components.deep_view().take(i as int),
            decreases self.components@.len() - i,
        {
            let x = (self.components[i].0.clone(), share(&self.components[i].1));
            let ghost before = comps;
            comps.push(x);
            proof { lemma_dv_push(before, comps, x); }
            assert(self.components.deep_view().take(i + 1) =~= self.components.deep_view().take(i as int).push(self.components.deep_view()[i as int]));
            i = i + 1;
        }
        assert(self.components.deep_view().take(self.components@.len() as int) =~= self.components.deep_view());
        let mut fns: Vec<(String, Rc<FnDef>)> = Vec::new();
        let mut i: usize = 0;
        while i < self.functions.len()
            invariant
                i <= self.functions@.len(),
                fns.deep_view() == self.functions.deep_view().take(i as int),
            decreases self.functions@.len() - i,
        {
            let x = (self.functions[i].0.clone(), share(&self.functions[i].1));
            let ghost before = fns;
            fns.push(x);
            proof { lemma_dv_push(before, fns, x); }
            assert(self.functions.deep_view().take(i + 1) =~= self.functions.deep_view().take(i as int).push(self.functions.deep_view()[i as int]));
            i = i + 1;
        }
        assert(self.functions.deep_view().take(self.functions@.len() as int) =~= self.functions.deep_view());
        let mut libs: Vec<Library> = Vec::new();
        let mut i: usize = 0;
        while i < self.libraries.len()
            invariant
                i <= self.libraries@.len(),
                libs.deep_view() == self.libraries.deep_view().take(i as int),
            decreases self.libraries@.len() - i,
        {
            let x = self.libraries[i].copy();
            let ghost before = libs;
            libs.push(x);
            proof { lemma_dv_push(before, libs, x); }
            assert(self.libraries.deep_view().take(i + 1) =~= self.libraries.deep_view().take(i as int).push(self.libraries.deep_view()[i as int]));
            i = i + 1;
        }
        assert(self.libraries.deep_view().take(self.libraries@.len() as int) =~= self.libraries.deep_view());
        Registry {
            native_nodes: nodes,
            components: comps,
            native_functions: copy_native_fns(&self.native_functions),
            functions: fns,
            globals: copy_value_entries(&self.globals),
            libraries: libs,
            current_file: match &self.current_file { Some(f) => Some(f.clone()), None => None },
        }
    }

    /// The position of the first library named `name`.
    pub fn find_library(&self, name: &str) -> (r: Option<usize>)
        ensures
            r is None <==> first_named(library_names(self.deep_view().libraries), name@) is None,
            r matches Some(i) ==> first_named(library_names(self.deep_view().libraries), name@) == Some(i as int)
                && i < self.libraries@.len(),
    {
        let mut names: Vec<String> = Vec::new();
        let mut i: usize = 0;
        while i < self.libraries.len()
            invariant
                i <= self.libraries@.len(),
                names@.len() == i,
                forall|j: int| 0 <= j < i ==> (#[trigger] names@[j])@ == self.libraries@[j].name@,
            decreases self.libraries@.len() - i,
        {
            names.push(self.libraries[i].name.clone());
            i = i + 1;
        }
        assert(names@.map_values(|n: String| n@) =~= library_names(self.libraries.deep_view()));
        find_name(&names, name)
    }

    /// Merges `other` into this registry: its entries are bound in order (later wins),
    /// its libraries are appended, and its current file replaces ours when set.
    pub fn extend(&mut self, other: Registry)
        ensures
            final(self).deep_view() == merged(old(self).deep_view(), other.deep_view()),
    {
        let Registry { native_nodes, components, native_functions, functions, globals, libraries, current_file } = other;
        put_all_entries(&mut self.components, components);
        put_all_entries(&mut self.native_nodes, native_nodes);
        put_all_entries(&mut self.native_functions, native_functions);
        put_all_entries(&mut self.functions, functions);
        put_all_entries(&mut self.globals, globals);
        let ghost l0 = self.libraries.deep_view();
        let ghost l1 = libraries.deep_view();
        let mut libraries = libraries;
        self.libraries.append(&mut libraries);
        assert(self.libraries.deep_view() =~= l0 + l1);
        match current_file {
            Some(f) => { self.current_file = Some(f); },
            None => {},
        }
    }
}

/// The built-in native functions: name, parameter types, return type.
pub open spec fn builtin_table() -> Seq<(Seq<char>, Seq<SType>, SType, Builtin)> {
    seq![
        ("print"@, seq![SType::Any], SType::Null, Builtin::Print),
        ("to_string"@, seq![SType::Any], SType::Str, Builtin::ToString),
        ("as_int"@, seq![SType::Any], SType::Int, Builtin::AsInt),
        ("as_float"@, seq![SType::Any], SType::Float, Builtin::AsFloat),
        ("type_of"@, seq![SType::Any], SType::Str, Builtin::TypeOf),
        ("len"@, seq![SType::Any], SType::Int, Builtin::Len),
        ("contains"@, seq![SType::Any, SType::Any], SType::Bool, Builtin::Contains),
        ("push"@, seq![SType::List, SType::Any], SType::List, Builtin::Push),
        ("pop"@, seq![SType::List], SType::Any, Builtin::Pop),
        ("keys"@, seq![SType::Dict], SType::List, Builtin::Keys),
        ("values"@, seq![SType::Dict], SType::List, Builtin::Values),
    ]
}

/// The native functions after registering the built-ins, in order, into `s`.
pub open spec fn with_builtins(s: Seq<(Seq<char>, SNativeFn)>, k: nat) -> Seq<(Seq<char>, SNativeFn)>
    decreases k,
{
    if k == 0 {
        s
    } else {
        let e = builtin_table()[k - 1];
        assoc_put(with_builtins(s, (k - 1) as nat), e.0, SNativeFn { name: e.0, params: e.1, return_type: e.2, handler: NativeHandler::Builtin(e.3) })
    }
}

/// A list of one type.
pub(crate) fn types1(a: Type) -> (r: Vec<Type>)
    ensures
        r.deep_view() == seq![a@],
{
    let mut v: Vec<Type> = Vec::new();
    v.push(a);
    assert(v.deep_view() =~= seq![a@]);
    v
}

/// A list of two types.
pub(crate) fn types2(a: Type, b: Type) -> (r: Vec<Type>)
    ensures
        r.deep_view() == seq![a@, b@],
{
    let mut v: Vec<Type> = Vec::new();
    v.push(a);
    v.push(b);
    assert(v.deep_view() =~= seq![a@, b@]);
    v
}

/// Registers the built-in functions (`print`, `to_string`, `as_int`, `as_float`,
/// `type_of`, `len`, `contains`, `push`, `pop`, `keys`, `values`).
pub fn register_builtin_functions(registry: &mut Registry)
    ensures
        final(registry).deep_view() == (SRegistry {
            native_functions: with_builtins(old(registry).deep_view().native_functions, 11),
            ..old(registry).deep_view()
        }),
{
    proof {
        reveal_strlit("print"); reveal_strlit("to_string"); reveal_strlit("as_int"); reveal_strlit("as_float");
        reveal_strlit("type_of"); reveal_strlit("len"); reveal_strlit("contains"); reveal_strlit("push");
        reveal_strlit("pop"); reveal_strlit("keys"); reveal_strlit("values");
        reveal_with_fuel(with_builtins, 12);
    }
    registry.add_native_fn("print", types1(Type::Any), Type::Null, NativeHandler::Builtin(Builtin::Print));
    registry.add_native_fn("to_string", types1(Type::Any), Type::Str, NativeHandler::Builtin(Builtin::ToString));
    registry.add_native_fn("as_int", types1(Type::Any), Type::Int, NativeHandler::Builtin(Builtin::AsInt));
    registry.add_native_fn("as_float", types1(Type::Any), Type::Float, NativeHandler::Builtin(Builtin::AsFloat));
    registry.add_native_fn("type_of", types1(Type::Any), Type::Str, NativeHandler::Builtin(Builtin::TypeOf));
    registry.add_native_fn("len", types1(Type::Any), Type::Int, NativeHandler::Builtin(Builtin::Len));
    registry.add_native_fn("contains", types2(Type::Any, Type::Any), Type::Bool, NativeHandler::Builtin(Builtin::Contains));
    registry.add_native_fn("push", types2(Type::List, Type::Any), Type::List, NativeHandler::Builtin(Builtin::Push));
    registry.add_native_fn("pop", types1(Type::List), Type::Any, NativeHandler::Builtin(Builtin::Pop));
    registry.add_native_fn("keys", types1(Type::Dict), Type::List, NativeHandler::Builtin(Builtin::Keys));
    registry.add_native_fn("values", types1(Type::Dict), Type::List, NativeHandler::Builtin(Builtin::Values));
}

/// Registers the universal `Object` node: no id required, any properties.
pub fn register_builtin_nodes(registry: &mut Registry)
    ensures
        final(registry).deep_view() == (SRegistry {
            native_nodes: assoc_put(old(registry).deep_view().native_nodes, "Object"@,
                SNodeSchema { node_type: "Object"@, enforce_id: false, validation: SPropValidation::Loose, child_count: None }),
            ..old(registry).deep_view()
        }),
{
    registry.add_node(NativeNodeSchema {
        node_type: crate::text::to_owned_string("Object"),
        enforce_id: false,
        validation: PropValidation::Loose,
        child_count: None,
    });
}
} // verus!
