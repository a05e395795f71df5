//! The engine: a registry with the built-ins and the standard library, and the entry
//! points that evaluate files and call functions.
use vstd::prelude::*;
use crate::ast::File;
use crate::error::NbclError;
use crate::host::Host;
use crate::registry::{
    Builtin, Library, LibraryItem, NativeHandler, NativeNodeSchema, Registry, SLibrary, SLibraryItem,
    SNativeFn, SNodeSchema, SRegistry, assoc_get, assoc_put, empty_registry, get_entry, library_names,
    put_named, register_builtin_functions, register_builtin_nodes, share, types1, types2, with_builtins,
    SPropValidation,
};
use crate::semantics::{call_user, err_res, initial_state, run_file, val_res};
use crate::state::{Evaluator, Out, SErr, SState};
use crate::text::{concat3, push_str, to_owned_string, usize_to_string};
use crate::toplevel::tree_res;
use crate::value::{ResolvedTree, SNode, SType, SValue, Type, Value, lemma_view_values, view_values};

use crate::builder::ImportFeatures;
verus! {

/// Host handles of the standard library's functions.
pub const MATH_SQRT: u64 = 1;
pub const MATH_CBRT: u64 = 2;
pub const MATH_POW: u64 = 3;
pub const MATH_FLOOR: u64 = 4;
pub const MATH_CEIL: u64 = 5;
pub const MATH_ROUND: u64 = 6;
pub const MATH_TRUNC: u64 = 7;
pub const MATH_SIN: u64 = 8;
pub const MATH_COS: u64 = 9;
pub const MATH_TAN: u64 = 10;
pub const MATH_ASIN: u64 = 11;
pub const MATH_ATAN2: u64 = 12;
pub const TIME_NOW: u64 = 13;
pub const TIME_MARK: u64 = 14;
pub const TIME_ELAPSED: u64 = 15;
pub const TIME_SLEEP: u64 = 16;

/// The item with one more native function.
pub open spec fn item_fn(it: SLibraryItem, name: Seq<char>, params: Seq<SType>, ret: SType, handler: NativeHandler) -> SLibraryItem {
    SLibraryItem {
        native_functions: assoc_put(it.native_functions, name, SNativeFn { name, params, return_type: ret, handler }),
        ..it
    }
}

/// The item with one more global value.
pub open spec fn item_global(it: SLibraryItem, name: Seq<char>, v: SValue) -> SLibraryItem {
    SLibraryItem { globals: assoc_put(it.globals, name, v), ..it }
}

/// A function of one float to a float, run by the host.
pub open spec fn float_fn(it: SLibraryItem, name: Seq<char>, h: u64) -> SLibraryItem {
    item_fn(it, name, seq![SType::Float], SType::Float, NativeHandler::Host(h))
}

/// The `math` item of the standard library: constants (as double bit patterns), `abs`,
/// and float functions run by the host.
pub open spec fn math_item() -> SLibraryItem {
    let it = SLibraryItem { name: "math"@, native_functions: Seq::empty(), globals: Seq::empty() };
    let it = item_global(it, "PI"@, SValue::Float(0x400921fb54442d18));
    let it = item_global(it, "E"@, SValue::Float(0x4005bf0a8b145769));
    let it = item_global(it, "SQRT2"@, SValue::Float(0x3ff6a09e667f3bcd));
    let it = item_global(it, "SQRT1_2"@, SValue::Float(0x3fe6a09e667f3bcd));
    let it = item_global(it, "LN2"@, SValue::Float(0x3fe62e42fefa39ef));
    let it = item_global(it, "LN_10"@, SValue::Float(0x40026bb1bbb55516));
    let it = item_fn(it, "abs"@, seq![SType::Int], SType::Int, NativeHandler::Builtin(Builtin::Abs));
    let it = float_fn(it, "sqrt"@, MATH_SQRT);
    let it = float_fn(it, "cbrt"@, MATH_CBRT);
    let it = item_fn(it, "pow"@, seq![SType::Float, SType::Float], SType::Float, NativeHandler::Host(MATH_POW));
    let it = float_fn(it, "floor"@, MATH_FLOOR);
    let it = float_fn(it, "ceil"@, MATH_CEIL);
    let it = float_fn(it, "round"@, MATH_ROUND);
    let it = float_fn(it, "trunc"@, MATH_TRUNC);
    let it = float_fn(it, "sin"@, MATH_SIN);
    let it = float_fn(it, "cos"@, MATH_COS);
    let it = float_fn(it, "tan"@, MATH_TAN);
    let it = float_fn(it, "asin"@, MATH_ASIN);
    item_fn(it, "atan2"@, seq![SType::Float, SType::Float], SType::Float, NativeHandler::Host(MATH_ATAN2))
}

/// The `time` item of the standard library: clock functions run by the host.
pub open spec fn time_item() -> SLibraryItem {
    let it = SLibraryItem { name: "time"@, native_functions: Seq::empty(), globals: Seq::empty() };
    let it = item_fn(it, "now"@, Seq::empty(), SType::Float, NativeHandler::Host(TIME_NOW));
    let it = item_fn(it, "mark"@, Seq::empty(), SType::Float, NativeHandler::Host(TIME_MARK));
    let it = item_fn(it, "elapsed"@, seq![SType::Float], SType::Float, NativeHandler::Host(TIME_ELAPSED));
    item_fn(it, "sleep"@, seq![SType::Int], SType::Null, NativeHandler::Host(TIME_SLEEP))
}

/// The standard library.
pub open spec fn std_library() -> SLibrary {
    SLibrary { name: "std"@, items: seq![math_item(), time_item()] }
}

/// The registry of a new engine: the built-in functions, the standard library and the
/// `Object` node.
pub open spec fn default_registry() -> SRegistry {
    let r = empty_registry();
    let r = SRegistry { native_functions: with_builtins(r.native_functions, 11), ..r };
    let r = SRegistry { libraries: put_named(r.libraries, library_names(r.libraries), "std"@, std_library()), ..r };
    SRegistry {
        native_nodes: assoc_put(r.native_nodes, "Object"@,
            SNodeSchema { node_type: "Object"@, enforce_id: false, validation: SPropValidation::Loose, child_count: None }),
        ..r
    }
}

/// An `Ast` error with the given message and hint, and no span.
pub open spec fn ast_err(message: Seq<char>, hint: Seq<char>) -> SErr {
    SErr { kind: crate::error::ErrorKind::Ast, message, hint: Some(hint), span: None }
}

/// Calling the user function `name` of a registry from outside, with `args`.
pub open spec fn call_entry(reg: SRegistry, max_depth: usize, name: Seq<char>, args: Seq<SValue>, fuel: nat) -> Out<(SState, SValue)> {
    match assoc_get(reg.functions, name) {
        None => Out::Fail(ast_err("function or lambda identifier '"@ + name + "' could not be resolved"@,
            "Ensure the function was registered or declared before invoking it."@)),
        Some(def) => if def.params@.len() != args.len() {
            Out::Fail(ast_err("argument count mismatch for function '"@ + name + "': expected "@
                + crate::text::dec_nat(def.params@.len()) + ", got "@ + crate::text::dec_nat(args.len()),
                "Verify your parameter count match over the FFI boundary."@))
        } else {
            call_user(initial_state(reg, max_depth), def, args, fuel)
        },
    }
}

fn float_item_fn(it: LibraryItem, name: &str, h: u64) -> (r: LibraryItem)
    ensures
        r.deep_view() == float_fn(it.deep_view(), name@, h),
{
    it.with_fn(name, types1(Type::Float), Type::Float, NativeHandler::Host(h))
}

/// Builds the `math` item.
fn math_library_item() -> (r: LibraryItem)
    ensures
        r.deep_view() == math_item(),
{
    let it = LibraryItem::define(to_owned_string("math"));
    let it = it.with_global("PI", Value::Float(0x400921fb54442d18));
    let it = it.with_global("E", Value::Float(0x4005bf0a8b145769));
    let it = it.with_global("SQRT2", Value::Float(0x3ff6a09e667f3bcd));
    let it = it.with_global("SQRT1_2", Value::Float(0x3fe6a09e667f3bcd));
    let it = it.with_global("LN2", Value::Float(0x3fe62e42fefa39ef));
    let it = it.with_global("LN_10", Value::Float(0x40026bb1bbb55516));
    let it = it.with_fn("abs", types1(Type::Int), Type::Int, NativeHandler::Builtin(Builtin::Abs));
    let it = float_item_fn(it, "sqrt", MATH_SQRT);
    let it = float_item_fn(it, "cbrt", MATH_CBRT);
    let it = it.with_fn("pow", types2(Type::Float, Type::Float), Type::Float, NativeHandler::Host(MATH_POW));
    let it = float_item_fn(it, "floor", MATH_FLOOR);
    let it = float_item_fn(it, "ceil", MATH_CEIL);
    let it = float_item_fn(it, "round", MATH_ROUND);
    let it = float_item_fn(it, "trunc", MATH_TRUNC);
    let it = float_item_fn(it, "sin", MATH_SIN);
    let it = float_item_fn(it, "cos", MATH_COS);
    let it = float_item_fn(it, "tan", MATH_TAN);
    let it = float_item_fn(it, "asin", MATH_ASIN);
    it.with_fn("atan2", types2(Type::Float, Type::Float), Type::Float, NativeHandler::Host(MATH_ATAN2))
}

/// Builds the `time` item.
fn time_library_item() -> (r: LibraryItem)
    ensures
        r.deep_view() == time_item(),
{
    let it = LibraryItem::define(to_owned_string("time"));
    let none: Vec<Type> = Vec::new();
    assert(none.deep_view() =~= Seq::<SType>::empty());
    let it = it.with_fn("now", none, Type::Float, NativeHandler::Host(TIME_NOW));
    let none: Vec<Type> = Vec::new();
    assert(none.deep_view() =~= Seq::<SType>::empty());
    let it = it.with_fn("mark", none, Type::Float, NativeHandler::Host(TIME_MARK));
    let it = it.with_fn("elapsed", types1(Type::Float), Type::Float, NativeHandler::Host(TIME_ELAPSED));
    it.with_fn("sleep", types1(Type::Int), Type::Null, NativeHandler::Host(TIME_SLEEP))
}

/// Registers the standard library (`std`, with the items `math` and `time`).
pub fn register_std_library(registry: &mut Registry)
    ensures
        final(registry).deep_view() == (SRegistry {
            libraries: put_named(old(registry).deep_view().libraries, library_names(old(registry).deep_view().libraries),
                "std"@, std_library()),
            ..old(registry).deep_view()
        }),
{
    let mut items: Vec<LibraryItem> = Vec::new();
    items.push(math_library_item());
    items.push(time_library_item());
    assert(items.deep_view() =~= seq![math_item(), time_item()]);
    registry.add_library(Library::new(to_owned_string("std"), items));
}

/// The engine: what evaluations start from.
pub struct NbclEngine {
    /// Nodes, functions, globals and libraries known to every evaluation.
    pub registry: Registry,
    /// The maximum depth of nested calls.
    pub max_depth: usize,
    /// The step budget of each top-level node or statement.
    pub step_limit: u64,
    /// Which kinds of import the modules that evaluations read may hold.
    pub import_features: ImportFeatures,
}

/// The registry of an evaluation, for later calls into it.
pub struct Context(pub Registry);

/// A whole evaluator, for later evaluations.
pub struct EvalContext(pub Evaluator);

impl NbclEngine {
    /// A new engine with the built-in functions, the standard library and the `Object`
    /// node; calls nest at most 5 deep.
    pub fn new() -> (r: NbclEngine)
        ensures
            r.registry.deep_view() == default_registry(),
            r.max_depth == 5,
            r.step_limit == u64::MAX,
            r.import_features.module_imports && r.import_features.lib_imports,
    {
        let mut registry = Registry::new();
        register_builtin_functions(&mut registry);
        register_std_library(&mut registry);
        register_builtin_nodes(&mut registry);
        NbclEngine {
            registry,
            max_depth: 5,
            step_limit: u64::MAX,
            import_features: ImportFeatures { module_imports: true, lib_imports: true },
        }
    }

    /// Evaluates a file in a fresh evaluator.
    pub fn evaluate_ast<H: Host>(&self, file: File, host: &mut H) -> (r: Result<ResolvedTree, NbclError>)
        ensures
            match run_file(initial_state(self.registry.deep_view(), self.max_depth), file.items@, self.step_limit as nat) {
                Out::Done((_, roots)) => r matches Ok(t) && t@ == roots,
                Out::Fail(e) => err_res(e, r),
                Out::Host => true,
            },
    {
        let mut evaluator = Evaluator::new(self.registry.copy(), self.max_depth);
        evaluator.import_features = self.import_features;
        evaluator.run(&file, self.step_limit, host)
    }

    /// Evaluates a file in a fresh evaluator; gives the tree and the final registry.
    pub fn evaluate_ast_for_ctx<H: Host>(&self, file: File, host: &mut H) -> (r: Result<(ResolvedTree, Context), NbclError>)
        ensures
            match run_file(initial_state(self.registry.deep_view(), self.max_depth), file.items@, self.step_limit as nat) {
                Out::Done((s, roots)) => r matches Ok((t, c)) && t@ == roots && c.0.deep_view() == s.reg,
                Out::Fail(e) => err_res(e, r),
                Out::Host => true,
            },
    {
        let mut evaluator = Evaluator::new(self.registry.copy(), self.max_depth);
        evaluator.import_features = self.import_features;
        match evaluator.run(&file, self.step_limit, host) {
            Ok(tree) => Ok((tree, Context(evaluator.registry))),
            Err(e) => Err(e),
        }
    }

    /// Registers (or replaces) a native node.
    pub fn register_node(&mut self, schema: NativeNodeSchema)
        ensures
            final(self).registry.deep_view() == (SRegistry {
                native_nodes: assoc_put(old(self).registry.deep_view().native_nodes, schema.node_type@, schema.deep_view()),
                ..old(self).registry.deep_view()
            }),
            final(self).max_depth == old(self).max_depth,
            final(self).step_limit == old(self).step_limit,
    {
        self.registry.add_node(schema);
    }

    /// Registers (or replaces) a native function that the host runs under `handle`.
    pub fn register_native_fn(&mut self, name: &str, params: Vec<Type>, return_type: Type, handle: u64)
        ensures
            final(self).registry.deep_view() == (SRegistry {
                native_functions: assoc_put(old(self).registry.deep_view().native_functions, name@,
                    SNativeFn { name: name@, params: params.deep_view(), return_type: return_type@, handler: NativeHandler::Host(handle) }),
                ..old(self).registry.deep_view()
            }),
            final(self).max_depth == old(self).max_depth,
            final(self).step_limit == old(self).step_limit,
    {
        self.registry.add_native_fn(name, params, return_type, NativeHandler::Host(handle));
    }

    /// Registers a library, replacing one with the same name.
    pub fn register_library(&mut self, library: Library)
        ensures
            final(self).registry.deep_view() == (SRegistry {
                libraries: put_named(old(self).registry.deep_view().libraries, library_names(old(self).registry.deep_view().libraries),
                    library.name@, library.deep_view()),
                ..old(self).registry.deep_view()
            }),
            final(self).max_depth == old(self).max_depth,
            final(self).step_limit == old(self).step_limit,
    {
        self.registry.add_library(library);
    }

    /// Sets a global variable available to every evaluation.
    pub fn set_global(&mut self, name: &str, value: Value)
        ensures
            final(self).registry.deep_view() == (SRegistry {
                globals: assoc_put(old(self).registry.deep_view().globals, name@, value@),
                ..old(self).registry.deep_view()
            }),
            final(self).max_depth == old(self).max_depth,
            final(self).step_limit == old(self).step_limit,
    {
        self.registry.set_global(name, value);
    }

    /// Sets the maximum depth of nested calls.
    pub fn set_max_depth(&mut self, max_depth: usize)
        ensures
            final(self).max_depth == max_depth,
            final(self).registry.deep_view() == old(self).registry.deep_view(),
            final(self).step_limit == old(self).step_limit,
    {
        self.max_depth = max_depth;
    }

    /// Sets the step budget of each top-level node or statement.
    pub fn set_step_limit(&mut self, steps: u64)
        ensures
            final(self).step_limit == steps,
            final(self).registry.deep_view() == old(self).registry.deep_view(),
            final(self).max_depth == old(self).max_depth,
    {
        self.step_limit = steps;
    }

    /// Calls a user function (or lambda) of an evaluation's registry with `args`.
    pub fn call_function<H: Host>(&self, name: &str, args: Vec<Value>, ctx: &Context, host: &mut H) -> (r: Result<Value, NbclError>)
        ensures
            match call_entry(ctx.0.deep_view(), self.max_depth, name@, view_values(args@), self.step_limit as nat) {
                Out::Done((_, v)) => r matches Ok(x) && x@ == v,
                Out::Fail(e) => err_res(e, r),
                Out::Host => true,
            },
    {
        proof { lemma_view_values(args@); }
        let mut evaluator = Evaluator::new(ctx.0.copy(), self.max_depth);
        let def = match get_entry(&evaluator.registry.functions, name) {
            Some(d) => share(d),
            None => {
                return Err(NbclError::Ast {
                    message: concat3("function or lambda identifier '", name, "' could not be resolved"),
                    hint: Some(to_owned_string("Ensure the function was registered or declared before invoking it.")),
                    span: None,
                });
            },
        };
        if def.params.len() != args.len() {
            let mut msg = concat3("argument count mismatch for function '", name, "': expected ");
            push_str(&mut msg, usize_to_string(def.params.len()).as_str());
            push_str(&mut msg, ", got ");
            push_str(&mut msg, usize_to_string(args.len()).as_str());
            return Err(NbclError::Ast {
                message: msg,
                hint: Some(to_owned_string("Verify your parameter count match over the FFI boundary.")),
                span: None,
            });
        }
        evaluator.call_user(&def, args, self.step_limit, host)
    }
}

impl Context {
    /// The file being evaluated, if known.
    pub fn get_current_file(&self) -> (r: Option<String>)
        ensures
            match r { Some(f) => self.0.deep_view().current_file == Some(f@), None => self.0.deep_view().current_file is None },
    {
        match &self.0.current_file {
            Some(f) => Some(f.clone()),
            None => None,
        }
    }

    /// Merges another context's registry into this one.
    pub fn extend(&mut self, other: Context)
        ensures
            final(self).0.deep_view() == crate::registry::merged(old(self).0.deep_view(), other.0.deep_view()),
    {
        let Context(reg) = other;
        self.0.extend(reg);
    }
}

impl EvalContext {
    /// An evaluator set up as a new engine's.
    pub fn new() -> (r: EvalContext)
        ensures
            r.0.deep_view() == initial_state(default_registry(), 5),
    {
        let engine = NbclEngine::new();
        Self::from(&engine)
    }

    /// An evaluator set up from an engine.
    pub fn from(engine: &NbclEngine) -> (r: EvalContext)
        ensures
            r.0.deep_view() == initial_state(engine.registry.deep_view(), engine.max_depth),
    {
        let mut evaluator = Evaluator::new(engine.registry.copy(), engine.max_depth);
        evaluator.import_features = engine.import_features;
        EvalContext(evaluator)
    }

    /// The file being evaluated, if known.
    pub fn get_current_file(&self) -> (r: Option<String>)
        ensures
            match r { Some(f) => self.0.deep_view().reg.current_file == Some(f@), None => self.0.deep_view().reg.current_file is None },
    {
        match &self.0.registry.current_file {
            Some(f) => Some(f.clone()),
            None => None,
        }
    }

    /// Merges another evaluation context's registry into this one's.
    pub fn extend(&mut self, other: EvalContext)
        ensures
            final(self).0.deep_view() == (SState {
                reg: crate::registry::merged(old(self).0.deep_view().reg, other.0.deep_view().reg),
                ..old(self).0.deep_view()
            }),
    {
        let EvalContext(ev) = other;
        self.0.registry.extend(ev.registry);
    }
}

} // verus!
