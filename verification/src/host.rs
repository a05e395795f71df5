//! What the embedding program provides to an evaluation: native function bodies and
//! floating-point work, which the verified core does not compute itself.
use vstd::prelude::*;
use crate::builder::ParseNode;
use crate::error::{NbclError, SError};
use crate::state::Evaluator;
use crate::value::{SValue, Value, view_values};

verus! {

/// Floating-point operations the host performs on bit patterns.
#[derive(PartialEq, Eq, Structural, Clone, Copy)]
pub enum FloatOp {
    Add,
    Sub,
    Mul,
    Div,
}

/// The host of an evaluation. Nothing is assumed of what its methods return: the
/// evaluator records each native call and module request with the host's reply
/// (`Evaluator::host_calls`), and its contracts state what it does with the replies
/// where they can.
pub trait Host {
    /// Runs the native function registered under `handle` on `args`.
    fn call_native(&mut self, handle: u64, args: Vec<Value>) -> Result<Value, NbclError>;

    /// The `Display` text of the float with bit pattern `bits`.
    fn float_display(&mut self, bits: u64) -> String;

    /// The `Debug` text of the float with bit pattern `bits`.
    fn float_debug(&mut self, bits: u64) -> String;

    /// The bit pattern of `a op b` for the floats with bit patterns `a` and `b`.
    fn float_arith(&mut self, op: FloatOp, a: u64, b: u64) -> u64;

    /// Whether the floats with bit patterns `a` and `b` compare equal.
    fn float_eq(&mut self, a: u64, b: u64) -> bool;

    /// Shows a line that `print` wrote.
    fn print(&mut self, line: &str);

    /// Finds the module that an import names by `path`: gives its resolved location.
    fn resolve_module(&mut self, path: &str) -> Result<String, NbclError>;

    /// Reads and parses the module at the resolved location `target`: gives its parse tree,
    /// which the evaluator builds into a syntax tree.
    fn read_module(&mut self, target: &str) -> Result<ParseNode, NbclError>;
}

/// A request the evaluator made to its host, with the host's reply. The evaluator
/// records each one, in order, as it makes it.
pub enum HostCall {
    /// `call_native(handle, args)` and the result it gave.
    Native(u64, Seq<SValue>, Result<SValue, SError>),
    /// `resolve_module(path)` and the location it gave.
    Resolve(Seq<char>, Result<Seq<char>, SError>),
    /// `read_module(target)` and the parse tree it gave.
    Read(Seq<char>, Result<ParseNode, SError>),
    /// `print(line)`.
    Print(Seq<char>),
}

/// `b` holds the host calls of `a`, in order, and maybe more after them.
pub open spec fn grows(a: Seq<HostCall>, b: Seq<HostCall>) -> bool {
    &&& a.len() <= b.len()
    &&& forall|i: int| 0 <= i < a.len() ==> #[trigger] b[i] == a[i]
}

/// The model of a value result.
pub open spec fn value_reply(r: Result<Value, NbclError>) -> Result<SValue, SError> {
    match r {
        Ok(v) => Ok(v@),
        Err(e) => Err(e@),
    }
}

/// The model of a text result.
pub open spec fn text_reply(r: Result<String, NbclError>) -> Result<Seq<char>, SError> {
    match r {
        Ok(t) => Ok(t@),
        Err(e) => Err(e@),
    }
}

/// The model of a parse-tree result.
pub open spec fn tree_reply(r: Result<ParseNode, NbclError>) -> Result<ParseNode, SError> {
    match r {
        Ok(f) => Ok(f),
        Err(e) => Err(e@),
    }
}

impl Evaluator {
    /// Runs the host's native function `handle` on `args`, and records the call.
    pub fn ask_native<H: Host>(&mut self, host: &mut H, handle: u64, args: Vec<Value>) -> (r: Result<Value, NbclError>)
        ensures
            grows(old(self).host_calls@, final(self).host_calls@),
            final(self).import_features == old(self).import_features,
            final(self).deep_view() == old(self).deep_view(),
            final(self).host_calls@ == old(self).host_calls@.push(HostCall::Native(handle, view_values(args@), value_reply(r))),
    {
        let ghost a = view_values(args@);
        let r = host.call_native(handle, args);
        proof { self.host_calls@ = self.host_calls@.push(HostCall::Native(handle, a, value_reply(r))); }
        r
    }

    /// Hands the host a line that `print` wrote, and records the call.
    pub fn tell_print<H: Host>(&mut self, host: &mut H, line: &str)
        ensures
            final(self).deep_view() == old(self).deep_view(),
            final(self).import_features == old(self).import_features,
            final(self).host_calls@ == old(self).host_calls@.push(HostCall::Print(line@)),
    {
        host.print(line);
        proof { self.host_calls@ = self.host_calls@.push(HostCall::Print(line@)); }
    }

    /// Asks the host where the module `path` is, and records the call.
    pub fn ask_resolve<H: Host>(&mut self, host: &mut H, path: &str) -> (r: Result<String, NbclError>)
        ensures
            grows(old(self).host_calls@, final(self).host_calls@),
            final(self).import_features == old(self).import_features,
            final(self).deep_view() == old(self).deep_view(),
            final(self).host_calls@ == old(self).host_calls@.push(HostCall::Resolve(path@, text_reply(r))),
    {
        let r = host.resolve_module(path);
        proof { self.host_calls@ = self.host_calls@.push(HostCall::Resolve(path@, text_reply(r))); }
        r
    }

    /// Asks the host for the parse tree of the module at `target`, and records the call.
    pub fn ask_read<H: Host>(&mut self, host: &mut H, target: &str) -> (r: Result<ParseNode, NbclError>)
        ensures
            grows(old(self).host_calls@, final(self).host_calls@),
            final(self).import_features == old(self).import_features,
            final(self).deep_view() == old(self).deep_view(),
            final(self).host_calls@ == old(self).host_calls@.push(HostCall::Read(target@, tree_reply(r))),
    {
        let r = host.read_module(target);
        proof { self.host_calls@ = self.host_calls@.push(HostCall::Read(target@, tree_reply(r))); }
        r
    }
}

} // verus!
