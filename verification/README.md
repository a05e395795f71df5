# nbcl

`nbcl` evaluates NBCL (Node Based Configuration Language) syntax trees: a small
declarative language of nodes, components, functions and statements, e.g.

```
print("Hello, World")

Object "server" {
    port    = 3000
    address = "nbcl-lang.github.io"
}
```

The evaluator is written in Verus. Its behaviour is given as a big-step semantics
(`src/semantics.rs`), and every evaluation entry point is proved to agree with it
(values, resolved nodes, errors with kind, message, hint and span, and the final state)
wherever the evaluation does not consult its host. Where it does (a native function,
the text or arithmetic of a float, a module import), the semantics leaves the outcome
to the host; the evaluator then records each native call, module request and printed line, with
the host's reply, in a ghost log (`Evaluator::host_calls`), and its contracts state what
it hands to the host and what it does with the reply where they can. Whatever the host
replies, an evaluation that succeeds leaves as many scopes as it found, at the call depth
it started at; `||` and `&&` evaluate their right operand only when the left one does not
decide; and a call of a host-run native function asks the host once, with the argument
values, exactly when their number and types are right.

Syntax trees are built from parse trees (`ParseNode`: the rule, span, text and
children of each node that the grammar's parser recognised); building is proved
against a specification of its own, including the switches that turn module and
library imports off.

## Layout

- `src/value.rs`, `src/ast.rs`, `src/error.rs`: values, syntax trees, errors and
  their mathematical models.
- `src/registry.rs`, `src/engine.rs`: what an evaluation knows by name (native nodes
  and functions, components, functions, globals, libraries) and the engine's API.
- `src/semantics.rs`: the semantics, indexed by a step budget.
- `src/builder.rs`, `src/stmt_builder.rs`, `src/file_builder.rs`: building
  expressions, statements and nodes, and whole files from parse trees.
- `src/interp.rs`, `src/statements.rs`, `src/nodes.rs`, `src/toplevel.rs`,
  `src/modules.rs`, `src/builtins.rs`, `src/ops.rs`, `src/strings.rs`,
  `src/equality.rs`, `src/format.rs`: the evaluator, each function proved against
  the semantics.
- `src/laws.rs`, `src/scoping.rs`: properties proved of the semantics (short-circuit
  operators, depth limit, definitions before use, balanced scopes, ...).
- `src/host.rs`: what the embedding program supplies (floating-point arithmetic and
  text, native function bodies, printing, finding and reading modules) and the log
  of what was asked of it.
- `app/`: the command-line program, its host, error reports, JSON output and the
  conversion of a pest parser's pairs into parse trees.
