# soul_mir

The MIR stage of the Soul compiler, written in Verus: every function in
`src/` carries a contract that Verus proves.

- `src/types.rs`, `src/ast.rs` — the resolved, type-checked source tree that
  lowering reads, and the resolver's records about it.
- `src/mir.rs` — the MIR: locals, basic blocks, statements, terminators, and
  what it means for a lowered function to be well formed.
- `src/lower/` — lowering one function body (or a whole program) into MIR:
  expressions, variables, assignments, calls, `return`, `if`, while-loops,
  `break`/`continue`, the `assert`/`panic` intrinsics and `match` in
  statement position (with literal, `_` and binding arms only; any other
  pattern is refused with `UnsupportedMatchPattern`). Anything outside the
  supported slice of the language is reported as a `Fault`, never
  mis-lowered and never a panic. `src/lower/semantics.rs` states what
  lowering produces, on every input, as spec functions over an abstract
  lowering state, and the lowering routines are proved to agree with them.
- `src/fault.rs` — the faults lowering reports.
- `src/layout.rs` — sizes and alignments of types (structs, unions, arrays).
- `src/backend.rs` — code-generation bookkeeping: generic substitution,
  function instances and their ids, block and symbol names, export names.
- `src/ir_rules.rs`, `src/codegen.rs` — the choices made before an
  instruction is built: comparison predicates, cast conversions, machine
  types, signedness, integer instructions, the exit-code conversion.

`app/` holds what stays outside the verified library: error kinds that can be
displayed and serialized, and a driver that times a lowering run. `tests/`
runs the library on hand-built programs.
