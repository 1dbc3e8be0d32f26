# ocara — verified lowering of Ocara programs to IR

This crate turns the syntax tree of an Ocara program into the compiler's
intermediate representation (an `IrModule` of functions made of basic
blocks), and states what it produces in Verus contracts that are proved.

## Layout

- `src/ast.rs`, `src/ir.rs`: the syntax tree and the IR, with the views the
  contracts speak of (`InstV`, `IrFunction::code()`).
- `src/builder.rs`: `LowerBuilder`, the state of the function being filled,
  with its well-formedness (`wf`) and the relations every lowering step
  keeps (`kept`, `extends`, `functions_grow`).
- `src/lower.rs`, `src/literals.rs`, `src/typeinfer.rs`: expressions
  (`lower_expr`, whose result shape is `expr_lowering_shape`) and their IR
  types.
- `src/statements.rs`, `src/block.rs`, `src/variables.rs`,
  `src/assignments.rs`, `src/control_flow.rs`, `src/loops.rs`,
  `src/exceptions.rs`: statements (`lower_stmt`, `stmt_shape`).
- `src/ownership.rs`, `src/captures.rs`, `src/scope.rs`: owned locals and
  their release, closure captures.
- `src/functions.rs`, `src/classes.rs`, `src/class_dispatch.rs`,
  `src/interfaces.rs`, `src/class_ownership.rs`, `src/message_gen.rs`,
  `src/nameless.rs`, `src/wrappers.rs`, `src/runtime.rs`, `src/tauri.rs`:
  functions, classes and their dispatchers, generators, closures,
  function-value wrappers, the `main` of runtime blocks.
- `src/program.rs`: `lower_program`, the whole program.
- `src/names.rs`, `src/text.rs`, `src/helpers.rs`, `src/astcopy.rs`:
  name tables, strings and copies used throughout.
- `app/lib.rs`: the entry that reports the errors found while lowering.
- `tests/`: tests on concrete programs.
