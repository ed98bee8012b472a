# grain_vm

A bytecode machine for scripts, written in Rust and verified with Verus.

The machine runs compiled programs: it decodes their instructions, keeps the
operand stack, the variables and the cells that closures share, calls compiled
functions within a call-depth limit, walks property and index chains, and hands
failures to the `try` regions that are open. Every function of the library
states what it does as an equation between models: `Vm` is the executable state,
`Machine` its model, and each instruction, call and entry point is a
specification function from one `Machine` to the next.

## The host

What only the embedding application can do (its own functions and types, the
fragments it interprets itself, floating-point arithmetic, debugging) is asked
of it. A run stops at the first question it has no answer for and leaves the
request in the machine. The host works the answer out once, adds it to the
answers and runs again from the same start. What a run comes to is a function of
where it starts and of its answers, and a question that has an answer waiting
takes that answer and goes on; `src/laws.rs` states this of one question.

## Layout

- `src/value.rs`, `heap.rs`, `scope.rs`, `stack.rs`, `dict.rs`: values, shared
  cells, variables, operands and maps.
- `src/bytecode.rs`, `tag.rs`, `program.rs`: instructions and programs.
- `src/engine.rs`, `host.rs`, `machine.rs`, `memo.rs`: limits, questions and
  answers, the state of a run, and what call sites remember.
- `src/arith.rs`, `assign.rs`, `ops.rs`, `operate.rs`, `element.rs`,
  `chain.rs`, `site.rs`, `call.rs`, `frame.rs`: the instructions, calls and
  frames.
- `src/vm.rs`, `callback.rs`: entering a program from outside, and calling back
  into it from a host function.
- `src/jit_state.rs`, `merge.rs`, `counters.rs`, `residual.rs`, `jitcodes.rs`,
  `bindings.rs`, `paths.rs`, `resume.rs`, `ab_gate.rs`: what a tracing compiler
  needs of the machine.
- `src/laws.rs`: what holds of the machine as a whole.
- `tests/`: the tests.
- `app/`: the host loop, floating-point arithmetic, process-wide state and the
  loop that consults a tracing driver.

Trusted declarations stand in `src/jitcodes.rs` (for `bincode`) and
`src/resume.rs` (for `majit_ir`); everything else is proved.
