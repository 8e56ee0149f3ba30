# abra_core

The bytecode virtual machine of the Abra language, with its instruction
semantics stated and proved in Verus.

- `src/semantics.rs` gives the meaning of every instruction as a function from
  machine state to next state and outcome; `src/vm.rs` runs the machine and is
  proved to follow it step by step.
- `src/value.rs`, `src/module.rs`, `src/globals.rs` hold the values, compiled
  programs and global variables; `src/opcode.rs` the instruction encoding.
- `src/laws.rs` states and proves properties across instructions.
- `src/runner.rs` holds the list of lexer tests of the self-hosting test
  runner; `src/output.rs` builds each test's expected output and compares
  it with the actual output line by line.
- `app/` does what the library cannot hold: float arithmetic (the machine
  hands it out and resumes with its result), JSON results, the WebAssembly
  entry points and the lexer test runner's process and file work.
