# aya

A small 16-bit virtual machine, the assembler for its language and the
console that runs it, written in Verus: every function of the library under
`src/` carries a contract that Verus proves.

- `word`, `register`, `op_code`, `instruction`, `memory`, `cpu`: the machine,
  its twelve registers, the operations it decodes, its memories and devices,
  and each step it takes.
- `assembler`: the byte of each operation and register in the bytecode the
  assembler writes, which numbers them its own way.
- `lexer`, `parser`: the assembly language, from source bytes to a syntax tree.
- `mod_resolver`, `resolver`, `graph`, `table`: reading a program module by
  module and laying the modules out after the modules they depend on.
- `generator`, `codegen`, `compiler`, `assembly`: the generated assembly text
  of each module, and the bytecode it assembles to.
- `console`, `bitmap`, `bytecode`: the console's memory map, ROM files, keys
  and screen; bitmap images; bytecode written as hex text.
- `laws`: properties that span several functions, proved once.

`app/` is the command line: it reads files, drives the resolver, and runs a
ROM. `tests/` holds the tests.
