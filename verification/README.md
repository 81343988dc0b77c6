# brane_vm

A verified core of a workflow system: the virtual machine that runs compiled
workflows (its heap, value stack, call frames, bytecode and instructions),
the compiler from the workflow language's syntax tree to bytecode, and the
logic of the services around it (job descriptions, events and callbacks,
infrastructure descriptions, and the command-line tool's names and files).

- `src/` is the library, verified with Verus: public functions state what
  they return in their contracts, and the laws of the library (such as that
  a block leaves the locals as it found them, or where the jumps of a loop
  land) are proved as public proof functions. Where a result rests on the
  running program rather than on the arguments (which heap slots other
  handles still hold, the clock, a URL parser's verdict), the contract says
  what holds of every outcome, and a verified function that takes the
  outside result as an argument (such as `Heap::allocate_with`) states the
  rest.
- `tests/` runs the library on concrete values.
- `app/` holds what surrounds the library: the machine's run loop with
  real-number arithmetic and external calls, reading the YAML configuration
  files, the wire form of job messages, and error texts.
