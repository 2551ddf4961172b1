# boa_script

Script records for a JavaScript engine: a text is parsed once, compiled once, and run
in as many realms as an embedder has.

- `src/` is the library, verified with Verus.
  - `heap`: realms, source texts, code and script records, reached through handles.
  - `context`: the state that scripts are parsed and run in, with its call frames.
  - `script`: parsing, compiling, and binding a compiled script to another realm.
  - `evaluation`: running a script, as a machine that the engine drives.
  - `laws`: what holds across operations.
  - `outside`: the parser, and what is believed of it.
  - `value`: values, errors and completion records.
- `app/` drives the library on an engine: it asks the compiler, the optimizer and the
  virtual machine for what the library needs next.
- `tests/` runs scripts end to end on a small engine, and each operation step by step.
