# luars

Core data structures and rules of a Lua virtual machine, written in Verus with their
behaviour stated as contracts and proved.

Layout:

- `src/lua_value/` — tagged values (`LuaValue`: tags, constructors, type tests, raw
  equality, table hashing, display text, the bit-level treatment of floats), string
  payloads with their lazily cached hash, upvalues and upvalue stores.
- `src/gc/` — object kinds, the packed collector header (colors, ages, list index),
  typed and tagged object pointers, object owners, the compact object list and the table
  of interned short strings.
- `src/lua_vm/` — call frames and their status word, registry references and the id
  manager, the xoshiro256** generator, resource limits, the table builder, and the
  interpreter helpers:
  shifts, floor division and modulo, exact integer/float comparisons, `for` loop
  preparation, vararg access, concatenation (result kind and slow-path steps), and the
  decisions of the call (including the `__call` chain and its stack layout, native-call
  hooks and results), length and resume-after-yield steps.
- `src/lib_registry.rs` — how a standard library module is installed.
- `src/compiler/` — variable kinds, the block pool, variable bookkeeping (declaring,
  activating and removing locals) of a function
  being compiled and the display name of a chunk.
- `tests/` — tests of the library on concrete values.
- `app/` — floating-point helpers that build on the library (the library keeps floats as
  bit patterns).
