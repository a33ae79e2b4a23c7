# jvm

A verified model of the method-call core of a small Java virtual machine,
written in Verus.

- `src/signature.rs` — field and method descriptors: a parser with an exact
  specification, and the proofs that parsing and encoding undo each other.
- `src/oop.rs` — values, the operand stack, the heap and the loaded classes,
  with method lookup by name and descriptor.
- `src/invoke.rs` — a call from start to finish: arguments off the caller's
  stack, virtual dispatch, the callee's frame layout, monitors, and the
  return value back onto the caller's stack.
- `src/native.rs`, `src/java_lang_object.rs`,
  `src/sun_reflect_native_constructor_accessor_impl.rs` — native method
  tables, their registry and the natives of `java.lang.Object`.
- `src/javap/instruction.rs` — two instruction decoders of `javap`.
- `app/` — monitors on real locks and the loop that runs a call, with the
  bytecode interpreter supplied through a trait.
