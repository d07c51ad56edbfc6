# Cosmic C: SIA32 lowering

Cosmic C compiles C to code bundles for the SIA32 processor of Cosmic OS. This
package is the part between the C front end and the code generator, written in
Rust and verified with Verus.

- `src/replace`: macro replacement on preprocessing tokens.
- `src/hir.rs`, `src/types.rs`: the typed program that the front end hands over,
  and how its types are represented on SIA32.
- `src/lower`: lowering of function bodies to code generator steps. The files
  ending in `_model` say what each construct stands for, those ending in `_laws`
  prove what lowering keeps, and `machine.rs` says what steps do when they run,
  which `branch_laws.rs` uses to show which operands run.
- `src/unit`: translation units, that is symbols, string literals, static
  objects, the contents of data objects, and the bundle made of what the code
  generator returns.
- `src/bundle`: the `COSMIC-SIA` bundle format and calls prepared for an
  execution harness.
- `app`: the `cosmicc` command, which joins the front end, this library and
  Cranelift.
