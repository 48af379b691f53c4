# wasm_merge

A multi-memory module merger and shared-library linker for WebAssembly, written
in Verus. Each merged module keeps its own linear memory; a shared library can
be specialized per consumer so that each consumer gets its own memory and its
own copies of the library's mutable globals.

## Layout

- `src/` — the verified library.
  - `component.rs` — core modules, instances, and their extraction from a
    binary component (only the top-level component's payloads count).
  - `plan.rs`, `merge.rs` — the basic merge: merge order, index-space layout,
    import resolution by label, index maps, exports.
  - `analyze.rs`, `callgraph.rs` — which library functions touch instance
    state, and which of them a consumer reaches.
  - `linking.rs`, `copies.rs`, `sharing.rs`, `rewrite.rs`, `specialize.rs` —
    the specializing merge: entries, imports that stay imports, the layout of
    copies, shell wrappers and per-consumer globals, and the per-instruction
    rewrite of specialized copies.
  - `isolation.rs` — the post-merge isolation check.
  - `cli.rs`, `wiring.rs` — the command line and the wiring of `file=label`
    inputs into instances.
  - `ops.rs`, `model.rs`, `text.rs`, `counting.rs` — plain values and helpers.
  - `bindings.rs`, `encode.rs` — the calls into `wasmparser` and
    `wasm-encoder`, with the contracts the rest relies on.
- `tests/` — tests on concrete modules (built with `wat`) and on the laws.
- `app/` — the command-line program: argument reading, file I/O, messages.
