# lib — the LLVM AOT v0 backend of the AX toolchain, verified with Verus

The library lowers a program in AX's mid-level IR (`mir`) to a textual LLVM
module, decides how the build reports its outcome, and chooses how the module
is linked. Every function in `src/` is checked by Verus against its contract.

Layout:

- `src/mir.rs` — the IR that the backend reads: types, expressions, statements,
  basic blocks, functions and items.
- `src/ir/` — lowering: layouts of structs and enums (`layout.rs`), the string
  literal table (`literals.rs` is its model), local type inference
  (`infer.rs`), reachability and generic specialization
  (`specialization.rs`), the per-function emitter (`emitter/`) and the module
  renderer (`mod.rs`).
- `src/monomorph.rs` — the plan of functions and specializations reachable
  from `main`.
- `src/runtime/` — the runtime helper functions and globals every module
  carries, for POSIX and Windows hosts.
- `src/abi.rs`, `src/symbols.rs`, `src/diagnostic.rs`, `src/aot.rs`,
  `src/toolchain.rs` — native ABI kinds, symbol naming, layered diagnostics,
  build results and link decisions.
- `src/name_map.rs`, `src/id_map.rs`, `src/text.rs` — ordered maps and text
  helpers with their specifications.

Why the two maps are the crate's own:

- `NameMap` stands where a `BTreeMap<String, _>` would: the renderer walks
  struct, enum and function tables in name order, so the order of iteration is
  part of what the module text is. With `String` keys, vstd's specification of
  `BTreeMap` gave nothing usable here (its `insert` and `get` clauses hold only
  for key types whose comparison vstd knows to obey its model, and `String` is
  not among them), so neither a lookup after an insert nor the order of the
  walk could be proved. `NameMap` keeps its entries in a vector, states as a
  type invariant that the names increase in byte order, and gives `get`,
  `insert` and the walk exact contracts over that sequence.
- `IdMap` maps local ids (`u32`) to slots and types. vstd does specify
  `BTreeMap<u32, _>`, and that type could take its place: every contract in
  the crate speaks of `IdMap` only through its `view_map` (a `Map<u32, _>`),
  which is what vstd's `BTreeMap` view offers too. It is a small vector-backed
  map with a type invariant (each id at most once) because the lowering code
  only inserts and looks up, and the same style of proof serves both maps.

- `app/` — the parts that touch the file system, the environment and
  processes: writing the artifacts and running `clang`.
- `tests/` — rendering scenarios, runtime texts and library behaviour.
