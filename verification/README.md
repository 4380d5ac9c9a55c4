# crt

`crt` compiles RVC-CAL dataflow networks to standalone Rust programs: from an XDF
network and the actor classes it names, it writes a Cargo project for one of four
scheduling backends (`naive`, `threads`, `rayon`, `tokio`).

The code generator is a Verus library: each emitter states, as a specification over
character sequences, the exact text it produces, and Verus proves the emitters
against those specifications. The warnings generation gives (priority entries that
denote no action, cyclic priorities, the typestate fallback, initializers that read
inputs) are returned as text by `actor_warnings`, for the program to report.

## Layout

- `src/ast.rs`, `src/network.rs`: the actor syntax and the network the generators read.
- `src/codegen/common/`: what every backend shares: names, types, expressions and
  statements, actors (value-based and typestate), natives, priorities, and the
  scaffolding of `main`.
- `src/codegen/{naive,threads,rayon,tokio}.rs`: the backends; `src/codegen/layout.rs`
  the file layout they share.
- `src/codegen/project.rs`: the Cargo manifest and the build script for native C.
- `src/codegen/syntax.rs`: lexing and parsing of the generated sources with
  proc-macro2 and syn; whether they lex and parse is stated through named
  results of those crates.
- `src/imports.rs`: where an imported unit is looked for.
- `app/`: the command line program: it reads the network and the CAL sources
  through the C++ parser's bridge, reports the warnings, prints the parsed sources with prettyplease
  (which panics on syntax it cannot print, so it is kept out of the library),
  and writes the generated project.
- `tests/`: tests of the library on concrete programs.
