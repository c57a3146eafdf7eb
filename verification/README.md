# bcc

The middle of a C compiler, written in Verus: every function of the library has a
contract. All of them are proved but those of `lossy_text` and `utf8_text` in
`src/common/text.rs`, which stand for functions of the standard library that
decode UTF-8 and are trusted.

- `src/frontend/sema` analyzes a parsed C11 translation unit with its GNU
  extensions: scopes, types, declarations, statements and expressions. What each
  construct does to the state of the analysis is a spec function over `State`;
  `laws.rs` proves what all of them keep, and `order.rs` that the order of type
  keywords does not matter.
- `src/ir/lowering` holds the context that lowering works on, the tables that
  drive it (enumeration constants, definitions of structs and unions, the order
  of declarations), and the evaluation of constant expressions.
- `src/driver` decides: command-line arguments, the steps of a compilation,
  names of files, what to link, and what archives and ELF objects hold.
- `src/common` has what these share: types and their layout, names, targets,
  diagnostics and text.

`app/` is the command-line program around the library. It reads and writes files
and runs the steps that the library decides on. Lexing, parsing and code
generation are phases that the program takes through the trait in
`app/phases.rs`.
