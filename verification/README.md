# decls_gen

Builds Daikon declaration files (`.decls`, format version 2.0) for Rust
functions, writes them, and reads them back.

The library under `src/` is verified with Verus:

- `vars`, `fields`: variable names, variable declarations and how each part of
  a declaration is written.
- `shape`: the model of a Rust type (`TyShape`) and of a compile-time value
  (`ConstValue`) that the generator expands variables along.
- `ppt`: program points, and the expansion of a formal, a return value or a
  global into declarations, as a spec function (`var_entries`) that the code
  is proved against.
- `decls`, `parse`: the whole file, its text, and the reader of that text.
- `callbacks`: the builder that turns a function (`FnInfo`) into its ENTER,
  EXIT and EXITnn program points and adds the globals.
- `readback`: the proof that reading a written file gives back its program
  points.
- `strmap`, `order`, `text`: the ordered string map, string order, and text
  helpers the rest is built on.

`app/` drives the compiler: it walks the crate, turns compiler types, constant
allocations, visibilities and return sites into the library's plain values,
and does the file input and output.
