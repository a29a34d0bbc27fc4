# gir

Reads GObject-introspection repositories (`.gir` files) into a library model:
namespaces that hold named types (classes, records, unions, interfaces,
enumerations, bitfields, callbacks, aliases and containers), constants and global
functions. Every reader is written in Verus and proved against a model of the
repository format (`src/grammar.rs`) stated over the document's XML events.

Layout:

- `src/` — the verified library (see the module list in `src/lib.rs`).
- `tests/` — tests of the library on small documents and event sequences.
- `app/` — reading files from disk: opens `dir/name.gir`, reads its events,
  reads included libraries first, and reports errors by panicking with the file
  name and position.

Reading a document stops at each `<include>` of a library that has no namespace
yet (`DocumentStop::Include`); the caller reads that library and then calls
`Library::resume_document` to go on.

Elements directly inside a `<namespace>` that the library does not read are
skipped and recorded, in document order, as `UnknownElement`s in the `notices`
that the readers are handed; `UnknownElement::line` gives the line that reports
one, and the app prints these lines.
