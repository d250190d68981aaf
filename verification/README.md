# llvm_sys_query

Fetches several versions of the `llvm-sys` crate from crates.io, builds the
rustdoc JSON of each, and lists, for the items of `llvm_sys::orc2`, the versions
that hold each of them.

- `src/` is the verified library (Verus):
  - `code`: cutting the lines of a span out of a source file and removing the
    indentation that they share;
  - `version`: semantic versions as plain values, parsed by `semver` and written
    out as `semver` displays them;
  - `query`: choosing a version among those that the index lists, checking a
    download against its SHA-256 checksum, deciding whether an earlier build
    can be reused, and the names of the files a build leaves;
  - `listing`: grouping documented items by kind and path across versions, and
    the report that the program prints. The groups are kept in a `Vec` whose
    entries never share a kind and a path (a type invariant), in the order in
    which they were first seen: vstd's specifications of `HashMap` prove
    nothing of lookups under `String` keys, and the order in which a hash map
    is walked is unspecified anyway;
  - `viewer`: the state of the terminal viewer and how each event changes it;
  - `foreign_types`: the std and outside types that the library's values carry.
- `app/` is the program: the index, the downloads, the rustdoc builds, the file
  system, and the terminal loop of the viewer.
- `tests/` runs the library on concrete values.
