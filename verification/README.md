# jlrs (verified core)

The parts of the Julia bindings that compute on plain data, verified with Verus:

- `data::managed::array::dimensions`: n-dimensional indices (`Dims`, `DimsOps`,
  `Dimensions`, `ArrayDimensions`) and column-major linear indexing, with proofs that
  indexing is a bijection between in-bounds indices and positions in an array's data.
- `data::managed::array::data`: arrays copied to Rust (`CopiedArray`), the inline storage of
  `isbits` arrays (`BitsArray`) and of bits-union arrays (`BitsUnionArray`). Their
  well-formedness is stated over public views, so a caller can prove that a read after a write through `get_mut` or `set` gives back what was
  written (`lemma_write_then_read`, `lemma_bits_set_then_get`, `lemma_set_then_get`).
- `data::managed::array`: allocation flags, element sizes, the shape and layout checks made
  before an array is created from Rust data, and whether a field can hold an array.
- `data::managed::union`: unions as binary trees of types, and the lookups of their types.
- `data::managed::named_tuple`: filtering the fields of named tuples and merging them in an
  `fnv::FnvHashMap`.
- `data::managed::string`, `parachute`, `symbol`, `ccall_ref`: Julia strings, data with a
  parachute, symbols encoded by types, and values returned as `Ref`s. `Ref` is an unrooted
  reference to Julia data.
- `data::layout`: the layouts `Bool`, `Char`, `SSAValue`, `Nothing`, typed layouts, marker
  traits and the layout checks `ValidLayout`, `ValidField` and `MatchingLayout`.
- `data::text`: decimal and hexadecimal text of integers.

`app/` holds the glue that needs Rust's `TypeId`.
