# tnuctipun

Builders for MongoDB projection documents. A `BasicProjectionBuilder<T>`
accepts only fields that the type `T` has (`HasField`), joins them below a
path prefix with dots, and builds a `bson::Document` in which the last clause
for a path gives its value.

- `src/projection.rs`: the builder, its contracts and the laws about paths and
  built documents.
- `src/entries.rs`: the model of an insertion-ordered document and its laws.
- `src/bson_specs.rs`: the calls into the `bson` crate and what is assumed of
  them.
- `src/field_witnesses.rs`, `src/path.rs`: the field-name traits and paths.
