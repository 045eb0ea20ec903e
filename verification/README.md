# alox-48

Reading and writing Ruby's Marshal data format (version 4.8), with every
step proved against a mathematical model of the format.

- `src/de`: the reader. `decoding.rs` states, as spec functions, what the
  reader makes of a byte string; `deserializer.rs` is the reader, proved to
  follow that statement, including object links, symbol links, instance
  variables and hashes with default values. `access.rs` reads arrays,
  hashes (with or without a default), objects, structs and instances
  straight from the bytes one entry at a time (`begin_array`, `begin_hash`,
  `begin_hash_default`, `begin_object`, `begin_struct`, `begin_instance`),
  refusing a key after a key and a value after a value, and skips what was
  not taken.
- `src/ser`: the writer. `encoding.rs` states the bytes written for a value;
  `serializer.rs` and `compound.rs` write them, value by value or entry by
  entry after an announced length. `traits.rs` holds `Serialize`, with its
  impls for Rust types, each proved to write the bytes of the value it
  stands for.
- `src/round_trip.rs`: a value written and read back is the same value,
  for every value the format carries as it is (see `round_trips`: no
  instance without instance variables, no repeated hash key or instance
  variable name, no float text with more than four mantissa bytes).
- `src/value`: the `Value` tree, its equality (hashes and instance variables
  compare as maps), and insertion into hashes and instance variables.
  `value/de.rs` walks a value into a `Visitor` (`deserialize_value_with`)
  and reads Rust types out of values (`Deserialize`, `from_value`), also
  entry by entry (`ValueArrayAccess`, `ValueHashAccess`, `ValueIvarAccess`).
- `src/packed.rs`, `src/tag.rs`, `src/rb_types`: packed integers, type tags,
  strings and symbols.
- `src/path_to_error.rs`: where in a value an error was met, described as
  text.
- `app/`: what stays in plain Rust: floating point numbers (a float is kept
  as the text that Marshal stores for it) and error types with `Display`.
