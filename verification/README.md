# jbuchong

The plain-value core of a Rust–Java bridge built on `j4rs`, verified with
Verus.

- `src/` is the verified library: the typed data wrappers and pair types that
  stand for Java values, the encoding of comparison results, the generators of
  the Rust and Kotlin glue sources for Kotlin function types, and the derives
  and attributes that bind Rust types to Java objects. For those, the library
  reads the item from the text of its tokens (through `syn`, behind trusted
  wrappers), plans what to generate, and writes the text of the generated
  impls, each with a contract that states that text.
- `app/` is the part that talks to the JVM through `j4rs` (the conversion
  traits and their impls), and the derives as functions on token streams:
  each turns its tokens into text, calls the library, and turns the text it
  gets back into tokens.
- `tests/` runs the library on concrete values.
