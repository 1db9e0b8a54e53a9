# Confined collections

A collection wrapper whose number of elements is kept within bounds given by
its type: `Confined<C, MIN_LEN, MAX_LEN>` over a `String`, `Vec`, `VecDeque`,
`HashSet`, `BTreeSet`, `HashMap` or `BTreeMap`, with aliases such as
`TinyVec<T>` (at most 255 items) and `NonEmptyVec<T>` (at least one).

Layout of `src/`:

- `collection.rs`: the `Collection` and `KeyedCollection` traits, each with a
  model of the collection's contents (its view), and their implementations for
  the standard collections.
- `confined.rs`: `Confined`, its constructors and operations, and the aliases.
- `error.rs`: the `Error` enum and its message.
- `num.rs`: the 24-bit integer returned by `len_u24`.
- `laws.rs`: properties that relate operations to each other.
- `std_bridge.rs`: specifications of the standard-library calls that vstd does
  not specify.
- `utf8.rs`: facts about UTF-8 lengths and the width of the character at a
  byte position.

Every operation states exactly when it succeeds and what it returns; a refused
operation leaves the collection unchanged, and operations keep the length
within the bounds. A string's length counts UTF-8 bytes: a character is pushed
only when all its bytes fit, and removed only when what is left still meets the
lower bound.
