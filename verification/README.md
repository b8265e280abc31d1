# inheritance

Seven ways to get what a C++ base class gives (shared state, shared behaviour,
subtype polymorphism, open extension) in Rust.

- `src/` is the library checked by Verus: the shape colour (`common`) and the
  entity/component store of the data-oriented pattern (`p5_data_oriented`),
  generic in the point and length types. Its contracts state what each
  operation does to an abstract view of the world: a sequence of entities,
  each with a name, an origin, a colour and exactly one shape component.
- `tests/` exercises that library with floating-point points and lengths.
- `app/` is the demo program: the patterns whose state and behaviour are
  floating point (areas, translations, formatted labels), trait objects,
  `dyn Any` downcasting and macro-generated delegation.
