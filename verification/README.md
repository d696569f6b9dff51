# neopatch_core

The decisions of a patch library for older games: what it writes into a running game, how it
creates and paces a Direct3D 9Ex device for it, how it stands in for Direct3D 8, and what it
keeps in its logs, files and windows. Every function of the library has a contract that
Verus proves.

- `src/` is the library. It computes on plain values: addresses are integers, images and
  files are byte vectors, vtables are vectors of addresses. What only the system can answer
  comes in as an argument, and what the system has to do goes out as a value.
- `app/` is the code around it, which runs inside a game: it reads and writes memory, calls
  the system and the Direct3D runtime, and holds the state.
- `tests/` runs the library on concrete values.

The library rests on a few statements about code that it does not prove: `String::push` and
`String::push_str` (`src/text.rs`), the lossy decoders of the standard library
(`src/decode.rs`), and the encoder of the `png` crate (`src/screenshot.rs`).
