# mediachat-native

A native overlay that shows chat messages with pictures, videos and sound on
top of a stream.

- `src/` is the core: a state machine that takes events and hands back the
  actions to perform, with its contracts proved by Verus. `src/outside.rs` lists
  what it takes on trust from other crates.
- `app/` is the program around it: window, network, decoder and player.
- `tests/` runs the core on concrete messages, images and frames.

Times are counted in nanoseconds from an origin that the program picks. Numbers
that arrive as floating point are held as their bits.
