# niri_core

The core of niri's gesture configuration, configuration files and screen captures, verified with
Verus.

- `gesture`, `binds`, `kdl`: the names of gesture binds and how nodes of the configuration are
  decoded to binds.
- `gestures`, `merge`, `float`: the gesture section and how its parts are put together.
- `utils`, `paths`: expansion of `source` statements in configuration files.
- `regex_eq`: regular expressions that are equal if they are written alike.
- `image_copy_capture`: sessions and frames of screen captures, and the buffers that they are
  copied to.
- `text`: strings as sequences of characters.
- `gesture_laws`, `expansion_laws`, `capture_laws`: what holds of these across calls.

`app/` is the unverified code around the library: decoding with knuffel, reading of files, and the
objects of the compositor. `tests/` runs the library.

Calls into std and the `regex` crate that Verus cannot see into are wrapped in functions marked
`external_body`. Each says what is taken on trust.
