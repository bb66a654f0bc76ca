# ratatui_image

Finds out what graphics a terminal can show, and turns images into half blocks where it can show
none.

`src/` holds what is decided and computed, with contracts that Verus proves:

- `picker/query` builds the query, `picker/cap_parser` parses the replies character by character,
  `picker/session` reads them until the terminal has answered everything, and `picker/interpret`
  says what they add up to.
- `picker/environment` reads the hints of environment variables, and `picker` chooses the protocol.
- `protocol/halfblocks` fills cells with two pixels each.
- `picker/replies`, `picker/query_laws` and `picker/laws` hold what is proved of all queries,
  replies and choices; other laws stand beside the functions they are about.
- `base64` and `images` hold what is trusted of the `base64-simd` and `image` crates.

`app/` holds what touches the process and the terminal: environment, raw mode, stdio, threads and
shared memory, and the conversions to types of other crates.
