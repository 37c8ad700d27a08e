# spotatui, the library side

The state and the decisions of a terminal music client, as far as the user's playlists and library
are concerned, with contracts that Verus proves.

- `src/` is the library. Everything that decides or computes stands here: the course of one Web API
  call with its retries, token refreshes and limits (`exchange`, `requests`, `gate`, `errors`), the
  completion of payloads (`json`, `payload`), the table of a playlist's tracks (`playlist_pages`,
  `pages`, `sorting`, `search`, `fetch`), the sidebar with its folders (`folders`, `sidebar`,
  `refresh`), and what the user has saved or changes (`saved`, `liked`, `editing`, `access`,
  `native`). `app` is the state that they share.
- `app/` is the network side: it sends what the library decides on, and hands back what came of it.
- `tests/` runs the library on concrete values.
- `vergen` stands in `Cargo.toml` for the build of `librespot-core` alone, which needs it at a version
  that goes with its `vergen-gitcl`. No code here uses it.

What is not proved is what `serde_json`, `reqwest`, `rspotify`, `librespot-core`,
`librespot-protocol` and a few functions of std give back. Each such function stands behind one
small wrapper, whose doc comment says what is claimed of it.
