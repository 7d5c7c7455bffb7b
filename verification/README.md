# acodex_server

A server that gives an editor terminals over WebSockets, runs commands for it and bridges language
servers to it.

- `src/` is the verified library: the frame codec and the bridge (`lsp`), terminals and commands
  (`terminal`), updates (`updates`), what the command line decides (`startup`, `utils`), and the
  text and path functions under them (`text`, `paths`). Its contracts are checked by Verus.
- `app/` is the program around it: the command line, the HTTP server, the terminals of the
  operating system and the network.
- `tests/` runs the library.

What the library does not prove but takes from other crates is marked
`#[verifier::external_body]`, with the claim that is made of the other crate above it.
