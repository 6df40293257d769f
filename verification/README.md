# bookokrat: the reading bridge

An agent asks for the page or the chapter that a reader has on screen; this crate
decides what it is told. The library is written in Verus: each function states in
its contract what it returns, and the contract is proved.

- `src/mcp/extract.rs`: the text of a screen and of a chapter, the pages around the
  current one, and the key that tells when either has changed.
- `src/mcp/protocol.rs`: requests and answers between reader and client, one line of
  JSON each.
- `src/mcp/members.rs`: the members of an object, told apart in its text.
- `src/mcp/reader_listener.rs`: what the reader answers to a line, and what it does
  while no client is there.
- `src/mcp/server.rs`: the JSON-RPC messages of the stdio server.
- `src/mcp/json.rs`, `src/mcp/text.rs`: what is believed, not proved, of `serde_json`
  and of strings.
- `app/`: sockets, threads and streams around the library.
