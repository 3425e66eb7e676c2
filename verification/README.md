# rust_chat

A line-oriented chat: clients send `|`-separated frames (`message|<text>`,
`login|<name>|<password>`), the server broadcasts messages to the other
connections and answers logins from a file of `name|password` records.

- `src/` is the verified library: text operations (`text`), frame parsing
  (`frame`), frame building and line normalisation on the client side
  (`client`), the server's per-connection decisions (`session`), the state of
  the windowed clients (`gui`) and the laws that tie a client's frames to what
  the server reads (`laws`).
- `app/` holds the programs around it: the servers, the echo server, the
  console client and the two windowed clients, which do the network, file and
  window work and call the library for every decision.
