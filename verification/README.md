# Discordia

The verified core of a chat client in which a keypair is the account: Nostr
identities, direct messages in gift wraps, the state a gateway's messages lead to,
the keys of calls, and the decisions around voice, screens, hosting and presence.

- `src/` is the library. Its functions have contracts that Verus proves, over
  mathematical models of the data. What other crates compute (curves, ciphers, JSON,
  URLs) is called through small wrappers whose doc comments say what is believed of
  them. A function that draws a key, a nonce or a time says what holds of every
  draw; one beside it takes the drawn value and says exactly what comes out.
- `tests/` runs the library with those crates linked.
- `app/` is ordinary Rust around it: files, sockets, processes, sound samples.

Where to start reading:

| module | what it holds |
|---|---|
| `nostr` | events, encryption, gift wraps, chat, contacts, names, relays, conversations |
| `identity`, `keyvault`, `quic` | keys: made, restored, locked, derived |
| `gateway`, `session`, `net` | what the gateway's messages do, and how it is reached |
| `mediakey`, `callkey` | the keys of a call, and who is handed them |
| `voice`, `rawmic` | the call: commands, rooms, the noise gate, sample queues |
| `features` | decisions behind the windows, and the pages and diagrams they show |
| `host`, `portmap`, `presence`, `logging` | hosting from here, the router, what we are doing, the log |
| `state`, `protocol`, `table`, `list`, `text`, `json`, `crypto` | what the others are built on |
