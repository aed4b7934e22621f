# free_socks

A client for the event socket of [FreeSWITCH](https://freeswitch.org), with its logic verified by
[Verus](https://github.com/verus-lang/verus).

- `src/` is the library. It holds everything that does not touch the network, each function with a
  contract: the text form of messages (`event`), the reader that takes bytes in whatever pieces they
  come and the driver that says what is sent and who gets a reply (`event_socket`), the commands and
  their replies (`client`), and the tables that queries return (`query`). What holds over many
  calls is stated and proved in the `laws` modules.
- `app/` connects the library to TCP: `EventSocket`, `InboundSocket` and `Client`.
- `tests/` run the library.

What the library has from other crates (`mime`, `regex`, `serde_json`, `uuid`) stands behind small
functions whose contracts are trusted. Each says what it trusts.
