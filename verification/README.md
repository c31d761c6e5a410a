# zxzedesk

The verified core of a small remote-desktop application (a host that shares
its screen and a viewer that controls it, over TCP, optionally through the
`bore.pub` relay).

- `src/` is the library, verified with Verus: the wire framing
  (`network`), the host and viewer session state machines (`connection`),
  the commands asked for by remote input events (`input`), the peer's id,
  password, listening port and dialed address (`session`), the tunnel
  client's arguments and output scanner (`tunnel`), the display choice and
  JPEG encoding of frames (`capture`), audio (`audio`), and the text helpers
  they share (`text`).
- `app/` is the Tauri application around it: commands, sockets, screen
  capture, input injection and the tunnel process.
- `tests/` runs the library on concrete values.
