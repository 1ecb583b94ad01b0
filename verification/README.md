# letsconnectdreams_tui

The client side of the LetsConnectDreams signaling protocol, as a library
verified with Verus, and the terminal program around it.

- `src/frame.rs` — 12-byte frame headers (kind and big-endian data length),
  the `ECHOOO` and `ABORTT` frames, authentication replies.
- `src/command.rs` — reading commands from a line of input, writing them as text.
- `src/session.rs` — what the client does for each command, connected or not.
- `src/stun.rs` — STUN binding requests and the XOR-MAPPED-ADDRESS of responses.
- `src/config.rs` — the `[server]` section of `config.ini`, read with `rust-ini`.
- `src/crypto.rs` — RSA key pairs and PKCS#1 v1.5 encryption through the `rsa` crate.
- `app/` — the program: standard input, sockets, files and threads.
- `tests/` — tests of the library.
