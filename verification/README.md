# clipboard_bridge

Shared clipboard between a Linux (Hyprland/Wayland) VM and its macOS host
under Parallels Desktop: text and images in both directions over a small
line-framed JSON protocol, with first-contact pairing and HMAC-SHA256
challenge-response afterwards.

Layout:

- `src/` — the library, verified with Verus: the frames and their encoding,
  authentication and the pairing record, the echo guard, the handshake and
  reconnect decisions of both roles, the service files and status text, and
  the parsing the daemon needs (route table, timestamps, offered MIME types).
  Calls into sha2, hmac, hex, rand, base64, png and serde_json go through
  small trusted wrappers whose contracts say what each call returns.
- `app/` — the `clipboard-bridge` binary: command line, sockets, threads,
  files, mDNS, the Wayland and macOS clipboards. It performs the I/O and asks
  the library what to do.
- `tests/` — tests of the library on concrete values.
