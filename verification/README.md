# Wormhole

Wormhole manages SSH tunnels from the macOS menu bar: it saves tunnel profiles,
keeps their secrets in the keychain, and starts and stops local, remote and
dynamic (SOCKS5 and HTTP proxy) forwarding.

- `src/` is the library, verified with Verus: profiles, the state of the service,
  the proxy protocols, the machines that move bytes and take clients in, the list
  of known servers, logging in, and the icon. The modules whose names end in
  `_laws` state what holds of the others as a whole.
- `app/` is the program around it: files, sockets, SSH sessions, threads and
  windows. It does what the library says and tells it what came of it.
- `tests/` runs the library on concrete values.

The client count takes in the clients of local and dynamic tunnels. Those of a
remote tunnel are on the server and are not counted.

Taken on trust, and said so where they are called, are random ids (`uuid`), the
keychain (`keyring`), turning bytes into text and appending a character to a
string (the standard library).
