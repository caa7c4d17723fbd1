# Beam

Beam sends a file or a directory from a terminal to any browser through a link that lives for a
short time. The library holds the rules of such a transfer as verified code; the program around
it does the input and output.

- `src/` is the library, verified by Verus but for the trusted functions named below.
  - `access`: tokens, PINs and when a session ends.
  - `content`: what is sent, and how a directory becomes an archive.
  - `session`: what a session shows, whom it admits, what ranges it grants, and what becomes of it.
  - `download_page`, `ui`, `doctor`: what visitors and senders get to see.
  - `provider`: the choice of a tunnel, its start, and the client of a relay.
  - `relay`, `relay_protocol`, `headers`, `weburl`: the relay and what travels over it.
  - `cli`, `duration`, `tls`, `text`, `decimal`: the remaining decisions and the tools for them.
- `tests/` runs the library.
- `app/` is the program: command line, servers, tunnels, disk and terminal. Started under the name
  `beam-relay` it is the reference relay.

What the library takes from outside crates stands behind functions that are marked as trusted in
their doc comments, which say what is believed of them.
