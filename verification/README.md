# gopher

A Gopher client library, verified with Verus: URL parsing that recognizes telnet
and IPv6 addresses, requests over TLS or Tor with fallback, downloads that Ctrl-c
cancels, and cleaning of Unicode control characters from responses.

- `src/` is the library. It does no I/O: a request, a fetch or a download asks for
  one thing at a time (`action`) and is told how that went (`advance`).
- `src/*_laws.rs` state what holds of every URL, request and download.
- `app/` does the I/O: sockets, TLS, Tor, files and the terminal.
- `tests/` runs the library on concrete inputs.
