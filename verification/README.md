# unblocker_core

The logic of a Linux DPI and IP-block bypass (nfqws + nftables + `/etc/hosts`,
with a byedpi SOCKS path and an install-time strategy/address scanner),
written in Verus and proved against its contracts.

- `src/` — the verified library. The program's plans and decisions are
  functions here: command lines and nft plans, the hosts-file marker block,
  the nsswitch fix, parsers (hosts files, DoH answers, DNS responses, curl
  output, `nft list tables`), TLS ClientHello and SOCKS5 byte layouts, the
  tuner's scoring and ranking, health bookkeeping, and the state machines
  that bring the bypass up and down and run the install-time discovery. Laws that relate several functions are
  public proof functions next to them.
- `tests/` — tests on concrete values, run against the compiled library.
- `app/` — the `unblocker` command: argument parsing, files, processes,
  sockets and HTTP. It runs the library's plans and state machines and
  reports back what happened; its own loops only probe candidates one by
  one and stop at the first that answers. `app/ffi.rs` holds the C entry points the desktop GUI calls.
