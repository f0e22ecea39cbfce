# rnc

A netcat-style tool (TCP/UDP client and server, TLS, SOCKS5, broadcast
rooms, hex dumps, JSON event logs, line filters, rate limiting) whose
decision-making core is verified with Verus.

- `src/` is the verified library: option checks and target resolution
  (`cli`), the receive-side line filter (`filter`), the SOCKS5 CONNECT
  handshake as a state machine (`socks5`), hex dumps (`hexdump`), JSON event
  records (`json`), counters and pacing (`instrument`), address formatting,
  retries and error classification (`net`), and broadcast-room membership
  (`roster`). The calls into `regex` and a few `std` text and clock
  functions are trusted wrappers (`matcher`, `text`, `instrument`).
- `app/` is the program around it: argument parsing with clap, sockets,
  threads, child processes, files, TLS through rustls, and the floating-point
  parts of the output.
