# tap_tcp

A small userspace network stack for a Linux TAP device, written in Verus.

- `src/` is the verified library: byte-level wire formats (`wire`), the
  Internet checksum (`checksum`), Ethernet and ARP (`eth`), IPv4 (`ip`),
  ICMP echo (`icmp`), UDP and the quote service (`udp`), and TCP segments,
  control replies and the connection table of a passive opener (`tcp`).
  Every parser and serialiser is specified over byte sequences, every reply
  frame is specified byte for byte, and the round trips, checksum validity
  and handshake behaviour are proved as laws.
- `app/` is the program: it opens `tap0`, reads frames, prints them, and
  sends the replies that the library computes.
- `tests/` runs the library on concrete packets.
