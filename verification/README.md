# hashbench

A load generator for hashing services, with its decisions verified by Verus.

- `src/` is the verified library: the FNV-1a reply of the UDP forwarders
  (`hashing`), the request and response text of the TCP hashing backend
  (`request`), the decisions of the backend's loops (`backend`), of the UDP
  forwarder, listener and receivers (`datagram`), of the payload senders
  (`sending`), and the arithmetic of the programs' setup (`setup`).
- `app/` holds the programs: sockets, runtimes, signal handling and argument
  parsing, each service loop asking the library what to do next.
- `tests/` runs the library on concrete values.
