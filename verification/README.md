# zeitpeer

A node of a peer-to-peer time synchronisation network. Nodes probe each other over UDP, poll NTP
servers beside, and fuse what they measure into one offset of the local clock: medians per source,
selection of the best sources, trimming of outliers, smoothing, and an estimate of the drift.

- `src/` is the library, verified with Verus: packets and their wire format, NTP timestamps, the
  four-timestamp equations, waiting requests, ranking and selection, the commands of the store, the
  choice of clocks and the metrics document. Floating point values are carried by their bits: the
  library orders and limits them, but does not compute with them.
- `app/` is the program around it: sockets, timers, the store connection, the HTTP server and
  floating point arithmetic.
- `tests/` runs the library on concrete values.
