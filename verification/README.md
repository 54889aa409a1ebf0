# multicell

A model of a datacenter built from cells connected port to port. Each cell
runs a cell agent that discovers trees spanning the network, stacks trees on
them for applications, and deploys applications' virtual machines.

- `src/` is the library, verified with Verus: port masks, UUIDs and their
  AIT state machine, names, traphs, routing entries, packetization, the
  messages cells exchange, blueprints and manifests, the cell model's
  handling of packets, the packet engine's routing and flow control, the
  ports' handling of what their links and the packet engine hand them, and
  the cell agent. The cell agent's decisions are
  functions from its state and an event (a port that came up or went down, a
  message from a neighbour, a request from an outside partner or a VM) to
  its new state and the list of routing entries and messages to hand on; the
  packet engine and the ports are written the same way.
- `app/` is the program around it: threads and channels, the reading of
  JSON, tracing to a file, and `main`.
- `tests/` runs the library on concrete values.

## Tree equations

The equations that decide whether a cell receives, sends, saves or extends
on a stacked tree are evaluated with the `eval` crate, which panics on some
expressions. An equation is evaluated only when it is ASCII text of at most 1000
characters without
brackets, parentheses, commas, quotes, dots or `%`, and every `!` starts a
`!=`; and, where it uses `+`, `-` or `*`, when it has at most five of them,
no number of more than three digits, and variable values of at most 999.
Any other equation, such as `hops + 1 < 7` with `hops` above 999, gives an
evaluation error instead.
