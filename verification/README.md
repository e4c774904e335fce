# opcua-howick

Job delivery for Howick FRAMA roll-forming machines: an operator uploads a CSV in the
browser, the job server queues it, and an agent next to the machine picks it up and
writes it to the machine's USB input.

This crate is written in Verus. Its logic is proved against contracts:

- `src/` is the verified library:
  - `machine`: the job queue and machine state, modelled by views.
  - `http`: request parsing, routing, every reply of the job server, and the JSON
    text handling.
  - `updater`: release-version checks.
  - `config`: defaults and overrides.
  - `watcher`, `poller`, `opcua`: the decisions of the file watcher, the HTTP poller
    and the OPC UA agent and server.
  - `sensor`: the decoding of the coil sensor's ADC bits.
  - `mock`: a stand-in job backend for development.
  - `text`: the character and string helpers that the rest is built on.

  The laws that hold across calls stand as public proof functions, named `lemma_*`.
- `app/` is the program around the library: sockets, files, the OPC UA stack, timers,
  configuration files, and the coil arithmetic in floating point.
- `tests/` runs the library on concrete values.
