# data_handler

Ground-station software for a balloon flight: records arrive over a serial
line, are stamped with a wrapping sequence number, and are fanned out to TCP
subscribers and WebSocket clients together with a decoded text rendering.
A second program reads raw ADS-B messages from a `dump1090` receiver, and a
small client sends operator commands.

- `src/` is the verified library: frame stamping and freshness tracking,
  payload decoding (text and telemetry records), record rendering, request
  classification and subscriber bookkeeping, ADS-B message parsing, and the
  encoding of operator commands.
- `app/` holds the programs: serial-port, socket, WebSocket and process I/O,
  threads, configuration loading, and the rendering of floating-point fields.
- `tests/` exercises the library on concrete values.
