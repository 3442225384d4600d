# flowframe

A small multiplexing transport, verified with Verus.

- `src/flow_control.rs`: per-stream credits (capacity and available credit).
- `src/stream.rs`: stream ids and per-stream state.
- `src/connection.rs`: connection-wide state and frame dispatch.
- `src/protocol/wire.rs`: big-endian 32-bit integers.
- `src/protocol/frames.rs`: the frame format, its encoder and decoder, and the
  round-trip theorems.
- `src/protocol/codec/`: the outbound buffer and the watermark-buffered writer, whose
  state transitions are specified over `WriterView`.
- `src/task.rs`: the futures-runtime types the library stores.
- `app/`: the I/O around the library (tokio-io framing, writing to an `AsyncWrite`).
