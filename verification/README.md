# mavlink_core

Verified, allocation-free MAVLink framing in Verus.

- `src/crc`: CRC-16/MCRF4XX. `model.rs` defines the checksum bit by bit; `scalar.rs`
  looks bytes up in `tables/`, `folding/` folds sixteen bytes at a time, and both are
  proved to compute it.
- `src/wire.rs`: where the fields of a frame stand and when its checksum matches.
- `src/frame_decoder`: the incremental decoder. `model.rs` says what a decoder makes of
  a byte stream, `laws.rs` what follows from that, and `mod.rs` holds the decoder.
- `src/reader`, `src/async_reader`: reading messages from a source. `model.rs` says
  which message comes next in a stream, `decode.rs` holds the decisions, `stream.rs`
  says what a sequence of reads gives, and `laws.rs` what follows for single reads and
  for asynchronous ones.
- `src/message.rs`, `src/signing.rs`, `src/error.rs`, `src/embedded.rs`: messages,
  signature policy, errors, sources and sinks.
- `app`: adapters for `std`, `embedded-io`, `embedded-io-async` and `tokio`.

Outside code is trusted in two places: `memchr::memchr2` in
`src/frame_decoder/marker.rs`, and how `std` quotes a string in `src/text.rs`.
