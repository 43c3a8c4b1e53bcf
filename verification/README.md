# uf_crsf

Parsing and building of TBS Crossfire (CRSF) frames, with the logic proved
by Verus.

- `src/parser.rs`: the byte-at-a-time frame parser and its packet iterator.
  Each frame it yields carries a correct CRC-8; a frame written by
  `write_packet_to_buffer` is read back as the same packet.
- `src/packets/`: one module per packet type, each with `from_bytes` and
  `to_bytes` stated over a byte-level model of the payload and a round-trip
  law; `mod.rs` holds the dispatch from a raw frame to a `Packet`.
- `src/packets/parameter_settings_entry.rs`: parameter entries, their
  chunking over several frames and the reassembler that joins them.
- `src/device.rs`: the device manager (discovery, parameter loading,
  requests, retries and timeouts), as transitions on an abstract view.
- `src/stream.rs`: the decisions of the stream readers; the I/O loops live
  in `app/`.
- `src/fixed.rs`, `src/checksum.rs`, `src/text.rs`: the trusted boundary to
  `heapless`, `crc` and `core::str`, each item with the contract that the
  rest of the library is proved against.

`tests/` exercises the library with the real outside crates linked.
